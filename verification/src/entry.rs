//! Entry points at work: decoding a payload as the message of one of the
//! composed interfaces, dispatching it, and checking that no two interfaces
//! contribute the same wire name.

use crate::error::{finding_at, findings, ErrorKind, SchemaError, SchemaErrorView};
use crate::input::InterfaceDefs;
use crate::lexical::same_str;
use crate::message::{strs, wire_names_of, EntryDef, EntryVariant, EnumDef, Forwarding};
use crate::parser::MsgType;
use crate::schema::Span;
use crate::utils::{
    assert_no_intersection, disjoint, is_first_collision, row_names, table_names, Collision,
};
use crate::wire::{
    decoding, first_key, lemma_first_key, lemma_first_key_is, DecodeReason, Json, MessageRef,
    MsgJson, Value, VariantShape,
};
use vstd::prelude::*;

verus! {

/// One case of an entry point: the message type of an interface under the
/// name of its variant.
#[derive(Debug)]
pub struct EntryCase<'s> {
    pub variant: &'s String,
    pub message: &'s EnumDef<'s>,
}

/// An entry point with the message types that it merges, in the order in
/// which the contract composes them.
#[derive(Debug)]
pub struct Entrypoint<'s> {
    pub cases: Vec<EntryCase<'s>>,
}

/// A message that an entry point decoded: the case that took it, and the
/// message of that case's type.
#[derive(Debug)]
pub struct EntryMessage<'v> {
    pub case: usize,
    pub message: MessageRef<'v>,
}

/// Why a payload is no message of an entry point: for each case, in the
/// order in which they were tried, its variant and why it did not take the
/// payload.
#[derive(Debug)]
pub struct DecodeError<'s> {
    pub reasons: Vec<(&'s String, DecodeReason)>,
}

/// The message types of the cases as the wire sees them.
pub open spec fn case_shapes(cases: Seq<EntryCase>) -> Seq<Seq<VariantShape>> {
    cases.map_values(|case: EntryCase| case.message.shape())
}

/// The case `at` takes the payload: it is the first whose message type the
/// payload decodes as.
pub open spec fn takes(shapes: Seq<Seq<VariantShape>>, payload: Json, at: int) -> bool {
    &&& 0 <= at < shapes.len()
    &&& decoding(shapes[at], payload) is Ok
    &&& forall|k: int| 0 <= k < at ==> decoding(#[trigger] shapes[k], payload) is Err
}

/// Of two cases that both decode a payload, the one declared first takes
/// it: whichever case takes the payload stands no later than any case that
/// decodes it.
pub proof fn lemma_first_declared_wins(
    shapes: Seq<Seq<VariantShape>>,
    payload: Json,
    taken: int,
    other: int,
)
    requires
        takes(shapes, payload, taken),
        0 <= other < shapes.len(),
        decoding(shapes[other], payload) is Ok,
    ensures
        taken <= other,
{
}

/// A call that dispatching a message asks for: the method to call, on what
/// handles the messages, with the context as it came and the values of the
/// message's fields, and how the answer is passed on.
#[derive(Debug)]
pub struct Call<'s, 'v, C> {
    pub function_name: &'s String,
    pub ctx: C,
    pub args: Vec<&'v Value>,
    pub forwarding: Forwarding,
}

impl<'s> EnumDef<'s> {
    /// The call that a message of this type asks for. There is none for a
    /// message of a variant that the type has no dispatch arm for.
    pub fn dispatch<'v, C>(&self, message: MessageRef<'v>, ctx: C) -> (call: Option<
        Call<'s, 'v, C>,
    >)
        ensures
            call is Some <==> message.variant < self.legs@.len(),
            call matches Some(made) ==> {
                &&& made.function_name == self.legs@[message.variant as int].function_name
                &&& made.ctx == ctx
                &&& made.args@ == message.fields@
                &&& made.forwarding == self.legs@[message.variant as int].forwarding
            },
    {
        if message.variant >= self.legs.len() {
            return None;
        }
        let leg = &self.legs[message.variant];
        Some(
            Call {
                function_name: leg.function_name,
                ctx,
                args: message.fields,
                forwarding: leg.forwarding,
            },
        )
    }
}

impl<'s> Entrypoint<'s> {
    /// The message types of the cases as the wire sees them.
    pub open spec fn shapes(&self) -> Seq<Seq<VariantShape>> {
        case_shapes(self.cases@)
    }

    /// Reads a message from a payload: the cases are tried in the order
    /// of their declaration, and the first whose message type the payload
    /// decodes as takes it. Where none does, the error holds the reason of
    /// each, in that order.
    pub fn decode<'v>(&self, payload: &'v Value) -> (r: Result<EntryMessage<'v>, DecodeError<'s>>)
        ensures
            match r {
                Ok(taken) => {
                    &&& takes(self.shapes(), payload@, taken.case as int)
                    &&& decoding(self.shapes()[taken.case as int], payload@) == Ok::<
                        MsgJson,
                        DecodeReason,
                    >(taken.message@)
                },
                Err(error) => {
                    &&& error.reasons@.len() == self.cases@.len()
                    &&& forall|k: int|
                        0 <= k < self.cases@.len() ==> {
                            &&& (#[trigger] error.reasons@[k]).0 == self.cases@[k].variant
                            &&& decoding(self.shapes()[k], payload@) == Err::<
                                MsgJson,
                                DecodeReason,
                            >(error.reasons@[k].1)
                        }
                },
            },
    {
        let mut reasons: Vec<(&'s String, DecodeReason)> = Vec::new();
        let mut i: usize = 0;
        while i < self.cases.len()
            invariant
                i <= self.cases@.len(),
                reasons@.len() == i,
                forall|k: int|
                    0 <= k < i ==> {
                        &&& (#[trigger] reasons@[k]).0 == self.cases@[k].variant
                        &&& decoding(self.shapes()[k], payload@) == Err::<MsgJson, DecodeReason>(
                            reasons@[k].1,
                        )
                    },
            decreases self.cases@.len() - i,
        {
            let case = &self.cases[i];
            match case.message.decode(payload) {
                Ok(message) => {
                    proof {
                        let shapes = self.shapes();
                        assert(shapes[i as int] == case.message.shape());
                        assert forall|k: int| 0 <= k < i implies decoding(
                            #[trigger] shapes[k],
                            payload@,
                        ) is Err by {
                            assert(reasons@[k].0 == self.cases@[k].variant);
                        }
                    }
                    return Ok(EntryMessage { case: i, message });
                },
                Err(reason) => {
                    assert(self.shapes()[i as int] == case.message.shape());
                    reasons.push((case.variant, reason));
                },
            }
            i += 1;
        }
        Err(DecodeError { reasons })
    }

    /// The call that a decoded message asks for: that of the message type
    /// of its case, with the context as it came.
    pub fn dispatch<'v, C>(&self, taken: EntryMessage<'v>, ctx: C) -> (call: Option<
        (&'s String, Call<'s, 'v, C>),
    >)
        ensures
            call is Some <==> taken.case < self.cases@.len() && taken.message.variant
                < self.cases@[taken.case as int].message.legs@.len(),
            call matches Some(made) ==> {
                let message = self.cases@[taken.case as int].message;
                let leg = message.legs@[taken.message.variant as int];
                &&& made.0 == self.cases@[taken.case as int].variant
                &&& made.1.function_name == leg.function_name
                &&& made.1.ctx == ctx
                &&& made.1.args@ == taken.message.fields@
                &&& made.1.forwarding == leg.forwarding
            },
    {
        if taken.case >= self.cases.len() {
            return None;
        }
        let case = &self.cases[taken.case];
        match case.message.dispatch(taken.message, ctx) {
            Some(call) => Some((case.variant, call)),
            None => None,
        }
    }
}

/// The wire names that each case contributes, case by case.
pub open spec fn case_tables(cases: Seq<EntryCase>) -> Seq<Seq<Seq<char>>> {
    cases.map_values(|case: EntryCase| wire_names_of(case.message.variants@))
}

/// The finding that two cases of an entry point hold the same wire name:
/// it names the variant of the one, that of the other, and the wire name.
pub open spec fn collision_finding(
    span: Span,
    first: Seq<char>,
    second: Seq<char>,
    name: Seq<char>,
) -> SchemaErrorView {
    SchemaErrorView { kind: ErrorKind::Collision, span, note: None, names: seq![first, second, name] }
}

impl<'s> Entrypoint<'s> {
    /// The wire names that each case contributes, case by case.
    pub open spec fn tables(&self) -> Seq<Seq<Seq<char>>> {
        case_tables(self.cases@)
    }

    /// Checks that no wire name is contributed by two cases. Where one is,
    /// the collision reported is that of the name that sorts first, between
    /// the first two cases that hold it.
    pub fn verify(&self) -> (r: Result<(), Collision>)
        ensures
            r is Ok <==> disjoint(self.tables()),
            r matches Err(c) ==> is_first_collision(
                self.tables(),
                c.first as int,
                c.second as int,
                c.name@,
            ),
    {
        let mut lists: Vec<Vec<&str>> = Vec::new();
        let mut i: usize = 0;
        while i < self.cases.len()
            invariant
                i <= self.cases@.len(),
                lists@.len() == i,
                forall|k: int|
                    0 <= k < i ==> strs((#[trigger] lists@[k])@) == wire_names_of(
                        self.cases@[k].message.variants@,
                    ),
            decreases self.cases@.len() - i,
        {
            lists.push(self.cases[i].message.messages());
            i += 1;
        }
        let mut slices: Vec<&[&str]> = Vec::new();
        let mut j: usize = 0;
        while j < lists.len()
            invariant
                j <= lists@.len(),
                slices@.len() == j,
                forall|k: int| 0 <= k < j ==> (#[trigger] slices@[k])@ == lists@[k]@,
            decreases lists@.len() - j,
        {
            slices.push(lists[j].as_slice());
            j += 1;
        }
        proof {
            let given = table_names(slices@);
            let tables = self.tables();
            assert forall|k: int| 0 <= k < given.len() implies given[k] == tables[k] by {
                assert(slices@[k]@ == lists@[k]@);
                assert(row_names(slices@[k]@) =~= strs(lists@[k]@));
            }
            assert(given =~= tables);
        }
        assert_no_intersection(slices.as_slice())
    }

    /// The finding that reports a collision between two cases of this
    /// entry point, at the contract that composes them.
    fn collision_between(&self, collision: &Collision, span: Span) -> (made: SchemaError)
        requires
            collision.first < self.cases@.len(),
            collision.second < self.cases@.len(),
        ensures
            made@ == collision_finding(
                span,
                self.cases@[collision.first as int].variant@,
                self.cases@[collision.second as int].variant@,
                collision.name@,
            ),
    {
        let mut names: Vec<String> = Vec::new();
        names.push(self.cases[collision.first].variant.clone());
        names.push(self.cases[collision.second].variant.clone());
        names.push(collision.name.clone());
        let made = SchemaError { kind: ErrorKind::Collision, span, note: None, names };
        assert(made@.names =~= seq![
            self.cases@[collision.first as int].variant@,
            self.cases@[collision.second as int].variant@,
            collision.name@,
        ]);
        made
    }

    /// The finding that reports a collision between two cases of this
    /// entry point, at the contract that composes them. There is none for
    /// positions that are not those of two cases.
    pub fn collision_error(&self, collision: &Collision, span: Span) -> (error: Option<SchemaError>)
        ensures
            error is Some <==> collision.first < self.cases@.len() && collision.second
                < self.cases@.len(),
            error matches Some(made) ==> made@ == collision_finding(
                span,
                self.cases@[collision.first as int].variant@,
                self.cases@[collision.second as int].variant@,
                collision.name@,
            ),
    {
        if collision.first >= self.cases.len() || collision.second >= self.cases.len() {
            return None;
        }
        Some(self.collision_between(collision, span))
    }
}

/// Passes on the answer of the method that a message called: a success as
/// it is, an error turned into the declared error type by `convert`. No
/// error is dropped and none is made up.
pub fn forward<T, E, F, C: Fn(E) -> F>(outcome: Result<T, E>, convert: C) -> (r: Result<T, F>)
    requires
        outcome is Err ==> convert.requires((outcome->Err_0,)),
    ensures
        match outcome {
            Ok(answer) => r == Ok::<T, F>(answer),
            Err(error) => r is Err && convert.ensures((error,), r->Err_0),
        },
{
    match outcome {
        Ok(answer) => Ok(answer),
        Err(error) => Err(convert(error)),
    }
}

/// Passes on the answer of the method that a query called: a success is
/// encoded for the wire by `encode`; an error of the method, and a failure
/// to encode, are turned into the declared error type.
pub fn forward_encoded<T, B, E, S, F, Enc: Fn(T) -> Result<B, S>, C: Fn(E) -> F, D: Fn(S) -> F>(
    outcome: Result<T, E>,
    encode: Enc,
    convert: C,
    convert_encoding: D,
) -> (r: Result<B, F>)
    requires
        outcome is Ok ==> encode.requires((outcome->Ok_0,)),
        outcome is Err ==> convert.requires((outcome->Err_0,)),
        forall|failure: S| convert_encoding.requires((failure,)),
    ensures
        match outcome {
            Ok(answer) => exists|encoded: Result<B, S>| #[trigger]
                encode.ensures((answer,), encoded) && match encoded {
                    Ok(bytes) => r == Ok::<B, F>(bytes),
                    Err(failure) => r is Err && convert_encoding.ensures((failure,), r->Err_0),
                },
            Err(error) => r is Err && convert.ensures((error,), r->Err_0),
        },
{
    match outcome {
        Ok(answer) => match encode(answer) {
            Ok(bytes) => Ok(bytes),
            Err(failure) => Err(convert_encoding(failure)),
        },
        Err(error) => Err(convert(error)),
    }
}

/// The generated items of an interface, under the module in which its
/// messages stand.
#[derive(Debug)]
pub struct Registered<'s> {
    pub module: &'s String,
    pub defs: &'s InterfaceDefs<'s>,
}

/// The modules of the registered interfaces.
pub open spec fn registered_modules(registry: Seq<Registered>) -> Seq<Seq<char>> {
    registry.map_values(|entry: Registered| entry.module@)
}

/// The message type of the kind `ty` of a registered interface: its
/// queries for that kind, else its execute messages.
pub open spec fn message_of<'s>(entry: Registered<'s>, ty: MsgType) -> &'s EnumDef<'s> {
    if ty == MsgType::Query {
        &entry.defs.query
    } else {
        &entry.defs.execute
    }
}

/// The cases that the variants of an entry point become: each variant
/// whose module is registered takes the message type of the first
/// interface registered under it.
pub open spec fn linked_cases<'s>(
    variants: Seq<EntryVariant<'s>>,
    ty: MsgType,
    registry: Seq<Registered<'s>>,
) -> Seq<EntryCase<'s>>
    decreases variants.len(),
{
    if variants.len() == 0 {
        Seq::empty()
    } else {
        let before = linked_cases(variants.drop_last(), ty, registry);
        match first_key(registered_modules(registry), variants.last().module@) {
            Some(at) => before.push(
                EntryCase {
                    variant: variants.last().variant,
                    message: message_of(registry[at], ty),
                },
            ),
            None => before,
        }
    }
}

/// What is wrong with the variants of an entry point as to the registered
/// interfaces: each variant whose module is not registered, at the contract.
pub open spec fn link_findings(
    variants: Seq<EntryVariant>,
    registry: Seq<Registered>,
    span: Span,
) -> Seq<SchemaErrorView>
    decreases variants.len(),
{
    if variants.len() == 0 {
        Seq::empty()
    } else {
        let before = link_findings(variants.drop_last(), registry, span);
        match first_key(registered_modules(registry), variants.last().module@) {
            Some(at) => before,
            None => before.push(finding_at(ErrorKind::UnknownInterface, span)),
        }
    }
}

/// The position of the first interface registered under `module`.
fn find_registered(registry: &[Registered], module: &str) -> (found: Option<usize>)
    ensures
        match found {
            Some(at) => at < registry@.len() && first_key(registered_modules(registry@), module@)
                == Some(at as int),
            None => first_key(registered_modules(registry@), module@) is None,
        },
{
    let ghost modules = registered_modules(registry@);
    let mut i: usize = 0;
    while i < registry.len()
        invariant
            i <= registry@.len(),
            modules == registered_modules(registry@),
            forall|k: int| 0 <= k < i ==> modules[k] != module@,
        decreases registry@.len() - i,
    {
        if same_str(registry[i].module.as_str(), module) {
            proof {
                lemma_first_key_is(modules, module@, i as int);
            }
            return Some(i);
        }
        i += 1;
    }
    proof {
        lemma_first_key(modules, module@);
    }
    None
}

/// The case of an entry point for the messages that the contract declares
/// itself: there is one where the entry point has a variant for them, and
/// it holds the contract's own message type `own` under that variant's name.
pub open spec fn own_cases<'s>(def: &EntryDef<'s>, own: &'s EnumDef<'s>) -> Seq<EntryCase<'s>> {
    match def.own {
        Some(variant) => seq![EntryCase { variant: variant.variant, message: own }],
        None => Seq::empty(),
    }
}

impl<'s> Entrypoint<'s> {
    /// Puts an entry point together with the message types that it merges:
    /// for each variant that of the interface registered under the variant's
    /// module, in the order of the variants, and last, where the entry point
    /// has a variant for the contract's own messages, the message type `own`
    /// of the contract itself. A variant whose module is not registered is
    /// wrong.
    pub fn link(
        def: &EntryDef<'s>,
        registry: &[Registered<'s>],
        own: &'s EnumDef<'s>,
        span: Span,
        errors: &mut Vec<SchemaError>,
    ) -> (entry: Self)
        ensures
            entry.cases@ == linked_cases(def.variants@, def.msg_ty, registry@) + own_cases(
                def,
                own,
            ),
            findings(final(errors)@) == findings(old(errors)@) + link_findings(
                def.variants@,
                registry@,
                span,
            ),
    {
        let mut cases: Vec<EntryCase<'s>> = Vec::new();
        let mut i: usize = 0;
        assert(findings(errors@) =~= findings(errors@) + link_findings(
            def.variants@.take(0),
            registry@,
            span,
        ));
        while i < def.variants.len()
            invariant
                i <= def.variants@.len(),
                cases@ == linked_cases(def.variants@.take(i as int), def.msg_ty, registry@),
                findings(errors@) == findings(old(errors)@) + link_findings(
                    def.variants@.take(i as int),
                    registry@,
                    span,
                ),
            decreases def.variants@.len() - i,
        {
            assert(def.variants@.take(i + 1).drop_last() =~= def.variants@.take(i as int));
            let variant = &def.variants[i];
            let ghost before = errors@;
            match find_registered(registry, variant.module.as_str()) {
                Some(at) => {
                    let message = match def.msg_ty {
                        MsgType::Query => &registry[at].defs.query,
                        _ => &registry[at].defs.execute,
                    };
                    cases.push(EntryCase { variant: variant.variant, message });
                },
                None => {
                    errors.push(SchemaError::at(ErrorKind::UnknownInterface, span));
                    assert(findings(errors@) =~= findings(before).push(
                        finding_at(ErrorKind::UnknownInterface, span),
                    ));
                },
            }
            assert(findings(errors@) =~= findings(old(errors)@) + link_findings(
                def.variants@.take(i + 1),
                registry@,
                span,
            ));
            i += 1;
        }
        assert(def.variants@.take(i as int) =~= def.variants@);
        if let Some(variant) = def.own {
            cases.push(EntryCase { variant: variant.variant, message: own });
        }
        Entrypoint { cases }
    }

    /// Checks that no wire name is contributed by two cases, and reports a
    /// collision at the contract: the finding names the variants of the two
    /// cases and the wire name that both hold.
    pub fn check(&self, span: Span) -> (r: Result<(), SchemaError>)
        ensures
            r is Ok <==> disjoint(self.tables()),
            r matches Err(error) ==> exists|first: int, second: int|
                {
                    &&& #[trigger] is_first_collision(
                        self.tables(),
                        first,
                        second,
                        error@.names[2],
                    )
                    &&& error@ == collision_finding(
                        span,
                        self.cases@[first].variant@,
                        self.cases@[second].variant@,
                        error@.names[2],
                    )
                },
    {
        match self.verify() {
            Ok(()) => Ok(()),
            Err(collision) => {
                let error = self.collision_between(&collision, span);
                assert(error@.names[2] == collision.name@);
                assert(is_first_collision(
                    self.tables(),
                    collision.first as int,
                    collision.second as int,
                    error@.names[2],
                ));
                Err(error)
            },
        }
    }
}

} // verus!
