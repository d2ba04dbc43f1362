//! A whole build: every interface and the contract that composes them are
//! read, their messages generated, and the contract's entry points checked
//! for wire names that two of the merged message types share.

use crate::casing::{cased, wire_name, Case};
use crate::entry::{
    case_tables, collision_finding, link_findings, linked_cases, message_of, own_cases,
    registered_modules, EntryCase, Entrypoint, Registered,
};
use crate::error::{finding_at, findings, ErrorKind, SchemaError, SchemaErrorView};
use crate::input::{
    contract_findings, declares_error, interface_findings, ImplInput, InterfaceDefs,
    InterfaceMessages, TraitInput,
};
use crate::message::{
    composed, declares_own, emitted_variants, impl_methods, lemma_picked_kind, picked, struct_findings,
    trait_methods, variants_stand_for, wire_names_of, EntryVariant, MsgVariant, VariantDef,
};
use crate::parser::{ContractArgs, ContractMessageAttr, InterfaceArgs, MsgAttr, MsgType};
use crate::schema::{ItemImpl, ItemTrait, Method, Span};
use crate::utils::{disjoint, is_first_collision};
use crate::wire::{first_key, lemma_first_key};
use vstd::prelude::*;

verus! {

/// An interface as a build takes it: its declaration, the arguments it was
/// declared with, and the module under which contracts compose it.
#[derive(Clone, Copy, Debug)]
pub struct InterfaceDecl<'a> {
    pub module: &'a String,
    pub args: &'a InterfaceArgs,
    pub item: &'a ItemTrait,
}

/// What a build finds.
#[derive(Debug)]
pub struct Report {
    /// What is wrong with the declarations, in the order of the build.
    pub findings: Vec<SchemaError>,
    /// The collision among the execute messages, where there is one.
    pub exec_collision: Option<SchemaError>,
    /// The collision among the queries, where there is one.
    pub query_collision: Option<SchemaError>,
}

/// The modules of the interfaces.
pub open spec fn decl_modules(decls: Seq<InterfaceDecl>) -> Seq<Seq<char>> {
    decls.map_values(|decl: InterfaceDecl| decl.module@)
}

/// The wire names of the messages of the kind `ty` among the methods, in
/// the order of declaration.
pub open spec fn kind_wire_names(methods: Seq<&Method>, ty: MsgType) -> Seq<Seq<char>> {
    picked(methods, ty).map_values(|chosen: (&Method, MsgAttr)| wire_name(chosen.0.sig.ident@))
}

/// What is wrong with the interfaces as they are taken: each one that
/// declares no error type.
pub open spec fn taken_findings(decls: Seq<InterfaceDecl>) -> Seq<SchemaErrorView>
    decreases decls.len(),
{
    if decls.len() == 0 {
        Seq::empty()
    } else {
        let before = taken_findings(decls.drop_last());
        if declares_error(decls.last().item.items@) {
            before
        } else {
            before.push(finding_at(ErrorKind::MissingErrorType, decls.last().item.span))
        }
    }
}

/// What is wrong with the messages of the interfaces.
pub open spec fn processed_findings(decls: Seq<InterfaceDecl>) -> Seq<SchemaErrorView>
    decreases decls.len(),
{
    if decls.len() == 0 {
        Seq::empty()
    } else {
        processed_findings(decls.drop_last()) + interface_findings(decls.last().item)
    }
}

/// The kind of message type that an entry point of the kind `ty` merges.
pub open spec fn merged_kind(ty: MsgType) -> MsgType {
    if ty == MsgType::Query {
        MsgType::Query
    } else {
        MsgType::Exec
    }
}

/// The wire names that the composed interfaces contribute to an entry
/// point, interface by interface in the order of composition. An interface
/// that is not among the declarations contributes nothing.
pub open spec fn composed_tables(
    attrs: Seq<ContractMessageAttr>,
    decls: Seq<InterfaceDecl>,
    ty: MsgType,
) -> Seq<Seq<Seq<char>>>
    decreases attrs.len(),
{
    if attrs.len() == 0 {
        Seq::empty()
    } else {
        let before = composed_tables(attrs.drop_last(), decls, ty);
        match first_key(decl_modules(decls), attrs.last().module@) {
            Some(at) => before.push(
                kind_wire_names(trait_methods(decls[at].item.items@), merged_kind(ty)),
            ),
            None => before,
        }
    }
}

/// The names of the variants under which the composed interfaces stand in
/// an entry point.
pub open spec fn composed_tags(attrs: Seq<ContractMessageAttr>, decls: Seq<InterfaceDecl>) -> Seq<
    Seq<char>,
>
    decreases attrs.len(),
{
    if attrs.len() == 0 {
        Seq::empty()
    } else {
        let before = composed_tags(attrs.drop_last(), decls);
        match first_key(decl_modules(decls), attrs.last().module@) {
            Some(at) => before.push(attrs.last().variant@),
            None => before,
        }
    }
}

/// What is wrong with the composition: each interface that is not among
/// the declarations, at the contract.
pub open spec fn unresolved_findings(
    attrs: Seq<ContractMessageAttr>,
    decls: Seq<InterfaceDecl>,
    span: Span,
) -> Seq<SchemaErrorView>
    decreases attrs.len(),
{
    if attrs.len() == 0 {
        Seq::empty()
    } else {
        let before = unresolved_findings(attrs.drop_last(), decls, span);
        match first_key(decl_modules(decls), attrs.last().module@) {
            Some(at) => before,
            None => before.push(finding_at(ErrorKind::UnknownInterface, span)),
        }
    }
}

/// The wire names that are merged into the entry point of the kind `ty`
/// of a contract, list by list: those of the composed interfaces, then
/// those of the contract's own messages, where it has any.
pub open spec fn entry_tables(contract: &ItemImpl, decls: Seq<InterfaceDecl>, ty: MsgType) -> Seq<
    Seq<Seq<char>>,
> {
    composed_tables(composed(contract.attrs@), decls, ty) + if declares_own(contract, ty) {
        seq![kind_wire_names(impl_methods(contract.items@), ty)]
    } else {
        Seq::empty()
    }
}

/// The names under which those lists are reported: the variants of the
/// interfaces, and for the contract's own messages the contract's type.
pub open spec fn entry_tags(contract: &ItemImpl, decls: Seq<InterfaceDecl>, ty: MsgType) -> Seq<
    Seq<char>,
> {
    composed_tags(composed(contract.attrs@), decls) + if declares_own(contract, ty) {
        seq![contract.self_ty.name@]
    } else {
        Seq::empty()
    }
}

/// Everything that is wrong with the declarations of a build, in the order
/// in which the build finds it: with the interfaces as they are taken, with
/// their messages, with the contract, with its composition.
pub open spec fn build_findings(decls: Seq<InterfaceDecl>, contract: &ItemImpl) -> Seq<
    SchemaErrorView,
> {
    taken_findings(decls) + processed_findings(decls) + contract_findings(contract)
        + unresolved_findings(composed(contract.attrs@), decls, contract.span)
}

/// What the collision check of an entry point reports: nothing exactly
/// when no wire name stands in two of the merged lists; else the first
/// collision, under the names of the two lists that share the wire name.
pub open spec fn collision_reported(
    reported: Option<SchemaError>,
    tags: Seq<Seq<char>>,
    tables: Seq<Seq<Seq<char>>>,
    span: Span,
) -> bool {
    &&& reported is None <==> disjoint(tables)
    &&& reported matches Some(error) ==> exists|first: int, second: int|
        {
            &&& #[trigger] is_first_collision(tables, first, second, error@.names[2])
            &&& error@ == collision_finding(span, tags[first], tags[second], error@.names[2])
        }
}

/// The wire names of generated variants are those of the methods that
/// the variants stand for.
pub proof fn lemma_wire_names(
    variants: Seq<MsgVariant>,
    defs: Seq<VariantDef>,
    methods: Seq<&Method>,
    ty: MsgType,
)
    requires
        variants_stand_for(variants, picked(methods, ty)),
        emitted_variants(variants, defs),
    ensures
        wire_names_of(defs) == kind_wire_names(methods, ty),
{
    let chosen = picked(methods, ty);
    assert forall|i: int| 0 <= i < defs.len() implies wire_names_of(defs)[i] == kind_wire_names(
        methods,
        ty,
    )[i] by {
        assert(variants[i].stands_for(chosen[i].0, chosen[i].1));
        assert(defs[i].wire_name@ == cased(variants[i].name@, Case::Snake));
    }
    assert(wire_names_of(defs) =~= kind_wire_names(methods, ty));
}

/// The tags of the cases of an entry point.
pub open spec fn case_tags(cases: Seq<EntryCase>) -> Seq<Seq<char>> {
    cases.map_values(|case: EntryCase| case.variant@)
}

/// The registered interfaces are those of the declarations, generated.
pub open spec fn registry_of(registry: Seq<Registered>, decls: Seq<InterfaceDecl>) -> bool {
    &&& registry.len() == decls.len()
    &&& forall|k: int|
        0 <= k < registry.len() ==> {
            &&& (#[trigger] registry[k]).module == decls[k].module
            &&& wire_names_of(registry[k].defs.execute.variants@) == kind_wire_names(
                trait_methods(decls[k].item.items@),
                MsgType::Exec,
            )
            &&& wire_names_of(registry[k].defs.query.variants@) == kind_wire_names(
                trait_methods(decls[k].item.items@),
                MsgType::Query,
            )
        }
}

/// The variants of an entry point are those of the composition.
pub open spec fn variants_of(variants: Seq<EntryVariant>, attrs: Seq<ContractMessageAttr>) -> bool {
    &&& variants.len() == attrs.len()
    &&& forall|i: int|
        0 <= i < variants.len() ==> {
            &&& (#[trigger] variants[i]).variant == attrs[i].variant
            &&& variants[i].module == attrs[i].module
        }
}

/// Linking the variants of an entry point against the generated interfaces
/// gives the lists and names that the composition has against the
/// declarations, and leaves the same interfaces unresolved.
pub proof fn lemma_linked(
    variants: Seq<EntryVariant>,
    attrs: Seq<ContractMessageAttr>,
    registry: Seq<Registered>,
    decls: Seq<InterfaceDecl>,
    ty: MsgType,
    span: Span,
)
    requires
        variants_of(variants, attrs),
        registry_of(registry, decls),
    ensures
        case_tables(linked_cases(variants, ty, registry)) == composed_tables(attrs, decls, ty),
        case_tags(linked_cases(variants, ty, registry)) == composed_tags(attrs, decls),
        link_findings(variants, registry, span) == unresolved_findings(attrs, decls, span),
    decreases variants.len(),
{
    assert(registered_modules(registry) =~= decl_modules(decls));
    if variants.len() == 0 {
        assert(case_tables(linked_cases(variants, ty, registry)) =~= composed_tables(
            attrs,
            decls,
            ty,
        ));
        assert(case_tags(linked_cases(variants, ty, registry)) =~= composed_tags(attrs, decls));
    } else {
        assert(variants_of(variants.drop_last(), attrs.drop_last()));
        lemma_linked(variants.drop_last(), attrs.drop_last(), registry, decls, ty, span);
        let before = linked_cases(variants.drop_last(), ty, registry);
        assert(variants.last().module@ == attrs.last().module@);
        match first_key(decl_modules(decls), attrs.last().module@) {
            Some(at) => {
                lemma_first_key(decl_modules(decls), attrs.last().module@);
                let case = EntryCase {
                    variant: variants.last().variant,
                    message: message_of(registry[at], ty),
                };
                assert(linked_cases(variants, ty, registry) == before.push(case));
                assert(case_tables(before.push(case)) =~= case_tables(before).push(
                    wire_names_of(case.message.variants@),
                ));
                assert(case_tags(before.push(case)) =~= case_tags(before).push(case.variant@));
            },
            None => {},
        }
    }
}

/// Runs a whole build and reports what it finds.
pub fn assemble<'a>(
    interfaces: &'a [InterfaceDecl<'a>],
    args: &'a ContractArgs,
    contract: &'a ItemImpl,
) -> (report: Report)
    ensures
        findings(report.findings@) == build_findings(interfaces@, contract),
        collision_reported(
            report.exec_collision,
            entry_tags(contract, interfaces@, MsgType::Exec),
            entry_tables(contract, interfaces@, MsgType::Exec),
            contract.span,
        ),
        collision_reported(
            report.query_collision,
            entry_tags(contract, interfaces@, MsgType::Query),
            entry_tables(contract, interfaces@, MsgType::Query),
            contract.span,
        ),
{
    let mut errors: Vec<SchemaError> = Vec::new();
    let ghost decls = interfaces@;
    assert(findings(errors@) =~= taken_findings(decls.take(0)));

    let mut inputs: Vec<TraitInput<'a>> = Vec::new();
    let mut i: usize = 0;
    while i < interfaces.len()
        invariant
            i <= interfaces@.len(),
            decls == interfaces@,
            inputs@.len() == i,
            forall|k: int| 0 <= k < i ==> (#[trigger] inputs@[k]).item == decls[k].item,
            findings(errors@) == taken_findings(decls.take(i as int)),
        decreases interfaces@.len() - i,
    {
        assert(decls.take(i + 1).drop_last() =~= decls.take(i as int));
        let decl = &interfaces[i];
        inputs.push(TraitInput::new(decl.args, decl.item, &mut errors));
        i += 1;
    }
    assert(decls.take(i as int) =~= decls);

    let ghost taken = findings(errors@);
    assert(findings(errors@) =~= taken + processed_findings(decls.take(0)));
    let mut messages: Vec<InterfaceMessages<'_>> = Vec::new();
    let mut j: usize = 0;
    while j < inputs.len()
        invariant
            j <= inputs@.len(),
            inputs@.len() == decls.len(),
            forall|k: int| 0 <= k < inputs@.len() ==> (#[trigger] inputs@[k]).item == decls[k].item,
            messages@.len() == j,
            forall|k: int|
                0 <= k < j ==> {
                    let methods = trait_methods(decls[k].item.items@);
                    &&& variants_stand_for(
                        (#[trigger] messages@[k]).execute.variants@,
                        picked(methods, MsgType::Exec),
                    )
                    &&& messages@[k].execute.msg_ty == MsgType::Exec
                    &&& variants_stand_for(
                        messages@[k].query.variants@,
                        picked(methods, MsgType::Query),
                    )
                    &&& messages@[k].query.msg_ty == MsgType::Query
                },
            findings(errors@) == taken + processed_findings(decls.take(j as int)),
        decreases inputs@.len() - j,
    {
        assert(decls.take(j + 1).drop_last() =~= decls.take(j as int));
        let made = inputs[j].process(&mut errors);
        messages.push(made);
        assert(findings(errors@) =~= taken + processed_findings(decls.take(j + 1)));
        j += 1;
    }
    assert(decls.take(j as int) =~= decls);

    let ghost processed = findings(errors@);
    let mut defs: Vec<InterfaceDefs<'_>> = Vec::new();
    let mut k: usize = 0;
    while k < messages.len()
        invariant
            k <= messages@.len(),
            messages@.len() == decls.len(),
            forall|c: int|
                0 <= c < messages@.len() ==> {
                    let methods = trait_methods(decls[c].item.items@);
                    &&& variants_stand_for(
                        (#[trigger] messages@[c]).execute.variants@,
                        picked(methods, MsgType::Exec),
                    )
                    &&& messages@[c].execute.msg_ty == MsgType::Exec
                    &&& variants_stand_for(
                        messages@[c].query.variants@,
                        picked(methods, MsgType::Query),
                    )
                    &&& messages@[c].query.msg_ty == MsgType::Query
                },
            defs@.len() == k,
            forall|c: int|
                0 <= c < k ==> {
                    let methods = trait_methods(decls[c].item.items@);
                    &&& wire_names_of((#[trigger] defs@[c]).execute.variants@) == kind_wire_names(
                        methods,
                        MsgType::Exec,
                    )
                    &&& wire_names_of(defs@[c].query.variants@) == kind_wire_names(
                        methods,
                        MsgType::Query,
                    )
                },
            findings(errors@) == processed,
        decreases messages@.len() - k,
    {
        let made = messages[k].emit(&mut errors);
        proof {
            let methods = trait_methods(decls[k as int].item.items@);
            let source = messages@[k as int];
            lemma_wire_names(source.execute.variants@, made.execute.variants@, methods, MsgType::Exec);
            lemma_wire_names(source.query.variants@, made.query.variants@, methods, MsgType::Query);
            assert(findings(errors@) =~= processed);
        }
        defs.push(made);
        k += 1;
    }

    let mut registry: Vec<Registered<'_>> = Vec::new();
    let mut r: usize = 0;
    while r < defs.len()
        invariant
            r <= defs@.len(),
            defs@.len() == decls.len(),
            decls == interfaces@,
            registry@.len() == r,
            forall|c: int|
                0 <= c < r ==> {
                    &&& (#[trigger] registry@[c]).module == decls[c].module
                    &&& registry@[c].defs == &defs@[c]
                },
        decreases defs@.len() - r,
    {
        registry.push(Registered { module: interfaces[r].module, defs: &defs[r] });
        r += 1;
    }
    assert(registry_of(registry@, decls));

    let input = ImplInput::new(args, contract);
    let contract_messages = input.process(&mut errors);
    let ghost declared = findings(errors@);
    let contract_defs = contract_messages.emit(&mut errors);
    proof {
        let methods = impl_methods(contract.items@);
        if picked(methods, MsgType::Instantiate).len() == 1 {
            lemma_picked_kind(methods, MsgType::Instantiate, 0);
        }
        if picked(methods, MsgType::Migrate).len() == 1 {
            lemma_picked_kind(methods, MsgType::Migrate, 0);
        }
        assert(contract_messages.emit_findings() =~= Seq::empty());
        assert(findings(errors@) =~= declared);
        lemma_wire_names(
            contract_messages.exec_impl.variants@,
            contract_defs.exec_impl.variants@,
            methods,
            MsgType::Exec,
        );
        lemma_wire_names(
            contract_messages.query_impl.variants@,
            contract_defs.query_impl.variants@,
            methods,
            MsgType::Query,
        );
    }

    let exec_entry = Entrypoint::link(
        &contract_defs.execute,
        registry.as_slice(),
        &contract_defs.exec_impl,
        contract.span,
        &mut errors,
    );
    let mut unread: Vec<SchemaError> = Vec::new();
    let query_entry = Entrypoint::link(
        &contract_defs.query,
        registry.as_slice(),
        &contract_defs.query_impl,
        contract.span,
        &mut unread,
    );
    proof {
        let attrs = composed(contract.attrs@);
        assert(variants_of(contract_defs.execute.variants@, attrs));
        assert(variants_of(contract_defs.query.variants@, attrs));
        lemma_linked(
            contract_defs.execute.variants@,
            attrs,
            registry@,
            decls,
            MsgType::Exec,
            contract.span,
        );
        lemma_linked(
            contract_defs.query.variants@,
            attrs,
            registry@,
            decls,
            MsgType::Query,
            contract.span,
        );
        let linked_exec = linked_cases(contract_defs.execute.variants@, MsgType::Exec, registry@);
        let linked_query = linked_cases(contract_defs.query.variants@, MsgType::Query, registry@);
        let own_exec = own_cases(&contract_defs.execute, &contract_defs.exec_impl);
        let own_query = own_cases(&contract_defs.query, &contract_defs.query_impl);
        assert(own_exec.len() > 0 <==> declares_own(contract, MsgType::Exec));
        assert(own_query.len() > 0 <==> declares_own(contract, MsgType::Query));
        assert(case_tables(exec_entry.cases@) =~= entry_tables(contract, decls, MsgType::Exec)) by {
            if own_exec.len() > 0 {
                assert(case_tables(linked_exec.push(own_exec[0])) =~= case_tables(linked_exec).push(
                    wire_names_of(own_exec[0].message.variants@),
                ));
                assert(exec_entry.cases@ =~= linked_exec.push(own_exec[0]));
            } else {
                assert(exec_entry.cases@ =~= linked_exec);
            }
        }
        assert(case_tags(exec_entry.cases@) =~= entry_tags(contract, decls, MsgType::Exec)) by {
            if own_exec.len() > 0 {
                assert(exec_entry.cases@ =~= linked_exec.push(own_exec[0]));
                assert(case_tags(linked_exec.push(own_exec[0])) =~= case_tags(linked_exec).push(
                    own_exec[0].variant@,
                ));
            } else {
                assert(exec_entry.cases@ =~= linked_exec);
            }
        }
        assert(case_tables(query_entry.cases@) =~= entry_tables(contract, decls, MsgType::Query)) by {
            if own_query.len() > 0 {
                assert(case_tables(linked_query.push(own_query[0])) =~= case_tables(
                    linked_query,
                ).push(wire_names_of(own_query[0].message.variants@)));
                assert(query_entry.cases@ =~= linked_query.push(own_query[0]));
            } else {
                assert(query_entry.cases@ =~= linked_query);
            }
        }
        assert(case_tags(query_entry.cases@) =~= entry_tags(contract, decls, MsgType::Query)) by {
            if own_query.len() > 0 {
                assert(query_entry.cases@ =~= linked_query.push(own_query[0]));
                assert(case_tags(linked_query.push(own_query[0])) =~= case_tags(linked_query).push(
                    own_query[0].variant@,
                ));
            } else {
                assert(query_entry.cases@ =~= linked_query);
            }
        }
        assert(findings(errors@) =~= build_findings(decls, contract));
    }
    let exec_collision = match exec_entry.check(contract.span) {
        Ok(()) => None,
        Err(error) => Some(error),
    };
    let query_collision = match query_entry.check(contract.span) {
        Ok(()) => None,
        Err(error) => Some(error),
    };
    Report { findings: errors, exec_collision, query_collision }
}

/// A build of a contract that has not exactly one instantiation finds
/// something wrong.
pub proof fn lemma_build_needs_one_instantiation(decls: Seq<InterfaceDecl>, contract: &ItemImpl)
    requires
        picked(impl_methods(contract.items@), MsgType::Instantiate).len() != 1,
    ensures
        build_findings(decls, contract).len() > 0,
{
    let chosen = picked(impl_methods(contract.items@), MsgType::Instantiate);
    assert(struct_findings(contract, MsgType::Instantiate, chosen).len() > 0);
}

impl Report {
    /// The build passes: nothing is wrong with the declarations and no
    /// entry point has a collision.
    pub open spec fn passed(&self) -> bool {
        &&& self.findings@.len() == 0
        &&& self.exec_collision is None
        &&& self.query_collision is None
    }

    /// Tells whether the build passes.
    pub fn passes(&self) -> (ok: bool)
        ensures
            ok == self.passed(),
    {
        self.findings.len() == 0 && self.exec_collision.is_none() && self.query_collision.is_none()
    }
}

} // verus!
