//! Message types: the record or the enum that is generated for one kind of
//! message of an interface or a contract, and the entry point that merges
//! the messages of several interfaces.

use crate::casing::{cased, variant_name, wire_name, wire_name_of, Case};
use crate::check_generics::{
    lemma_used_generics_exact, unused_generics, used_generics, CheckGenerics,
};
use crate::error::{
    finding_at, finding_with_note, findings, ErrorKind, SchemaError, SchemaErrorView,
};
use crate::lexical::same_str;
use crate::parser::{
    messages_attr_of, method_attr, method_findings, read_method_attr, ContractArgs,
    ContractMessageAttr, CtxType, InterfaceArgs, MsgAttr, MsgType, ResultType,
};
use crate::schema::{
    any_mentions, Attribute, FnArg, GenericParam, ImplItem, ItemImpl, ItemTrait, Method, Pat, PatType,
    Signature, Span, TraitItem, TypeDesc, WherePredicate,
};
use vstd::prelude::*;
use vstd::string::StringExecFns;

verus! {

/// A field of a message: an argument of the method that the message calls.
#[derive(Clone, Copy, Debug)]
pub struct MsgField<'a> {
    pub name: &'a String,
    pub ty: &'a TypeDesc,
}

/// A field as it stands in a generated type.
#[derive(Clone, Copy, Debug)]
pub struct FieldDef<'a> {
    pub name: &'a String,
    pub ty: &'a TypeDesc,
}

/// The field that an argument becomes: an argument bound by a plain name
/// becomes one, any other does not.
pub open spec fn field_of<'a>(arg: &'a FnArg) -> Option<MsgField<'a>> {
    match arg {
        FnArg::Typed(PatType { pat: Pat::Ident(name), ty, .. }) => Some(MsgField { name, ty }),
        _ => None,
    }
}

/// What is wrong with an argument as a field.
pub open spec fn arg_finding(arg: &FnArg) -> Option<SchemaErrorView> {
    match arg {
        FnArg::Receiver(span) => Some(finding_at(ErrorKind::UnexpectedSelf, *span)),
        FnArg::Typed(PatType { pat: Pat::Other, span, .. }) => Some(
            finding_at(ErrorKind::PatternArgument, *span),
        ),
        _ => None,
    }
}

/// The arguments of a method that carry the message: all but the first two,
/// which are the receiver and the context.
pub open spec fn payload_args(inputs: Seq<FnArg>) -> Seq<FnArg> {
    if inputs.len() >= 2 {
        inputs.skip(2)
    } else {
        Seq::empty()
    }
}

/// The fields that the arguments `args` become, in their order.
pub open spec fn fields_of<'a>(args: Seq<FnArg>) -> Seq<MsgField<'a>>
    decreases args.len(),
{
    if args.len() == 0 {
        Seq::empty()
    } else {
        match field_of(&args.last()) {
            Some(field) => fields_of(args.drop_last()).push(field),
            None => fields_of(args.drop_last()),
        }
    }
}

/// The types of the fields that the arguments `args` become.
pub open spec fn field_types(args: Seq<FnArg>) -> Seq<TypeDesc>
    decreases args.len(),
{
    if args.len() == 0 {
        Seq::empty()
    } else {
        match field_of(&args.last()) {
            Some(field) => field_types(args.drop_last()).push(*field.ty),
            None => field_types(args.drop_last()),
        }
    }
}

/// What is wrong with the arguments `args` as fields.
pub open spec fn field_findings(args: Seq<FnArg>) -> Seq<SchemaErrorView>
    decreases args.len(),
{
    if args.len() == 0 {
        Seq::empty()
    } else {
        match arg_finding(&args.last()) {
            Some(finding) => field_findings(args.drop_last()).push(finding),
            None => field_findings(args.drop_last()),
        }
    }
}

impl<'a> MsgField<'a> {
    /// The field that a typed argument becomes, if it is bound by a plain
    /// name. Its type is shown to `generics_checker`.
    pub fn new(
        item: &'a PatType,
        generics_checker: &mut CheckGenerics,
        errors: &mut Vec<SchemaError>,
    ) -> (field: Option<MsgField<'a>>)
        requires
            old(generics_checker).wf(),
        ensures
            final(generics_checker).wf(),
            final(generics_checker).generics() == old(generics_checker).generics(),
            match item.pat {
                Pat::Ident(name) => {
                    &&& field == Some(MsgField { name: &name, ty: &item.ty })
                    &&& final(generics_checker).visited() == old(generics_checker).visited().push(
                        item.ty,
                    )
                    &&& findings(final(errors)@) == findings(old(errors)@)
                },
                Pat::Other => {
                    &&& field is None
                    &&& final(generics_checker).visited() == old(generics_checker).visited()
                    &&& findings(final(errors)@) == findings(old(errors)@).push(
                        finding_at(ErrorKind::PatternArgument, item.span),
                    )
                },
            },
    {
        match &item.pat {
            Pat::Ident(name) => {
                generics_checker.visit_type(&item.ty);
                Some(MsgField { name, ty: &item.ty })
            },
            Pat::Other => {
                let ghost before = errors@;
                errors.push(SchemaError::at(ErrorKind::PatternArgument, item.span));
                assert(findings(errors@) =~= findings(before).push(
                    finding_at(ErrorKind::PatternArgument, item.span),
                ));
                None
            },
        }
    }

    /// The field as it stands in the generated type.
    pub fn emit(&self) -> (def: FieldDef<'a>)
        ensures
            def.name == self.name,
            def.ty == self.ty,
    {
        FieldDef { name: self.name, ty: self.ty }
    }

    /// The name of the field.
    pub fn name(&self) -> (name: &'a String)
        ensures
            name == self.name,
    {
        self.name
    }
}

/// The fields of the message that calls a method with the header `sig`.
fn process_fields<'s>(
    sig: &'s Signature,
    generics_checker: &mut CheckGenerics,
    errors: &mut Vec<SchemaError>,
) -> (fields: Vec<MsgField<'s>>)
    requires
        old(generics_checker).wf(),
    ensures
        final(generics_checker).wf(),
        final(generics_checker).generics() == old(generics_checker).generics(),
        final(generics_checker).visited() == old(generics_checker).visited() + field_types(
            payload_args(sig.inputs@),
        ),
        fields@ == fields_of(payload_args(sig.inputs@)),
        findings(final(errors)@) == findings(old(errors)@) + field_findings(
            payload_args(sig.inputs@),
        ),
{
    let mut fields: Vec<MsgField<'s>> = Vec::new();
    let ghost args = payload_args(sig.inputs@);
    if sig.inputs.len() < 2 {
        assert(findings(errors@) =~= findings(errors@) + field_findings(args));
        assert(generics_checker.visited() =~= generics_checker.visited() + field_types(args));
        return fields;
    }
    let mut i: usize = 2;
    while i < sig.inputs.len()
        invariant
            2 <= i <= sig.inputs@.len(),
            args == sig.inputs@.skip(2),
            generics_checker.wf(),
            generics_checker.generics() == old(generics_checker).generics(),
            generics_checker.visited() == old(generics_checker).visited() + field_types(
                args.take(i - 2),
            ),
            fields@ == fields_of(args.take(i - 2)),
            findings(errors@) == findings(old(errors)@) + field_findings(args.take(i - 2)),
        decreases sig.inputs@.len() - i,
    {
        let ghost seen = errors@;
        let ghost visited = generics_checker.visited();
        assert(args.take(i - 1).drop_last() =~= args.take(i - 2));
        assert(args.take(i - 1).last() == sig.inputs@[i as int]);
        match &sig.inputs[i] {
            FnArg::Receiver(span) => {
                errors.push(SchemaError::at(ErrorKind::UnexpectedSelf, *span));
                assert(findings(errors@) =~= findings(seen).push(
                    finding_at(ErrorKind::UnexpectedSelf, *span),
                ));
            },
            FnArg::Typed(item) => {
                if let Some(field) = MsgField::new(item, generics_checker, errors) {
                    fields.push(field);
                }
            },
        }
        assert(findings(errors@) =~= findings(old(errors)@) + field_findings(args.take(i - 1)));
        assert(generics_checker.visited() =~= old(generics_checker).visited() + field_types(
            args.take(i - 1),
        ));
        i += 1;
    }
    assert(args.take(i - 2) =~= args);
    fields
}

/// The type that a method answers with on success: the first argument of
/// the type it returns, where that has one, else the type itself.
pub open spec fn ok_type<'a>(output: &'a TypeDesc) -> &'a TypeDesc {
    if output.args@.len() > 0 {
        &output.args@[0]
    } else {
        output
    }
}

/// The type of the answer to a message: for a query the type that its
/// attribute names, or else the one its method answers with; for any other
/// message none.
pub open spec fn response_of<'a>(method: &'a Method, attr: MsgAttr<'a>) -> Option<&'a TypeDesc> {
    match attr {
        MsgAttr::Query { resp_type: Some(ty) } => Some(ty),
        MsgAttr::Query { resp_type: None } => match &method.sig.output {
            Some(output) => Some(ok_type(output)),
            None => None,
        },
        _ => None,
    }
}

/// The type that a method answers with on success.
pub fn extract_return_type<'a>(output: &'a TypeDesc) -> (ty: &'a TypeDesc)
    ensures
        ty == ok_type(output),
{
    if output.args.len() > 0 {
        &output.args[0]
    } else {
        output
    }
}

/// The types that the variant of a method holds on to: those of its fields,
/// then that of its answer.
pub open spec fn variant_types(method: &Method, attr: MsgAttr) -> Seq<TypeDesc> {
    field_types(payload_args(method.sig.inputs@)) + match response_of(method, attr) {
        Some(ty) => seq![*ty],
        None => Seq::empty(),
    }
}

/// One message of an enum: the variant that stands for a method.
#[derive(Debug)]
pub struct MsgVariant<'a> {
    pub name: String,
    pub function_name: &'a String,
    pub fields: Vec<MsgField<'a>>,
    pub return_type: Option<&'a TypeDesc>,
    /// Where the method stands.
    pub span: Span,
}

/// A variant as it stands in a generated enum.
#[derive(Debug)]
pub struct VariantDef<'s> {
    pub name: &'s String,
    /// The name under which the variant travels on the wire.
    pub wire_name: String,
    pub fields: Vec<FieldDef<'s>>,
}

/// How the answer of the method that a message calls is passed on.
#[derive(Clone, Copy, Debug, PartialEq, Eq, Structural)]
pub enum Forwarding {
    /// The answer is passed on, an error turned into the declared error type.
    MapErr,
    /// The answer is encoded for the wire first; failing to encode is an
    /// error like any other.
    EncodeThenMapErr,
}

/// One arm of a dispatch function: the variant it takes apart, the method
/// it calls with the context and the variant's fields, and how the answer is
/// passed on.
#[derive(Debug)]
pub struct DispatchLeg<'s> {
    pub variant: &'s String,
    pub function_name: &'s String,
    pub args: Vec<&'s String>,
    pub forwarding: Forwarding,
}

/// The names of the fields, in their order.
pub open spec fn field_names<'a>(fields: Seq<MsgField<'a>>) -> Seq<&'a String> {
    fields.map_values(|field: MsgField<'a>| field.name)
}

/// The fields as they stand in a generated type.
pub open spec fn field_defs<'a>(fields: Seq<MsgField<'a>>) -> Seq<FieldDef<'a>> {
    fields.map_values(|field: MsgField<'a>| FieldDef { name: field.name, ty: field.ty })
}

/// How messages of a kind pass their answer on, for the kinds that
/// interfaces and enums of contracts carry.
pub open spec fn forwarding_of(ty: MsgType) -> Option<Forwarding> {
    match ty {
        MsgType::Exec | MsgType::Reply | MsgType::Sudo => Some(Forwarding::MapErr),
        MsgType::Query => Some(Forwarding::EncodeThenMapErr),
        MsgType::Instantiate | MsgType::Migrate => None,
    }
}

/// The fields of a list as they stand in a generated type.
fn emit_fields<'s>(fields: &'s Vec<MsgField<'s>>) -> (defs: Vec<FieldDef<'s>>)
    ensures
        defs@ == field_defs(fields@),
{
    let mut defs: Vec<FieldDef<'s>> = Vec::new();
    let mut i: usize = 0;
    while i < fields.len()
        invariant
            i <= fields@.len(),
            defs@ == field_defs(fields@.take(i as int)),
        decreases fields@.len() - i,
    {
        defs.push(fields[i].emit());
        assert(defs@ =~= field_defs(fields@.take(i + 1)));
        i += 1;
    }
    assert(fields@.take(i as int) =~= fields@);
    defs
}

/// The names of the fields of a list.
fn names_of_fields<'s>(fields: &'s Vec<MsgField<'s>>) -> (names: Vec<&'s String>)
    ensures
        names@ == field_names(fields@),
{
    let mut names: Vec<&'s String> = Vec::new();
    let mut i: usize = 0;
    while i < fields.len()
        invariant
            i <= fields@.len(),
            names@ == field_names(fields@.take(i as int)),
        decreases fields@.len() - i,
    {
        names.push(fields[i].name());
        assert(names@ =~= field_names(fields@.take(i + 1)));
        i += 1;
    }
    assert(fields@.take(i as int) =~= fields@);
    names
}

impl<'a> MsgVariant<'a> {
    /// The variant is the one that stands for `method` read as `attr`: named
    /// after it in upper camel case, with its payload arguments as fields.
    pub open spec fn stands_for(&self, method: &Method, attr: MsgAttr) -> bool {
        &&& self.name@ == cased(method.sig.ident@, Case::UpperCamel)
        &&& self.function_name == &method.sig.ident
        &&& self.fields@ == fields_of(payload_args(method.sig.inputs@))
        &&& self.return_type == response_of(method, attr)
        &&& self.span == method.span
    }

    /// The variant that stands for a method. The types it holds on to are
    /// shown to `generics_checker`.
    pub fn new(
        method: &'a Method,
        attr: MsgAttr<'a>,
        generics_checker: &mut CheckGenerics,
        errors: &mut Vec<SchemaError>,
    ) -> (variant: MsgVariant<'a>)
        requires
            old(generics_checker).wf(),
        ensures
            final(generics_checker).wf(),
            final(generics_checker).generics() == old(generics_checker).generics(),
            final(generics_checker).visited() == old(generics_checker).visited() + variant_types(
                method,
                attr,
            ),
            variant.stands_for(method, attr),
            findings(final(errors)@) == findings(old(errors)@) + field_findings(
                payload_args(method.sig.inputs@),
            ),
    {
        let function_name = &method.sig.ident;
        let name = variant_name(function_name.as_str());
        let fields = process_fields(&method.sig, generics_checker, errors);
        let ghost shown = generics_checker.visited();
        let return_type = match attr {
            MsgAttr::Query { resp_type: Some(ty) } => Some(ty),
            MsgAttr::Query { resp_type: None } => match &method.sig.output {
                Some(output) => Some(extract_return_type(output)),
                None => None,
            },
            _ => None,
        };
        if let Some(ty) = return_type {
            generics_checker.visit_type(ty);
            assert(generics_checker.visited() =~= old(generics_checker).visited() + variant_types(
                method,
                attr,
            ));
        } else {
            assert(generics_checker.visited() =~= old(generics_checker).visited() + variant_types(
                method,
                attr,
            ));
        }
        MsgVariant { name, function_name, fields, return_type, span: method.span }
    }

    /// The variant as it stands in the generated enum.
    pub fn emit<'s>(&'s self) -> (def: VariantDef<'s>)
        ensures
            def.name == &self.name,
            def.wire_name@ == cased(self.name@, Case::Snake),
            def.fields@ == field_defs(self.fields@),
    {
        VariantDef {
            name: &self.name,
            wire_name: wire_name_of(self.name.as_str()),
            fields: emit_fields(&self.fields),
        }
    }

    /// The arm of the dispatch function that handles this variant. Messages
    /// of the kinds that only contracts have get none: that is an error of
    /// the declarations.
    pub fn emit_dispatch_leg<'s>(
        &'s self,
        msg_attr: MsgType,
        errors: &mut Vec<SchemaError>,
    ) -> (leg: Option<DispatchLeg<'s>>)
        ensures
            match forwarding_of(msg_attr) {
                Some(forwarding) => {
                    &&& leg is Some
                    &&& leg->0.variant == &self.name
                    &&& leg->0.function_name == self.function_name
                    &&& leg->0.args@ == field_names(self.fields@)
                    &&& leg->0.forwarding == forwarding
                    &&& findings(final(errors)@) == findings(old(errors)@)
                },
                None => {
                    &&& leg is None
                    &&& findings(final(errors)@) == findings(old(errors)@).push(
                        finding_at(ErrorKind::NotOnInterface, self.span),
                    )
                },
            },
    {
        let forwarding = match msg_attr {
            MsgType::Exec | MsgType::Reply | MsgType::Sudo => Forwarding::MapErr,
            MsgType::Query => Forwarding::EncodeThenMapErr,
            MsgType::Instantiate | MsgType::Migrate => {
                let ghost before = errors@;
                errors.push(SchemaError::at(ErrorKind::NotOnInterface, self.span));
                assert(findings(errors@) =~= findings(before).push(
                    finding_at(ErrorKind::NotOnInterface, self.span),
                ));
                return None;
            },
        };
        Some(
            DispatchLeg {
                variant: &self.name,
                function_name: self.function_name,
                args: names_of_fields(&self.fields),
                forwarding,
            },
        )
    }
}

/// The methods among what an interface declares.
pub open spec fn trait_methods<'a>(items: Seq<TraitItem>) -> Seq<&'a Method>
    decreases items.len(),
{
    if items.len() == 0 {
        Seq::empty()
    } else {
        match &items.last() {
            TraitItem::Method(method) => trait_methods(items.drop_last()).push(method),
            _ => trait_methods(items.drop_last()),
        }
    }
}

/// The methods among what a contract holds.
pub open spec fn impl_methods<'a>(items: Seq<ImplItem>) -> Seq<&'a Method>
    decreases items.len(),
{
    if items.len() == 0 {
        Seq::empty()
    } else {
        match &items.last() {
            ImplItem::Method(method) => impl_methods(items.drop_last()).push(method),
            _ => impl_methods(items.drop_last()),
        }
    }
}

/// The methods that an interface declares.
pub fn methods_of_trait<'a>(source: &'a ItemTrait) -> (methods: Vec<&'a Method>)
    ensures
        methods@ == trait_methods(source.items@),
{
    let mut methods: Vec<&'a Method> = Vec::new();
    let mut i: usize = 0;
    while i < source.items.len()
        invariant
            i <= source.items@.len(),
            methods@ == trait_methods(source.items@.take(i as int)),
        decreases source.items@.len() - i,
    {
        assert(source.items@.take(i + 1).drop_last() =~= source.items@.take(i as int));
        if let TraitItem::Method(method) = &source.items[i] {
            methods.push(method);
        }
        i += 1;
    }
    assert(source.items@.take(i as int) =~= source.items@);
    methods
}

/// The methods that a contract holds.
pub fn methods_of_impl<'a>(source: &'a ItemImpl) -> (methods: Vec<&'a Method>)
    ensures
        methods@ == impl_methods(source.items@),
{
    let mut methods: Vec<&'a Method> = Vec::new();
    let mut i: usize = 0;
    while i < source.items.len()
        invariant
            i <= source.items@.len(),
            methods@ == impl_methods(source.items@.take(i as int)),
        decreases source.items@.len() - i,
    {
        assert(source.items@.take(i + 1).drop_last() =~= source.items@.take(i as int));
        if let ImplItem::Method(method) = &source.items[i] {
            methods.push(method);
        }
        i += 1;
    }
    assert(source.items@.take(i as int) =~= source.items@);
    methods
}

/// The methods that are messages of the kind `ty`, each with what its
/// attribute says, in the order of their declaration.
pub open spec fn picked<'a>(methods: Seq<&'a Method>, ty: MsgType) -> Seq<(&'a Method, MsgAttr<'a>)>
    decreases methods.len(),
{
    if methods.len() == 0 {
        Seq::empty()
    } else {
        let before = picked(methods.drop_last(), ty);
        match method_attr(methods.last()) {
            Some(Ok(attr)) => if attr.kind() == ty {
                before.push((methods.last(), attr))
            } else {
                before
            },
            _ => before,
        }
    }
}

/// What is wrong with the `msg` attributes of the methods.
pub open spec fn attr_findings(methods: Seq<&Method>) -> Seq<SchemaErrorView>
    decreases methods.len(),
{
    if methods.len() == 0 {
        Seq::empty()
    } else {
        attr_findings(methods.drop_last()) + method_findings(methods.last())
    }
}

/// Picks the methods that are messages of the kind `ty`.
pub(crate) fn select_messages<'a>(
    methods: &Vec<&'a Method>,
    ty: MsgType,
    errors: &mut Vec<SchemaError>,
) -> (chosen: Vec<(&'a Method, MsgAttr<'a>)>)
    ensures
        chosen@ == picked(methods@, ty),
        findings(final(errors)@) == findings(old(errors)@) + attr_findings(methods@),
{
    let mut chosen: Vec<(&'a Method, MsgAttr<'a>)> = Vec::new();
    let mut i: usize = 0;
    assert(findings(errors@) =~= findings(errors@) + attr_findings(methods@.take(0)));
    while i < methods.len()
        invariant
            i <= methods@.len(),
            chosen@ == picked(methods@.take(i as int), ty),
            findings(errors@) == findings(old(errors)@) + attr_findings(methods@.take(i as int)),
        decreases methods@.len() - i,
    {
        assert(methods@.take(i + 1).drop_last() =~= methods@.take(i as int));
        let method = methods[i];
        if let Some(attr) = read_method_attr(method, errors) {
            if attr.msg_type() == ty {
                chosen.push((method, attr));
            }
        }
        assert(findings(errors@) =~= findings(old(errors)@) + attr_findings(methods@.take(i + 1)));
        i += 1;
    }
    assert(methods@.take(i as int) =~= methods@);
    chosen
}

/// The types that the variants of the chosen methods hold on to.
pub open spec fn picked_types(chosen: Seq<(&Method, MsgAttr)>) -> Seq<TypeDesc>
    decreases chosen.len(),
{
    if chosen.len() == 0 {
        Seq::empty()
    } else {
        picked_types(chosen.drop_last()) + variant_types(chosen.last().0, chosen.last().1)
    }
}

/// What is wrong with the arguments of the chosen methods as fields.
pub open spec fn picked_findings(chosen: Seq<(&Method, MsgAttr)>) -> Seq<SchemaErrorView>
    decreases chosen.len(),
{
    if chosen.len() == 0 {
        Seq::empty()
    } else {
        picked_findings(chosen.drop_last()) + field_findings(
            payload_args(chosen.last().0.sig.inputs@),
        )
    }
}

/// The variants are those of the chosen methods, one for one.
pub open spec fn variants_stand_for(
    variants: Seq<MsgVariant>,
    chosen: Seq<(&Method, MsgAttr)>,
) -> bool {
    &&& variants.len() == chosen.len()
    &&& forall|i: int|
        0 <= i < variants.len() ==> (#[trigger] variants[i]).stands_for(chosen[i].0, chosen[i].1)
}

/// The variants of the chosen methods.
pub(crate) fn build_variants<'a>(
    chosen: &Vec<(&'a Method, MsgAttr<'a>)>,
    generics_checker: &mut CheckGenerics,
    errors: &mut Vec<SchemaError>,
) -> (variants: Vec<MsgVariant<'a>>)
    requires
        old(generics_checker).wf(),
    ensures
        final(generics_checker).wf(),
        final(generics_checker).generics() == old(generics_checker).generics(),
        final(generics_checker).visited() == old(generics_checker).visited() + picked_types(
            chosen@,
        ),
        variants_stand_for(variants@, chosen@),
        findings(final(errors)@) == findings(old(errors)@) + picked_findings(chosen@),
{
    let mut variants: Vec<MsgVariant<'a>> = Vec::new();
    let mut i: usize = 0;
    assert(findings(errors@) =~= findings(errors@) + picked_findings(chosen@.take(0)));
    assert(generics_checker.visited() =~= generics_checker.visited() + picked_types(
        chosen@.take(0),
    ));
    while i < chosen.len()
        invariant
            i <= chosen@.len(),
            generics_checker.wf(),
            generics_checker.generics() == old(generics_checker).generics(),
            generics_checker.visited() == old(generics_checker).visited() + picked_types(
                chosen@.take(i as int),
            ),
            variants_stand_for(variants@, chosen@.take(i as int)),
            findings(errors@) == findings(old(errors)@) + picked_findings(chosen@.take(i as int)),
        decreases chosen@.len() - i,
    {
        assert(chosen@.take(i + 1).drop_last() =~= chosen@.take(i as int));
        let (method, attr) = chosen[i];
        let variant = MsgVariant::new(method, attr, generics_checker, errors);
        variants.push(variant);
        assert(findings(errors@) =~= findings(old(errors)@) + picked_findings(
            chosen@.take(i + 1),
        ));
        assert(generics_checker.visited() =~= old(generics_checker).visited() + picked_types(
            chosen@.take(i + 1),
        ));
        i += 1;
    }
    assert(chosen@.take(i as int) =~= chosen@);
    variants
}

/// One of the placeholders has the name `ident`.
pub open spec fn names_generic(generics: Seq<&GenericParam>, ident: Seq<char>) -> bool {
    exists|i: int| 0 <= i < generics.len() && (#[trigger] generics[i]).ident@ == ident
}

/// Tells whether one of the placeholders has the name `ident`.
fn has_generic(generics: &[&GenericParam], ident: &str) -> (r: bool)
    ensures
        r == names_generic(generics@, ident@),
{
    let mut i: usize = 0;
    while i < generics.len()
        invariant
            i <= generics@.len(),
            forall|k: int| 0 <= k < i ==> (#[trigger] generics@[k]).ident@ != ident@,
        decreases generics@.len() - i,
    {
        if same_str(generics[i].ident.as_str(), ident) {
            return true;
        }
        i += 1;
    }
    false
}

/// A predicate is kept where every declared placeholder that it refers to
/// is in use.
pub open spec fn keeps(
    pred: &WherePredicate,
    generics: Seq<&GenericParam>,
    used: Seq<&GenericParam>,
) -> bool {
    forall|i: int|
        0 <= i < generics.len() && pred.mentions((#[trigger] generics[i]).ident@)
            ==> names_generic(used, generics[i].ident@)
}

/// The predicates that are kept, in their order.
pub open spec fn kept_wheres<'a>(
    preds: Seq<WherePredicate>,
    generics: Seq<&GenericParam>,
    used: Seq<&GenericParam>,
) -> Seq<&'a WherePredicate>
    decreases preds.len(),
{
    if preds.len() == 0 {
        Seq::empty()
    } else {
        let before = kept_wheres(preds.drop_last(), generics, used);
        if keeps(&preds.last(), generics, used) {
            before.push(&preds.last())
        } else {
            before
        }
    }
}

/// The predicates of a `where` clause that are kept.
pub open spec fn kept_clause<'a>(
    clause: &'a Option<Vec<WherePredicate>>,
    generics: Seq<&GenericParam>,
    used: Seq<&GenericParam>,
) -> Seq<&'a WherePredicate> {
    match clause {
        Some(preds) => kept_wheres(preds@, generics, used),
        None => Seq::empty(),
    }
}

/// Tells whether a predicate is kept.
fn keeps_predicate(
    pred: &WherePredicate,
    generics: &[&GenericParam],
    used_generics: &[&GenericParam],
) -> (r: bool)
    ensures
        r == keeps(pred, generics@, used_generics@),
{
    let mut i: usize = 0;
    while i < generics.len()
        invariant
            i <= generics@.len(),
            forall|k: int|
                0 <= k < i && pred.mentions((#[trigger] generics@[k]).ident@) ==> names_generic(
                    used_generics@,
                    generics@[k].ident@,
                ),
        decreases generics@.len() - i,
    {
        if pred.uses(generics[i].ident.as_str()) && !has_generic(
            used_generics,
            generics[i].ident.as_str(),
        ) {
            return false;
        }
        i += 1;
    }
    true
}

/// Drops from a `where` clause the predicates that refer to a placeholder
/// which is not in use.
fn filter_wheres<'a>(
    clause: &'a Option<Vec<WherePredicate>>,
    generics: &[&GenericParam],
    used_generics: &[&GenericParam],
) -> (wheres: Vec<&'a WherePredicate>)
    ensures
        wheres@ == kept_clause(clause, generics@, used_generics@),
{
    let mut wheres: Vec<&'a WherePredicate> = Vec::new();
    if let Some(preds) = clause {
        let mut i: usize = 0;
        while i < preds.len()
            invariant
                i <= preds@.len(),
                wheres@ == kept_wheres(preds@.take(i as int), generics@, used_generics@),
            decreases preds@.len() - i,
        {
            assert(preds@.take(i + 1).drop_last() =~= preds@.take(i as int));
            if keeps_predicate(&preds[i], generics, used_generics) {
                wheres.push(&preds[i]);
            }
            i += 1;
        }
        assert(preds@.take(i as int) =~= preds@);
    }
    wheres
}

/// What handles the messages of a generated type.
#[derive(Debug)]
pub enum Receiver<'s> {
    /// The contract itself, by its type.
    Contract(&'s TypeDesc),
    /// Any type that implements the interface with the given arguments.
    Implementor { interface: &'s String, generics: &'s [&'s GenericParam] },
}

/// What a dispatch function returns.
#[derive(Debug)]
pub enum DispatchResult<'s> {
    /// What the method that it calls returns, as written there.
    AsDeclared(&'s Option<TypeDesc>),
    /// The result type made for the kind of message.
    Built(ResultType<'s>),
}

/// The header of a generated dispatch function.
#[derive(Debug)]
pub struct DispatchDef<'s> {
    pub receiver: Receiver<'s>,
    /// The placeholders that the message type does not use and the dispatch
    /// function therefore declares itself.
    pub unused_generics: &'s [&'s GenericParam],
    pub ctx: CtxType,
    pub result: DispatchResult<'s>,
    pub full_where: &'s Option<Vec<WherePredicate>>,
}

/// A generated record: the one message of its kind that a contract has.
#[derive(Debug)]
pub struct StructDef<'s> {
    pub name: String,
    pub generics: &'s [&'s GenericParam],
    pub wheres: &'s [&'s WherePredicate],
    pub fields: Vec<FieldDef<'s>>,
    pub dispatch: DispatchDef<'s>,
    /// The method that the dispatch function calls, with the context and
    /// the fields as arguments.
    pub function_name: &'s String,
    pub args: Vec<&'s String>,
}

/// A generated enum: the messages of one kind of an interface or a
/// contract.
#[derive(Debug)]
pub struct EnumDef<'s> {
    pub name: &'s String,
    pub generics: &'s [&'s GenericParam],
    pub wheres: &'s [&'s WherePredicate],
    pub variants: Vec<VariantDef<'s>>,
    pub dispatch: DispatchDef<'s>,
    /// The arms of the dispatch function, one for each variant.
    pub legs: Vec<DispatchLeg<'s>>,
}

/// The wire names of the variants, in their order.
pub open spec fn wire_names_of(variants: Seq<VariantDef>) -> Seq<Seq<char>> {
    variants.map_values(|variant: VariantDef| variant.wire_name@)
}

/// The names of a list of strings.
pub open spec fn strs(names: Seq<&str>) -> Seq<Seq<char>> {
    names.map_values(|name: &str| name@)
}

impl<'s> EnumDef<'s> {
    /// The wire names of the messages, in the order of their variants.
    pub fn messages(&self) -> (names: Vec<&str>)
        ensures
            strs(names@) == wire_names_of(self.variants@),
    {
        let mut names: Vec<&str> = Vec::new();
        let mut i: usize = 0;
        while i < self.variants.len()
            invariant
                i <= self.variants@.len(),
                names@.len() == i,
                strs(names@) == wire_names_of(self.variants@.take(i as int)),
            decreases self.variants@.len() - i,
        {
            let ghost before = names@;
            names.push(self.variants[i].wire_name.as_str());
            assert forall|k: int| 0 <= k < i + 1 implies strs(names@)[k] == wire_names_of(
                self.variants@.take(i + 1),
            )[k] by {
                if k < i {
                    assert(strs(before)[k] == wire_names_of(self.variants@.take(i as int))[k]);
                }
            }
            assert(strs(names@) =~= wire_names_of(self.variants@.take(i + 1)));
            i += 1;
        }
        assert(self.variants@.take(i as int) =~= self.variants@);
        names
    }
}

/// What analysing the chosen methods yields.
struct Analysis<'a> {
    variants: Vec<MsgVariant<'a>>,
    generics: Vec<&'a GenericParam>,
    unused_generics: Vec<&'a GenericParam>,
    wheres: Vec<&'a WherePredicate>,
}

/// Builds the variants of the chosen methods and sorts the placeholders
/// and the predicates by whether the variants use them.
fn analyse<'a>(
    chosen: &Vec<(&'a Method, MsgAttr<'a>)>,
    generics: &'a [&'a GenericParam],
    clause: &'a Option<Vec<WherePredicate>>,
    errors: &mut Vec<SchemaError>,
) -> (found: Analysis<'a>)
    ensures
        variants_stand_for(found.variants@, chosen@),
        found.generics@ == used_generics(generics@, picked_types(chosen@)),
        found.unused_generics@ == unused_generics(generics@, picked_types(chosen@)),
        found.wheres@ == kept_clause(clause, generics@, found.generics@),
        findings(final(errors)@) == findings(old(errors)@) + picked_findings(chosen@),
{
    let mut generics_checker = CheckGenerics::new(generics);
    let variants = build_variants(chosen, &mut generics_checker, errors);
    assert(generics_checker.visited() =~= picked_types(chosen@));
    let (used, unused) = generics_checker.used_unused();
    let wheres = filter_wheres(clause, generics, used.as_slice());
    Analysis { variants, generics: used, unused_generics: unused, wheres }
}

/// The one message of a contract that is a record: its instantiation or
/// its migration.
#[derive(Debug)]
pub struct StructMessage<'a> {
    pub contract_type: &'a TypeDesc,
    pub fields: Vec<MsgField<'a>>,
    pub function_name: &'a String,
    pub generics: Vec<&'a GenericParam>,
    pub unused_generics: Vec<&'a GenericParam>,
    pub wheres: Vec<&'a WherePredicate>,
    pub full_where: &'a Option<Vec<WherePredicate>>,
    pub result: &'a Option<TypeDesc>,
    pub msg_attr: MsgAttr<'a>,
    /// Where the method stands.
    pub span: Span,
}

/// What is wrong with a contract as to its one message of the kind `ty`,
/// given the methods of that kind: none where there must be one; a second
/// one, reported where it stands with a note at the first; or, where there
/// is exactly one, what is wrong with its arguments.
pub open spec fn struct_findings(source: &ItemImpl, ty: MsgType, chosen: Seq<(&Method, MsgAttr)>) -> Seq<
    SchemaErrorView,
> {
    if chosen.len() == 0 {
        if ty == MsgType::Instantiate {
            seq![finding_at(ErrorKind::NoInstantiation, source.span)]
        } else {
            Seq::empty()
        }
    } else if chosen.len() > 1 {
        seq![finding_with_note(ErrorKind::DuplicateMessage, chosen[1].0.span, chosen[0].0.span)]
    } else {
        field_findings(payload_args(chosen[0].0.sig.inputs@))
    }
}

impl<'a> StructMessage<'a> {
    /// The message is the one made from `method`, read as `attr`, of the
    /// contract `source` with the placeholders `generics`.
    pub open spec fn stands_for(
        &self,
        source: &ItemImpl,
        method: &Method,
        attr: MsgAttr,
        generics: Seq<&GenericParam>,
    ) -> bool {
        let types = field_types(payload_args(method.sig.inputs@));
        &&& self.contract_type == &source.self_ty
        &&& self.fields@ == fields_of(payload_args(method.sig.inputs@))
        &&& self.function_name == &method.sig.ident
        &&& self.generics@ == used_generics(generics, types)
        &&& self.unused_generics@ == unused_generics(generics, types)
        &&& self.wheres@ == kept_clause(&source.where_clause, generics, self.generics@)
        &&& self.full_where == &source.where_clause
        &&& self.result == &method.sig.output
        &&& self.msg_attr == attr
        &&& self.span == method.span
    }

    /// The message of the kind `ty` of a contract, made from its one method
    /// of that kind. A contract with two methods of the kind is rejected and
    /// has no message of the kind; so is a contract without instantiation.
    pub fn new(
        source: &'a ItemImpl,
        ty: MsgType,
        generics: &'a [&'a GenericParam],
        errors: &mut Vec<SchemaError>,
    ) -> (message: Option<StructMessage<'a>>)
        ensures
            ({
                let methods = impl_methods(source.items@);
                let chosen = picked(methods, ty);
                &&& findings(final(errors)@) == findings(old(errors)@) + attr_findings(methods)
                    + struct_findings(source, ty, chosen)
                &&& chosen.len() != 1 ==> message is None
                &&& chosen.len() == 1 ==> message is Some && message->0.stands_for(
                    source,
                    chosen[0].0,
                    chosen[0].1,
                    generics@,
                )
            }),
    {
        let methods = methods_of_impl(source);
        let chosen = select_messages(&methods, ty, errors);
        let ghost selected = errors@;
        if chosen.len() == 0 {
            if ty == MsgType::Instantiate {
                errors.push(SchemaError::at(ErrorKind::NoInstantiation, source.span));
            }
            assert(findings(errors@) =~= findings(selected) + struct_findings(
                source,
                ty,
                chosen@,
            ));
            return None;
        }
        let (method, msg_attr) = chosen[0];
        if chosen.len() > 1 {
            let (obsolete, _) = chosen[1];
            errors.push(
                SchemaError::with_note(ErrorKind::DuplicateMessage, obsolete.span, method.span),
            );
            assert(findings(errors@) =~= findings(selected) + struct_findings(
                source,
                ty,
                chosen@,
            ));
            return None;
        }
        let mut generics_checker = CheckGenerics::new(generics);
        let fields = process_fields(&method.sig, &mut generics_checker, errors);
        assert(generics_checker.visited() =~= field_types(payload_args(method.sig.inputs@)));
        let (used_generics, unused_generics) = generics_checker.used_unused();
        let wheres = filter_wheres(&source.where_clause, generics, used_generics.as_slice());
        Some(
            StructMessage {
                contract_type: &source.self_ty,
                fields,
                function_name: &method.sig.ident,
                generics: used_generics,
                unused_generics,
                wheres,
                full_where: &source.where_clause,
                result: &method.sig.output,
                msg_attr,
                span: method.span,
            },
        )
    }

    /// The record is the one generated for this message under `name`.
    pub open spec fn emitted_as(&self, def: &StructDef, name: Seq<char>) -> bool {
        &&& def.name@ == name
        &&& def.generics@ == self.generics@
        &&& def.wheres@ == self.wheres@
        &&& def.fields@ == field_defs(self.fields@)
        &&& def.dispatch.receiver == Receiver::Contract(self.contract_type)
        &&& def.dispatch.unused_generics@ == self.unused_generics@
        &&& def.dispatch.ctx == self.msg_attr.kind().ctx_type()
        &&& def.dispatch.result == DispatchResult::AsDeclared(self.result)
        &&& def.dispatch.full_where == self.full_where
        &&& def.function_name == self.function_name
        &&& def.args@ == field_names(self.fields@)
    }

    /// The name of the record for a message of the given kind.
    pub open spec fn record_name(attr: MsgAttr) -> Option<Seq<char>> {
        match attr {
            MsgAttr::Instantiate => Some("InstantiateMsg"@),
            MsgAttr::Migrate => Some("MigrateMsg"@),
            _ => None,
        }
    }

    /// The record that is generated for the message. Only an instantiation
    /// and a migration have one.
    pub fn emit<'s>(&'s self, errors: &mut Vec<SchemaError>) -> (def: Option<StructDef<'s>>)
        ensures
            match Self::record_name(self.msg_attr) {
                Some(name) => {
                    &&& def is Some
                    &&& self.emitted_as(&def->0, name)
                    &&& findings(final(errors)@) == findings(old(errors)@)
                },
                None => {
                    &&& def is None
                    &&& findings(final(errors)@) == findings(old(errors)@).push(
                        finding_at(ErrorKind::InvalidMessageType, self.span),
                    )
                },
            },
    {
        match &self.msg_attr {
            MsgAttr::Instantiate => Some(self.emit_struct("InstantiateMsg")),
            MsgAttr::Migrate => Some(self.emit_struct("MigrateMsg")),
            _ => {
                let ghost before = errors@;
                errors.push(SchemaError::at(ErrorKind::InvalidMessageType, self.span));
                assert(findings(errors@) =~= findings(before).push(
                    finding_at(ErrorKind::InvalidMessageType, self.span),
                ));
                None
            },
        }
    }

    /// The record that is generated for the message under the name `name`:
    /// the fields of the message, the placeholders and predicates that they
    /// use, and a dispatch function that calls the method on the contract.
    pub fn emit_struct<'s>(&'s self, name: &str) -> (def: StructDef<'s>)
        ensures
            self.emitted_as(&def, name@),
    {
        let ctx = self.msg_attr.msg_type().emit_ctx_type();
        StructDef {
            name: String::from_str(name),
            generics: self.generics.as_slice(),
            wheres: self.wheres.as_slice(),
            fields: emit_fields(&self.fields),
            dispatch: DispatchDef {
                receiver: Receiver::Contract(self.contract_type),
                unused_generics: self.unused_generics.as_slice(),
                ctx,
                result: DispatchResult::AsDeclared(self.result),
                full_where: self.full_where,
            },
            function_name: self.function_name,
            args: names_of_fields(&self.fields),
        }
    }
}

/// The generated variants are those of the messages, one for one.
pub open spec fn emitted_variants(variants: Seq<MsgVariant>, defs: Seq<VariantDef>) -> bool {
    &&& defs.len() == variants.len()
    &&& forall|i: int|
        0 <= i < defs.len() ==> {
            &&& (#[trigger] defs[i]).name == &variants[i].name
            &&& defs[i].wire_name@ == cased(variants[i].name@, Case::Snake)
            &&& defs[i].fields@ == field_defs(variants[i].fields@)
        }
}

/// The arms are those that dispatch the variants, one for one.
pub open spec fn emitted_legs(
    variants: Seq<MsgVariant>,
    legs: Seq<DispatchLeg>,
    forwarding: Forwarding,
) -> bool {
    &&& legs.len() == variants.len()
    &&& forall|i: int|
        0 <= i < legs.len() ==> {
            &&& (#[trigger] legs[i]).variant == &variants[i].name
            &&& legs[i].function_name == variants[i].function_name
            &&& legs[i].args@ == field_names(variants[i].fields@)
            &&& legs[i].forwarding == forwarding
        }
}

/// What is wrong with variants of a kind that has no dispatch arm: each of
/// them, where it stands.
pub open spec fn leg_findings(variants: Seq<MsgVariant>) -> Seq<SchemaErrorView>
    decreases variants.len(),
{
    if variants.len() == 0 {
        Seq::empty()
    } else {
        leg_findings(variants.drop_last()).push(
            finding_at(ErrorKind::NotOnInterface, variants.last().span),
        )
    }
}

/// The parts of a generated enum that are made variant by variant.
struct EnumParts<'s> {
    variants: Vec<VariantDef<'s>>,
    legs: Vec<DispatchLeg<'s>>,
}

/// What `emit` of an enum message ensures of the parts made variant by
/// variant.
pub open spec fn emitted_parts(
    variants: Seq<MsgVariant>,
    msg_ty: MsgType,
    defs: Seq<VariantDef>,
    legs: Seq<DispatchLeg>,
) -> bool {
    &&& emitted_variants(variants, defs)
    &&& match forwarding_of(msg_ty) {
        Some(forwarding) => emitted_legs(variants, legs, forwarding),
        None => legs.len() == 0,
    }
}

/// What generating the dispatch arms of the kind `msg_ty` finds wrong.
pub open spec fn emit_findings(variants: Seq<MsgVariant>, msg_ty: MsgType) -> Seq<SchemaErrorView> {
    if forwarding_of(msg_ty) is Some {
        Seq::empty()
    } else {
        leg_findings(variants)
    }
}

/// Generates what an enum has for each of its variants.
fn emit_parts<'s>(
    variants: &'s Vec<MsgVariant<'s>>,
    msg_ty: MsgType,
    errors: &mut Vec<SchemaError>,
) -> (parts: EnumParts<'s>)
    ensures
        emitted_parts(variants@, msg_ty, parts.variants@, parts.legs@),
        findings(final(errors)@) == findings(old(errors)@) + emit_findings(variants@, msg_ty),
{
    let mut defs: Vec<VariantDef<'s>> = Vec::new();
    let mut legs: Vec<DispatchLeg<'s>> = Vec::new();
    let mut i: usize = 0;
    assert(findings(errors@) =~= findings(errors@) + emit_findings(variants@.take(0), msg_ty));
    while i < variants.len()
        invariant
            i <= variants@.len(),
            emitted_parts(variants@.take(i as int), msg_ty, defs@, legs@),
            findings(errors@) == findings(old(errors)@) + emit_findings(
                variants@.take(i as int),
                msg_ty,
            ),
        decreases variants@.len() - i,
    {
        assert(variants@.take(i + 1).drop_last() =~= variants@.take(i as int));
        let variant = &variants[i];
        if let Some(leg) = variant.emit_dispatch_leg(msg_ty, errors) {
            legs.push(leg);
        }
        defs.push(variant.emit());
        assert(findings(errors@) =~= findings(old(errors)@) + emit_findings(
            variants@.take(i + 1),
            msg_ty,
        ));
        i += 1;
    }
    assert(variants@.take(i as int) =~= variants@);
    EnumParts { variants: defs, legs }
}

/// The type that stands for the error of whatever implements an interface.
pub open spec fn implementor_error() -> Seq<char> {
    "C::Error"@
}

/// The messages of one kind that an interface declares.
#[derive(Debug)]
pub struct EnumMessage<'a> {
    pub name: &'a String,
    pub trait_name: &'a String,
    pub variants: Vec<MsgVariant<'a>>,
    pub generics: Vec<&'a GenericParam>,
    pub unused_generics: Vec<&'a GenericParam>,
    pub all_generics: &'a [&'a GenericParam],
    pub wheres: Vec<&'a WherePredicate>,
    pub full_where: &'a Option<Vec<WherePredicate>>,
    pub msg_ty: MsgType,
    pub args: &'a InterfaceArgs,
    /// The error type of the dispatch function: that of the implementor.
    pub error: TypeDesc,
}

impl<'a> EnumMessage<'a> {
    /// The message type is the one made of the chosen methods of the
    /// interface `source`.
    pub open spec fn stands_for(
        &self,
        name: &String,
        source: &ItemTrait,
        chosen: Seq<(&Method, MsgAttr)>,
        ty: MsgType,
        generics: Seq<&GenericParam>,
        args: &InterfaceArgs,
    ) -> bool {
        &&& self.name == name
        &&& self.trait_name == &source.ident
        &&& variants_stand_for(self.variants@, chosen)
        &&& self.generics@ == used_generics(generics, picked_types(chosen))
        &&& self.unused_generics@ == unused_generics(generics, picked_types(chosen))
        &&& self.all_generics@ == generics
        &&& self.wheres@ == kept_clause(&source.where_clause, generics, self.generics@)
        &&& self.full_where == &source.where_clause
        &&& self.msg_ty == ty
        &&& self.args == args
        &&& self.error.name@ == implementor_error()
        &&& self.error.args@.len() == 0
    }

    /// The messages of the kind `ty` of an interface: one variant for each
    /// method of that kind, in the order of declaration, with the
    /// placeholders and predicates that the variants use.
    pub fn new(
        name: &'a String,
        source: &'a ItemTrait,
        ty: MsgType,
        generics: &'a [&'a GenericParam],
        args: &'a InterfaceArgs,
        errors: &mut Vec<SchemaError>,
    ) -> (message: Self)
        ensures
            ({
                let methods = trait_methods(source.items@);
                let chosen = picked(methods, ty);
                &&& message.stands_for(name, source, chosen, ty, generics@, args)
                &&& findings(final(errors)@) == findings(old(errors)@) + attr_findings(methods)
                    + picked_findings(chosen)
            }),
    {
        let methods = methods_of_trait(source);
        let chosen = select_messages(&methods, ty, errors);
        let found = analyse(&chosen, generics, &source.where_clause, errors);
        EnumMessage {
            name,
            trait_name: &source.ident,
            variants: found.variants,
            generics: found.generics,
            unused_generics: found.unused_generics,
            all_generics: generics,
            wheres: found.wheres,
            full_where: &source.where_clause,
            msg_ty: ty,
            args,
            error: TypeDesc { name: String::from_str("C::Error"), args: Vec::new() },
        }
    }

    /// The enum is the one generated for this message type.
    pub open spec fn emitted_as(&self, def: &EnumDef) -> bool {
        &&& def.name == self.name
        &&& def.generics@ == self.generics@
        &&& def.wheres@ == self.wheres@
        &&& emitted_parts(self.variants@, self.msg_ty, def.variants@, def.legs@)
        &&& def.dispatch.receiver == (Receiver::Implementor {
            interface: self.trait_name,
            generics: self.all_generics,
        })
        &&& def.dispatch.unused_generics@ == self.unused_generics@
        &&& def.dispatch.ctx == self.msg_ty.ctx_type()
        &&& def.dispatch.result == DispatchResult::Built(
            self.msg_ty.result_type(
                match &self.args.msg_type {
                    Some(custom) => Some(custom),
                    None => None,
                },
                &self.error,
            ),
        )
        &&& def.dispatch.full_where == self.full_where
    }

    /// The enum that is generated: one variant for each message, its wire
    /// names, and a dispatch function that calls the message's method on
    /// whatever implements the interface.
    pub fn emit<'s>(&'s self, errors: &mut Vec<SchemaError>) -> (def: EnumDef<'s>)
        ensures
            self.emitted_as(&def),
            findings(final(errors)@) == findings(old(errors)@) + emit_findings(
                self.variants@,
                self.msg_ty,
            ),
    {
        let parts = emit_parts(&self.variants, self.msg_ty, errors);
        let custom = match &self.args.msg_type {
            Some(custom) => Some(custom),
            None => None,
        };
        EnumDef {
            name: self.name,
            generics: self.generics.as_slice(),
            wheres: self.wheres.as_slice(),
            variants: parts.variants,
            dispatch: DispatchDef {
                receiver: Receiver::Implementor {
                    interface: self.trait_name,
                    generics: self.all_generics,
                },
                unused_generics: self.unused_generics.as_slice(),
                ctx: self.msg_ty.emit_ctx_type(),
                result: DispatchResult::Built(self.msg_ty.emit_result_type(custom, &self.error)),
                full_where: self.full_where,
            },
            legs: parts.legs,
        }
    }
}

/// The messages of one kind that a contract declares itself.
#[derive(Debug)]
pub struct ImplEnumMessage<'a> {
    pub name: &'a String,
    pub contract: &'a TypeDesc,
    pub variants: Vec<MsgVariant<'a>>,
    pub generics: Vec<&'a GenericParam>,
    pub unused_generics: Vec<&'a GenericParam>,
    pub all_generics: &'a [&'a GenericParam],
    pub wheres: Vec<&'a WherePredicate>,
    pub full_where: &'a Option<Vec<WherePredicate>>,
    pub msg_ty: MsgType,
    pub args: &'a ContractArgs,
}

impl<'a> ImplEnumMessage<'a> {
    /// The message type is the one made of the chosen methods of the
    /// contract `source`.
    pub open spec fn stands_for(
        &self,
        name: &String,
        source: &ItemImpl,
        chosen: Seq<(&Method, MsgAttr)>,
        ty: MsgType,
        generics: Seq<&GenericParam>,
        args: &ContractArgs,
    ) -> bool {
        &&& self.name == name
        &&& self.contract == &source.self_ty
        &&& variants_stand_for(self.variants@, chosen)
        &&& self.generics@ == used_generics(generics, picked_types(chosen))
        &&& self.unused_generics@ == unused_generics(generics, picked_types(chosen))
        &&& self.all_generics@ == generics
        &&& self.wheres@ == kept_clause(&source.where_clause, generics, self.generics@)
        &&& self.full_where == &source.where_clause
        &&& self.msg_ty == ty
        &&& self.args == args
    }

    /// The messages of the kind `ty` that a contract declares itself: one
    /// variant for each method of that kind, in the order of declaration.
    pub fn new(
        name: &'a String,
        source: &'a ItemImpl,
        ty: MsgType,
        generics: &'a [&'a GenericParam],
        args: &'a ContractArgs,
        errors: &mut Vec<SchemaError>,
    ) -> (message: Self)
        ensures
            ({
                let methods = impl_methods(source.items@);
                let chosen = picked(methods, ty);
                &&& message.stands_for(name, source, chosen, ty, generics@, args)
                &&& findings(final(errors)@) == findings(old(errors)@) + attr_findings(methods)
                    + picked_findings(chosen)
            }),
    {
        let methods = methods_of_impl(source);
        let chosen = select_messages(&methods, ty, errors);
        let found = analyse(&chosen, generics, &source.where_clause, errors);
        ImplEnumMessage {
            name,
            contract: &source.self_ty,
            variants: found.variants,
            generics: found.generics,
            unused_generics: found.unused_generics,
            all_generics: generics,
            wheres: found.wheres,
            full_where: &source.where_clause,
            msg_ty: ty,
            args,
        }
    }

    /// The enum is the one generated for this message type.
    pub open spec fn emitted_as(&self, def: &EnumDef) -> bool {
        &&& def.name == self.name
        &&& def.generics@ == self.generics@
        &&& def.wheres@ == self.wheres@
        &&& emitted_parts(self.variants@, self.msg_ty, def.variants@, def.legs@)
        &&& def.dispatch.receiver == Receiver::Contract(self.contract)
        &&& def.dispatch.unused_generics@ == self.unused_generics@
        &&& def.dispatch.ctx == self.msg_ty.ctx_type()
        &&& def.dispatch.result == DispatchResult::Built(
            self.msg_ty.result_type(None, &self.args.error),
        )
        &&& def.dispatch.full_where == self.full_where
    }

    /// The enum that is generated: one variant for each message, its wire
    /// names, and a dispatch function that calls the message's method on
    /// the contract.
    pub fn emit<'s>(&'s self, errors: &mut Vec<SchemaError>) -> (def: EnumDef<'s>)
        ensures
            self.emitted_as(&def),
            findings(final(errors)@) == findings(old(errors)@) + emit_findings(
                self.variants@,
                self.msg_ty,
            ),
    {
        let parts = emit_parts(&self.variants, self.msg_ty, errors);
        EnumDef {
            name: self.name,
            generics: self.generics.as_slice(),
            wheres: self.wheres.as_slice(),
            variants: parts.variants,
            dispatch: DispatchDef {
                receiver: Receiver::Contract(self.contract),
                unused_generics: self.unused_generics.as_slice(),
                ctx: self.msg_ty.emit_ctx_type(),
                result: DispatchResult::Built(
                    self.msg_ty.emit_result_type(None, &self.args.error),
                ),
                full_where: self.full_where,
            },
            legs: parts.legs,
        }
    }
}

/// A variant made from a method of a contract: the same as one made from
/// a method of an interface.
pub type ImplMsgVariant<'a> = MsgVariant<'a>;

/// The interfaces that the attributes compose into a contract, in the
/// order of the attributes.
pub open spec fn composed<'a>(attrs: Seq<Attribute>) -> Seq<ContractMessageAttr<'a>>
    decreases attrs.len(),
{
    if attrs.len() == 0 {
        Seq::empty()
    } else {
        let before = composed(attrs.drop_last());
        if attrs.last().path@ == "messages"@ {
            match messages_attr_of(&attrs.last()) {
                Some(interface) => before.push(interface),
                None => before,
            }
        } else {
            before
        }
    }
}

/// What is wrong with the `messages` attributes among `attrs`.
pub open spec fn composed_findings(attrs: Seq<Attribute>) -> Seq<SchemaErrorView>
    decreases attrs.len(),
{
    if attrs.len() == 0 {
        Seq::empty()
    } else {
        let before = composed_findings(attrs.drop_last());
        if attrs.last().path@ == "messages"@ && messages_attr_of(&attrs.last()) is None {
            before.push(finding_at(ErrorKind::InvalidMessages, attrs.last().span))
        } else {
            before
        }
    }
}

/// The contract declares messages of the kind `ty` itself, and the kind is
/// one whose messages are merged into an entry point.
pub open spec fn declares_own(source: &ItemImpl, ty: MsgType) -> bool {
    !ty.is_single() && picked(impl_methods(source.items@), ty).len() > 0
}

/// The entry point of a contract for one kind of message: it merges the
/// messages of that kind of the interfaces that the contract is composed
/// of with those that the contract declares itself.
#[derive(Debug)]
pub struct GlueMessage<'a> {
    pub interfaces: Vec<ContractMessageAttr<'a>>,
    pub name: &'a String,
    pub contract: &'a TypeDesc,
    pub msg_ty: MsgType,
    pub error: &'a TypeDesc,
    /// Whether the contract declares messages of this kind itself.
    pub own: bool,
}

/// The variant of an entry point that wraps the contract's own messages:
/// it is named after the contract's type and wraps the message type
/// `message` of the contract.
#[derive(Clone, Copy, Debug)]
pub struct OwnVariant<'s> {
    pub variant: &'s String,
    pub message: &'s String,
}

/// One variant of an entry point: it wraps the message type `message` of
/// the interface in `module`, used with the type arguments `generics`.
#[derive(Debug)]
pub struct EntryVariant<'s> {
    pub variant: &'s String,
    pub module: &'s String,
    pub message: &'s String,
    /// The type arguments, for the kinds of message that take any.
    pub generics: Option<&'s Vec<String>>,
}

/// One attempt at decoding a payload as the message of an interface. The
/// reason of a failed attempt is kept under `binding`.
#[derive(Debug)]
pub struct Attempt<'s> {
    pub variant: &'s String,
    pub binding: String,
}

/// A generated entry point.
#[derive(Debug)]
pub struct EntryDef<'s> {
    pub name: &'s String,
    /// One variant for each interface, in the order of composition. The
    /// dispatch function hands the wrapped message on to its own dispatch
    /// function, with the contract and the context as they came.
    pub variants: Vec<EntryVariant<'s>>,
    /// One more variant, the last, for the messages that the contract
    /// declares itself, where it declares any.
    pub own: Option<OwnVariant<'s>>,
    /// The contract that handles the messages: its type without arguments.
    pub contract: TypeDesc,
    pub msg_ty: MsgType,
    pub ctx: CtxType,
    pub result: ResultType<'s>,
    /// The attempts at decoding, in the order in which they are made: the
    /// interfaces in the order of composition, then the contract's own
    /// messages.
    pub attempts: Vec<Attempt<'s>>,
}

/// The type arguments that an interface's messages of the kind `ty` are
/// used with.
pub open spec fn entry_generics<'a>(interface: ContractMessageAttr<'a>, ty: MsgType) -> Option<
    &'a Vec<String>,
> {
    match ty {
        MsgType::Exec => Some(interface.exec_generic_params),
        MsgType::Query => Some(interface.query_generic_params),
        _ => None,
    }
}

/// A type without its arguments.
pub fn strip_generics(ty: &TypeDesc) -> (stripped: TypeDesc)
    ensures
        stripped.name@ == ty.name@,
        stripped.args@.len() == 0,
{
    TypeDesc { name: ty.name.clone(), args: Vec::new() }
}

impl<'a> GlueMessage<'a> {
    /// The entry point of the contract `source` for messages of the kind
    /// `msg_ty`, over the interfaces that its `messages` attributes name and
    /// the messages of that kind that the contract declares itself.
    pub fn new(
        name: &'a String,
        source: &'a ItemImpl,
        msg_ty: MsgType,
        error: &'a TypeDesc,
        errors: &mut Vec<SchemaError>,
    ) -> (glue: Self)
        ensures
            glue.interfaces@ == composed(source.attrs@),
            glue.name == name,
            glue.contract == &source.self_ty,
            glue.msg_ty == msg_ty,
            glue.error == error,
            glue.own == declares_own(source, msg_ty),
            findings(final(errors)@) == findings(old(errors)@) + composed_findings(source.attrs@),
    {
        let mut interfaces: Vec<ContractMessageAttr<'a>> = Vec::new();
        let mut i: usize = 0;
        assert(findings(errors@) =~= findings(errors@) + composed_findings(source.attrs@.take(0)));
        while i < source.attrs.len()
            invariant
                i <= source.attrs@.len(),
                interfaces@ == composed(source.attrs@.take(i as int)),
                findings(errors@) == findings(old(errors)@) + composed_findings(
                    source.attrs@.take(i as int),
                ),
            decreases source.attrs@.len() - i,
        {
            assert(source.attrs@.take(i + 1).drop_last() =~= source.attrs@.take(i as int));
            let attr = &source.attrs[i];
            let ghost before = errors@;
            if same_str(attr.path.as_str(), "messages") {
                match ContractMessageAttr::parse(attr) {
                    Ok(interface) => interfaces.push(interface),
                    Err(error) => {
                        errors.push(error);
                        assert(findings(errors@) =~= findings(before).push(error@));
                    },
                }
            }
            assert(findings(errors@) =~= findings(old(errors)@) + composed_findings(
                source.attrs@.take(i + 1),
            ));
            i += 1;
        }
        assert(source.attrs@.take(i as int) =~= source.attrs@);
        let own = match msg_ty {
            MsgType::Instantiate | MsgType::Migrate => false,
            _ => {
                let methods = methods_of_impl(source);
                let mut unread: Vec<SchemaError> = Vec::new();
                let chosen = select_messages(&methods, msg_ty, &mut unread);
                chosen.len() > 0
            },
        };
        GlueMessage { interfaces, name, contract: &source.self_ty, msg_ty, error, own }
    }

    /// The names under which the attempts at decoding are made: the
    /// variants of the interfaces, then the contract's type where the
    /// contract declares messages itself.
    pub open spec fn attempt_tags(&self) -> Seq<&String> {
        let composed = self.interfaces@.map_values(|interface: ContractMessageAttr| interface.variant);
        if self.own {
            composed.push(&self.contract.name)
        } else {
            composed
        }
    }

    /// The entry point is the one generated for this composition.
    pub open spec fn emitted_as(&self, def: &EntryDef) -> bool {
        &&& def.name == self.name
        &&& def.variants@.len() == self.interfaces@.len()
        &&& forall|i: int|
            0 <= i < def.variants@.len() ==> {
                &&& (#[trigger] def.variants@[i]).variant == self.interfaces@[i].variant
                &&& def.variants@[i].module == self.interfaces@[i].module
                &&& def.variants@[i].message == self.name
                &&& def.variants@[i].generics == entry_generics(self.interfaces@[i], self.msg_ty)
            }
        &&& def.contract.name@ == self.contract.name@
        &&& def.contract.args@.len() == 0
        &&& def.msg_ty == self.msg_ty
        &&& def.ctx == self.msg_ty.ctx_type()
        &&& def.result == self.msg_ty.result_type(None, self.error)
        &&& def.own == if self.own {
            Some(OwnVariant { variant: &self.contract.name, message: self.name })
        } else {
            None
        }
        &&& def.attempts@.len() == self.attempt_tags().len()
        &&& forall|i: int|
            0 <= i < def.attempts@.len() ==> {
                &&& (#[trigger] def.attempts@[i]).variant == self.attempt_tags()[i]
                &&& def.attempts@[i].binding@ == cased(self.attempt_tags()[i]@, Case::Snake)
            }
    }

    /// The entry point that is generated: one variant for each interface
    /// and, where the contract declares messages of the kind itself, one
    /// more for those; and the attempts at decoding, in that order.
    pub fn emit<'s>(&'s self) -> (def: EntryDef<'s>)
        ensures
            self.emitted_as(&def),
    {
        let mut variants: Vec<EntryVariant<'s>> = Vec::new();
        let mut attempts: Vec<Attempt<'s>> = Vec::new();
        let mut i: usize = 0;
        while i < self.interfaces.len()
            invariant
                i <= self.interfaces@.len(),
                variants@.len() == i,
                attempts@.len() == i,
                forall|k: int|
                    0 <= k < i ==> {
                        &&& (#[trigger] variants@[k]).variant == self.interfaces@[k].variant
                        &&& variants@[k].module == self.interfaces@[k].module
                        &&& variants@[k].message == self.name
                        &&& variants@[k].generics == entry_generics(
                            self.interfaces@[k],
                            self.msg_ty,
                        )
                    },
                forall|k: int|
                    0 <= k < i ==> {
                        &&& (#[trigger] attempts@[k]).variant == self.interfaces@[k].variant
                        &&& attempts@[k].binding@ == cased(
                            self.interfaces@[k].variant@,
                            Case::Snake,
                        )
                    },
            decreases self.interfaces@.len() - i,
        {
            let interface = &self.interfaces[i];
            let generics = match self.msg_ty {
                MsgType::Exec => Some(interface.exec_generic_params),
                MsgType::Query => Some(interface.query_generic_params),
                _ => None,
            };
            variants.push(
                EntryVariant {
                    variant: interface.variant,
                    module: interface.module,
                    message: self.name,
                    generics,
                },
            );
            attempts.push(
                Attempt {
                    variant: interface.variant,
                    binding: wire_name_of(interface.variant.as_str()),
                },
            );
            i += 1;
        }
        let own = if self.own {
            attempts.push(
                Attempt {
                    variant: &self.contract.name,
                    binding: wire_name_of(self.contract.name.as_str()),
                },
            );
            Some(OwnVariant { variant: &self.contract.name, message: self.name })
        } else {
            None
        };
        EntryDef {
            name: self.name,
            variants,
            own,
            contract: strip_generics(self.contract),
            msg_ty: self.msg_ty,
            ctx: self.msg_ty.emit_ctx_type(),
            result: self.msg_ty.emit_result_type(None, self.error),
            attempts,
        }
    }
}

/// Every method chosen as a message of a kind is one of that kind.
pub proof fn lemma_picked_kind(methods: Seq<&Method>, ty: MsgType, i: int)
    requires
        0 <= i < picked(methods, ty).len(),
    ensures
        picked(methods, ty)[i].1.kind() == ty,
        method_attr(picked(methods, ty)[i].0) == Some(
            Ok::<MsgAttr, ErrorKind>(picked(methods, ty)[i].1),
        ),
        methods.contains(picked(methods, ty)[i].0),
    decreases methods.len(),
{
    let before = picked(methods.drop_last(), ty);
    if i < before.len() {
        lemma_picked_kind(methods.drop_last(), ty, i);
        let at = choose|at: int|
            0 <= at < methods.drop_last().len() && methods.drop_last()[at] == before[i].0;
        assert(methods[at] == before[i].0);
    } else {
        assert(methods[methods.len() - 1] == methods.last());
    }
}

/// The enum generated for the messages of one kind of an interface has
/// one variant for each method of that kind, in the order of declaration;
/// the fields of each variant are the payload arguments of its method, in
/// their order, and its wire name is the wire name of the method.
pub proof fn lemma_enum_cases(
    message: &EnumMessage,
    def: &EnumDef,
    name: &String,
    source: &ItemTrait,
    ty: MsgType,
    generics: Seq<&GenericParam>,
    args: &InterfaceArgs,
)
    requires
        message.stands_for(
            name,
            source,
            picked(trait_methods(source.items@), ty),
            ty,
            generics,
            args,
        ),
        message.emitted_as(def),
    ensures
        def.variants@.len() == picked(trait_methods(source.items@), ty).len(),
        forall|i: int|
            0 <= i < def.variants@.len() ==> {
                let method = picked(trait_methods(source.items@), ty)[i].0;
                &&& (#[trigger] def.variants@[i]).fields@ == field_defs(
                    fields_of(payload_args(method.sig.inputs@)),
                )
                &&& def.variants@[i].wire_name@ == wire_name(method.sig.ident@)
            },
{
    let chosen = picked(trait_methods(source.items@), ty);
    assert forall|i: int| 0 <= i < def.variants@.len() implies {
        let method = chosen[i].0;
        &&& (#[trigger] def.variants@[i]).fields@ == field_defs(
            fields_of(payload_args(method.sig.inputs@)),
        )
        &&& def.variants@[i].wire_name@ == wire_name(method.sig.ident@)
    } by {
        assert(message.variants@[i].stands_for(chosen[i].0, chosen[i].1));
    }
}

/// A predicate that refers to a declared placeholder which the types
/// looked at do not refer to is dropped.
pub proof fn lemma_unused_predicate_dropped(
    pred: &WherePredicate,
    generics: Seq<&GenericParam>,
    visited: Seq<TypeDesc>,
    k: int,
)
    requires
        0 <= k < generics.len(),
        pred.mentions(generics[k].ident@),
        !any_mentions(visited, generics[k].ident@),
    ensures
        !keeps(pred, generics, used_generics(generics, visited)),
{
    let used = used_generics(generics, visited);
    lemma_used_generics_exact(generics, visited);
    if names_generic(used, generics[k].ident@) {
        let at = choose|at: int|
            0 <= at < used.len() && (#[trigger] used[at]).ident@ == generics[k].ident@;
        assert(any_mentions(visited, used[at].ident@));
    }
}

/// The predicates that are kept are predicates of the clause that refer
/// to no declared placeholder out of use.
pub proof fn lemma_kept_wheres(
    preds: Seq<WherePredicate>,
    generics: Seq<&GenericParam>,
    used: Seq<&GenericParam>,
)
    ensures
        forall|i: int|
            0 <= i < kept_wheres(preds, generics, used).len() ==> {
                &&& keeps(#[trigger] kept_wheres(preds, generics, used)[i], generics, used)
                &&& preds.contains(*kept_wheres(preds, generics, used)[i])
            },
        forall|k: int|
            0 <= k < preds.len() && !keeps(&(#[trigger] preds[k]), generics, used)
                ==> !kept_wheres(preds, generics, used).contains(&preds[k]),
    decreases preds.len(),
{
    if preds.len() > 0 {
        let fewer = preds.drop_last();
        lemma_kept_wheres(fewer, generics, used);
        let kept = kept_wheres(preds, generics, used);
        let before = kept_wheres(fewer, generics, used);
        assert forall|i: int| 0 <= i < kept.len() implies {
            &&& keeps(#[trigger] kept[i], generics, used)
            &&& preds.contains(*kept[i])
        } by {
            if i < before.len() {
                assert(kept[i] == before[i]);
                assert(fewer.contains(*before[i]));
                let at = choose|at: int| 0 <= at < fewer.len() && fewer[at] == *before[i];
                assert(preds[at] == *before[i]);
            } else {
                assert(preds[preds.len() - 1] == preds.last());
            }
        }
        assert forall|k: int|
            0 <= k < preds.len() && !keeps(&(#[trigger] preds[k]), generics, used) implies !kept.contains(
            &preds[k],
        ) by {
            if kept.contains(&preds[k]) {
                let at = choose|at: int| 0 <= at < kept.len() && kept[at] == &preds[k];
                assert(keeps(kept[at], generics, used));
            }
        }
    }
}

} // verus!
