//! The two kinds of declaration that the compiler takes: an interface and
//! a contract, each with the arguments it was declared with.

use crate::associated_types::is_error_type;
use crate::error::{finding_at, findings, ErrorKind, SchemaError, SchemaErrorView};
use crate::lexical::same_str;
use crate::message::{
    attr_findings, composed, composed_findings, declares_own, emit_findings, field_defs,
    fields_of, impl_methods, lemma_picked_kind, methods_of_impl, methods_of_trait, payload_args,
    picked, picked_findings, select_messages, struct_findings, trait_methods, EntryDef, EnumDef,
    EnumMessage, GlueMessage, ImplEnumMessage, StructDef, StructMessage,
};
use crate::parser::{ContractArgs, InterfaceArgs, MsgType};
use crate::schema::{GenericParam, ItemImpl, ItemTrait, Method, TraitItem};
use vstd::prelude::*;
use vstd::string::StringExecFns;

verus! {

/// The placeholders of a list, where they stand.
pub open spec fn generic_refs<'a>(generics: Seq<GenericParam>) -> Seq<&'a GenericParam> {
    generics.map_values(|generic: GenericParam| &generic)
}

/// The placeholders of a list, where they stand.
fn collect_generics<'a>(generics: &'a Vec<GenericParam>) -> (refs: Vec<&'a GenericParam>)
    ensures
        refs@ == generic_refs(generics@),
{
    let mut refs: Vec<&'a GenericParam> = Vec::new();
    let mut i: usize = 0;
    while i < generics.len()
        invariant
            i <= generics@.len(),
            refs@ == generic_refs(generics@.take(i as int)),
        decreases generics@.len() - i,
    {
        refs.push(&generics[i]);
        assert(refs@ =~= generic_refs(generics@.take(i + 1)));
        i += 1;
    }
    assert(generics@.take(i as int) =~= generics@);
    refs
}

/// Puts down what a pass over the methods found beyond its first `skip`
/// findings.
fn keep_after(errors: &mut Vec<SchemaError>, found: Vec<SchemaError>, skip: usize)
    requires
        skip <= found@.len(),
    ensures
        findings(final(errors)@) == findings(old(errors)@) + findings(found@).skip(skip as int),
{
    let ghost given = found@;
    let mut found = found;
    let mut rest = found.split_off(skip);
    errors.append(&mut rest);
    assert(findings(errors@) =~= findings(old(errors)@) + findings(given).skip(skip as int));
}

/// Counts what is wrong with the `msg` attributes of the methods.
fn count_attr_findings(methods: &Vec<&Method>) -> (count: usize)
    ensures
        count == attr_findings(methods@).len(),
{
    let mut unread: Vec<SchemaError> = Vec::new();
    let _ = select_messages(methods, MsgType::Exec, &mut unread);
    assert(findings(unread@).len() == unread@.len());
    unread.len()
}

/// The interface declares an associated type named `Error`.
pub open spec fn declares_error(items: Seq<TraitItem>) -> bool {
    exists|i: int|
        0 <= i < items.len() && (#[trigger] items[i]) is Type && is_error_type(
            items[i]->Type_0.ident@,
        )
}

/// Tells whether the interface declares an associated type named `Error`.
fn has_error_type(items: &Vec<TraitItem>) -> (r: bool)
    ensures
        r == declares_error(items@),
{
    let mut i: usize = 0;
    while i < items.len()
        invariant
            i <= items@.len(),
            forall|k: int|
                0 <= k < i ==> !((#[trigger] items@[k]) is Type && is_error_type(
                    items@[k]->Type_0.ident@,
                )),
        decreases items@.len() - i,
    {
        if let TraitItem::Type(ty) = &items[i] {
            if same_str(ty.ident.as_str(), "Error") {
                return true;
            }
        }
        i += 1;
    }
    false
}

/// An interface with the arguments it was declared with.
#[derive(Debug)]
pub struct TraitInput<'a> {
    pub attributes: &'a InterfaceArgs,
    pub item: &'a ItemTrait,
    pub generics: Vec<&'a GenericParam>,
    /// The names of the two message types that are generated.
    pub exec_name: String,
    pub query_name: String,
}

/// The message types of an interface.
#[derive(Debug)]
pub struct InterfaceMessages<'s> {
    /// The module that the generated items go to, where one is named.
    pub module: &'s Option<String>,
    pub execute: EnumMessage<'s>,
    pub query: EnumMessage<'s>,
}

/// The generated items of an interface.
#[derive(Debug)]
pub struct InterfaceDefs<'s> {
    pub module: &'s Option<String>,
    pub execute: EnumDef<'s>,
    pub query: EnumDef<'s>,
}

/// What is wrong with the messages of the kind `ty` of an interface.
pub open spec fn trait_kind_findings(item: &ItemTrait, ty: MsgType) -> Seq<SchemaErrorView> {
    let methods = trait_methods(item.items@);
    attr_findings(methods) + picked_findings(picked(methods, ty))
}

/// Everything that is wrong with the messages of an interface: with the
/// `msg` attributes of its methods, then with the arguments of its execute
/// messages, then with those of its queries.
pub open spec fn interface_findings(item: &ItemTrait) -> Seq<SchemaErrorView> {
    let methods = trait_methods(item.items@);
    attr_findings(methods) + picked_findings(picked(methods, MsgType::Exec)) + picked_findings(
        picked(methods, MsgType::Query),
    )
}

impl<'a> TraitInput<'a> {
    /// Takes an interface. One that declares no `Error` type is wrong.
    pub fn new(
        attributes: &'a InterfaceArgs,
        item: &'a ItemTrait,
        errors: &mut Vec<SchemaError>,
    ) -> (input: Self)
        ensures
            input.attributes == attributes,
            input.item == item,
            input.generics@ == generic_refs(item.generics@),
            input.exec_name@ == "ExecMsg"@,
            input.query_name@ == "QueryMsg"@,
            findings(final(errors)@) == if declares_error(item.items@) {
                findings(old(errors)@)
            } else {
                findings(old(errors)@).push(finding_at(ErrorKind::MissingErrorType, item.span))
            },
    {
        let generics = collect_generics(&item.generics);
        if !has_error_type(&item.items) {
            let ghost before = errors@;
            errors.push(SchemaError::at(ErrorKind::MissingErrorType, item.span));
            assert(findings(errors@) =~= findings(before).push(
                finding_at(ErrorKind::MissingErrorType, item.span),
            ));
        }
        TraitInput {
            attributes,
            item,
            generics,
            exec_name: String::from_str("ExecMsg"),
            query_name: String::from_str("QueryMsg"),
        }
    }

    /// The message types of the interface: its execute messages and its
    /// queries.
    pub fn process<'s>(&'s self, errors: &mut Vec<SchemaError>) -> (messages: InterfaceMessages<'s>)
        ensures
            messages.module == &self.attributes.module,
            messages.execute.stands_for(
                &self.exec_name,
                self.item,
                picked(trait_methods(self.item.items@), MsgType::Exec),
                MsgType::Exec,
                self.generics@,
                self.attributes,
            ),
            messages.query.stands_for(
                &self.query_name,
                self.item,
                picked(trait_methods(self.item.items@), MsgType::Query),
                MsgType::Query,
                self.generics@,
                self.attributes,
            ),
            findings(final(errors)@) == findings(old(errors)@) + interface_findings(self.item),
    {
        let (execute, query) = self.emit_messages(errors);
        InterfaceMessages { module: &self.attributes.module, execute, query }
    }

    /// The two message types of the interface.
    fn emit_messages<'s>(&'s self, errors: &mut Vec<SchemaError>) -> (messages: (
        EnumMessage<'s>,
        EnumMessage<'s>,
    ))
        ensures
            messages.0.stands_for(
                &self.exec_name,
                self.item,
                picked(trait_methods(self.item.items@), MsgType::Exec),
                MsgType::Exec,
                self.generics@,
                self.attributes,
            ),
            messages.1.stands_for(
                &self.query_name,
                self.item,
                picked(trait_methods(self.item.items@), MsgType::Query),
                MsgType::Query,
                self.generics@,
                self.attributes,
            ),
            findings(final(errors)@) == findings(old(errors)@) + interface_findings(self.item),
    {
        let methods = methods_of_trait(self.item);
        let read = count_attr_findings(&methods);
        let execute = self.emit_msg(&self.exec_name, MsgType::Exec, self.attributes, errors);
        let mut found: Vec<SchemaError> = Vec::new();
        let query = self.emit_msg(&self.query_name, MsgType::Query, self.attributes, &mut found);
        proof {
            let attrs = attr_findings(methods@);
            let queries = picked_findings(picked(methods@, MsgType::Query));
            assert(findings(found@) =~= attrs + queries);
            assert((attrs + queries).skip(read as int) =~= queries);
        }
        keep_after(errors, found, read);
        (execute, query)
    }

    /// The message type of one kind, under the name `name`.
    fn emit_msg<'s>(
        &'s self,
        name: &'s String,
        msg_ty: MsgType,
        args: &'s InterfaceArgs,
        errors: &mut Vec<SchemaError>,
    ) -> (message: EnumMessage<'s>)
        ensures
            message.stands_for(
                name,
                self.item,
                picked(trait_methods(self.item.items@), msg_ty),
                msg_ty,
                self.generics@,
                args,
            ),
            findings(final(errors)@) == findings(old(errors)@) + trait_kind_findings(
                self.item,
                msg_ty,
            ),
    {
        EnumMessage::new(name, self.item, msg_ty, self.generics.as_slice(), args, errors)
    }
}

impl<'s> InterfaceMessages<'s> {
    /// The generated items: one enum for the execute messages and one for
    /// the queries.
    pub fn emit<'t>(&'t self, errors: &mut Vec<SchemaError>) -> (defs: InterfaceDefs<'t>)
        ensures
            defs.module == self.module,
            self.execute.emitted_as(&defs.execute),
            self.query.emitted_as(&defs.query),
            findings(final(errors)@) == findings(old(errors)@) + emit_findings(
                self.execute.variants@,
                self.execute.msg_ty,
            ) + emit_findings(self.query.variants@, self.query.msg_ty),
    {
        let execute = self.execute.emit(errors);
        let query = self.query.emit(errors);
        InterfaceDefs { module: self.module, execute, query }
    }
}

/// A contract with the arguments it was declared with.
#[derive(Debug)]
pub struct ImplInput<'a> {
    pub attributes: &'a ContractArgs,
    pub item: &'a ItemImpl,
    pub generics: Vec<&'a GenericParam>,
    /// The names of the message types that are generated.
    pub exec_name: String,
    pub query_name: String,
    pub reply_name: String,
}

/// The message types of a contract.
#[derive(Debug)]
pub struct ContractMessages<'s> {
    /// The module that the generated items go to, where one is named.
    pub module: &'s Option<String>,
    pub instantiate: Option<StructMessage<'s>>,
    pub exec_impl: ImplEnumMessage<'s>,
    pub query_impl: ImplEnumMessage<'s>,
    pub reply: ImplEnumMessage<'s>,
    pub migrate: Option<StructMessage<'s>>,
    pub execute: GlueMessage<'s>,
    pub query: GlueMessage<'s>,
}

/// The generated items of a contract.
#[derive(Debug)]
pub struct ContractDefs<'s> {
    pub module: &'s Option<String>,
    pub instantiate: Option<StructDef<'s>>,
    pub exec_impl: EnumDef<'s>,
    pub query_impl: EnumDef<'s>,
    pub reply: EnumDef<'s>,
    pub migrate: Option<StructDef<'s>>,
    pub execute: EntryDef<'s>,
    pub query: EntryDef<'s>,
}

/// What is wrong with the record message of the kind `ty` of a contract.
pub open spec fn record_findings(item: &ItemImpl, ty: MsgType) -> Seq<SchemaErrorView> {
    let methods = impl_methods(item.items@);
    attr_findings(methods) + struct_findings(item, ty, picked(methods, ty))
}

/// What is wrong with the messages of the kind `ty` that a contract
/// declares itself.
pub open spec fn impl_kind_findings(item: &ItemImpl, ty: MsgType) -> Seq<SchemaErrorView> {
    let methods = impl_methods(item.items@);
    attr_findings(methods) + picked_findings(picked(methods, ty))
}

/// Everything that is wrong with the declaration of a contract, in the
/// order in which it is found: with the `msg` attributes of the methods;
/// with the instantiation and with the migration; with the arguments of the
/// contract's own execute messages, queries and replies; with the
/// `messages` attributes.
pub open spec fn contract_findings(item: &ItemImpl) -> Seq<SchemaErrorView> {
    let methods = impl_methods(item.items@);
    attr_findings(methods) + struct_findings(
        item,
        MsgType::Instantiate,
        picked(methods, MsgType::Instantiate),
    ) + struct_findings(item, MsgType::Migrate, picked(methods, MsgType::Migrate))
        + picked_findings(picked(methods, MsgType::Exec)) + picked_findings(
        picked(methods, MsgType::Query),
    ) + picked_findings(picked(methods, MsgType::Reply)) + composed_findings(item.attrs@)
}

/// A record message is the one of the kind `ty` that the contract has, or
/// there is none because the contract has not exactly one method of that
/// kind.
pub open spec fn record_stands_for(
    message: Option<StructMessage>,
    item: &ItemImpl,
    ty: MsgType,
    generics: Seq<&GenericParam>,
) -> bool {
    let chosen = picked(impl_methods(item.items@), ty);
    if chosen.len() != 1 {
        message is None
    } else {
        message is Some && message->0.stands_for(item, chosen[0].0, chosen[0].1, generics)
    }
}

/// An entry point is the one of the kind `ty` of the contract.
pub open spec fn glue_stands_for(
    glue: &GlueMessage,
    name: &String,
    item: &ItemImpl,
    ty: MsgType,
    args: &ContractArgs,
) -> bool {
    &&& glue.interfaces@ == composed(item.attrs@)
    &&& glue.name == name
    &&& glue.contract == &item.self_ty
    &&& glue.msg_ty == ty
    &&& glue.error == &args.error
    &&& glue.own == declares_own(item, ty)
}

impl<'a> ImplInput<'a> {
    /// Takes a contract.
    pub fn new(attributes: &'a ContractArgs, item: &'a ItemImpl) -> (input: Self)
        ensures
            input.attributes == attributes,
            input.item == item,
            input.generics@ == generic_refs(item.generics@),
            input.exec_name@ == "ExecMsg"@,
            input.query_name@ == "QueryMsg"@,
            input.reply_name@ == "ReplyMsg"@,
    {
        ImplInput {
            attributes,
            item,
            generics: collect_generics(&item.generics),
            exec_name: String::from_str("ExecMsg"),
            query_name: String::from_str("QueryMsg"),
            reply_name: String::from_str("ReplyMsg"),
        }
    }

    /// The contract's messages are those that `messages` holds.
    pub open spec fn processed_as(&self, messages: &ContractMessages) -> bool {
        let item = self.item;
        let methods = impl_methods(item.items@);
        &&& messages.module == &self.attributes.module
        &&& record_stands_for(messages.instantiate, item, MsgType::Instantiate, self.generics@)
        &&& record_stands_for(messages.migrate, item, MsgType::Migrate, self.generics@)
        &&& messages.exec_impl.stands_for(
            &self.exec_name,
            item,
            picked(methods, MsgType::Exec),
            MsgType::Exec,
            self.generics@,
            self.attributes,
        )
        &&& messages.query_impl.stands_for(
            &self.query_name,
            item,
            picked(methods, MsgType::Query),
            MsgType::Query,
            self.generics@,
            self.attributes,
        )
        &&& messages.reply.stands_for(
            &self.reply_name,
            item,
            picked(methods, MsgType::Reply),
            MsgType::Reply,
            self.generics@,
            self.attributes,
        )
        &&& glue_stands_for(&messages.execute, &self.exec_name, item, MsgType::Exec, self.attributes)
        &&& glue_stands_for(
            &messages.query,
            &self.query_name,
            item,
            MsgType::Query,
            self.attributes,
        )
    }

    /// The message types of the contract: the record of its instantiation
    /// and, where it has one, of its migration; the enums of the messages
    /// it declares itself; the entry points that merge the interfaces it
    /// is composed of. A contract that has not exactly one instantiation
    /// is wrong and has no record of instantiation. What is wrong with the
    /// `msg` attributes of the methods is put down once.
    pub fn process<'s>(&'s self, errors: &mut Vec<SchemaError>) -> (messages: ContractMessages<'s>)
        ensures
            self.processed_as(&messages),
            findings(final(errors)@) == findings(old(errors)@) + contract_findings(self.item),
            picked(impl_methods(self.item.items@), MsgType::Instantiate).len() != 1 ==> findings(
                final(errors)@,
            ).len() > findings(old(errors)@).len(),
    {
        let messages = self.emit_messages(errors);
        messages
    }

    /// The message types of the contract, in the order in which the
    /// generated items stand.
    fn emit_messages<'s>(&'s self, errors: &mut Vec<SchemaError>) -> (messages: ContractMessages<
        's,
    >)
        ensures
            self.processed_as(&messages),
            findings(final(errors)@) == findings(old(errors)@) + contract_findings(self.item),
            picked(impl_methods(self.item.items@), MsgType::Instantiate).len() != 1 ==> findings(
                final(errors)@,
            ).len() > findings(old(errors)@).len(),
    {
        let methods = methods_of_impl(self.item);
        let read = count_attr_findings(&methods);
        let ghost attrs = attr_findings(methods@);
        let ghost item = self.item;

        let instantiate = self.emit_struct_msg(MsgType::Instantiate, errors);
        let ghost counted = findings(errors@);

        let mut found: Vec<SchemaError> = Vec::new();
        let migrate = self.emit_struct_msg(MsgType::Migrate, &mut found);
        proof {
            let own = struct_findings(item, MsgType::Migrate, picked(methods@, MsgType::Migrate));
            assert(findings(found@) =~= attrs + own);
            assert((attrs + own).skip(read as int) =~= own);
        }
        keep_after(errors, found, read);

        let mut found: Vec<SchemaError> = Vec::new();
        let exec_impl = self.emit_enum_msg(&self.exec_name, MsgType::Exec, &mut found);
        proof {
            let own = picked_findings(picked(methods@, MsgType::Exec));
            assert(findings(found@) =~= attrs + own);
            assert((attrs + own).skip(read as int) =~= own);
        }
        keep_after(errors, found, read);

        let mut found: Vec<SchemaError> = Vec::new();
        let query_impl = self.emit_enum_msg(&self.query_name, MsgType::Query, &mut found);
        proof {
            let own = picked_findings(picked(methods@, MsgType::Query));
            assert(findings(found@) =~= attrs + own);
            assert((attrs + own).skip(read as int) =~= own);
        }
        keep_after(errors, found, read);

        let mut found: Vec<SchemaError> = Vec::new();
        let reply = self.emit_enum_msg(&self.reply_name, MsgType::Reply, &mut found);
        proof {
            let own = picked_findings(picked(methods@, MsgType::Reply));
            assert(findings(found@) =~= attrs + own);
            assert((attrs + own).skip(read as int) =~= own);
        }
        keep_after(errors, found, read);

        let execute = self.emit_glue_msg(&self.exec_name, MsgType::Exec, errors);
        let mut unread: Vec<SchemaError> = Vec::new();
        let query = self.emit_glue_msg(&self.query_name, MsgType::Query, &mut unread);
        assert(findings(errors@).len() >= counted.len());
        assert(findings(errors@) =~= findings(old(errors)@) + contract_findings(item));
        ContractMessages {
            module: &self.attributes.module,
            instantiate,
            exec_impl,
            query_impl,
            reply,
            migrate,
            execute,
            query,
        }
    }

    /// The record message of the kind `msg_ty`, where the contract has one.
    fn emit_struct_msg<'s>(&'s self, msg_ty: MsgType, errors: &mut Vec<SchemaError>) -> (message:
        Option<StructMessage<'s>>)
        ensures
            record_stands_for(message, self.item, msg_ty, self.generics@),
            findings(final(errors)@) == findings(old(errors)@) + record_findings(
                self.item,
                msg_ty,
            ),
    {
        StructMessage::new(self.item, msg_ty, self.generics.as_slice(), errors)
    }

    /// The contract's own messages of the kind `msg_ty`.
    fn emit_enum_msg<'s>(
        &'s self,
        name: &'s String,
        msg_ty: MsgType,
        errors: &mut Vec<SchemaError>,
    ) -> (message: ImplEnumMessage<'s>)
        ensures
            message.stands_for(
                name,
                self.item,
                picked(impl_methods(self.item.items@), msg_ty),
                msg_ty,
                self.generics@,
                self.attributes,
            ),
            findings(final(errors)@) == findings(old(errors)@) + impl_kind_findings(
                self.item,
                msg_ty,
            ),
    {
        ImplEnumMessage::new(
            name,
            self.item,
            msg_ty,
            self.generics.as_slice(),
            self.attributes,
            errors,
        )
    }

    /// The entry point of the kind `msg_ty`.
    fn emit_glue_msg<'s>(
        &'s self,
        name: &'s String,
        msg_ty: MsgType,
        errors: &mut Vec<SchemaError>,
    ) -> (glue: GlueMessage<'s>)
        ensures
            glue_stands_for(&glue, name, self.item, msg_ty, self.attributes),
            findings(final(errors)@) == findings(old(errors)@) + composed_findings(
                self.item.attrs@,
            ),
    {
        GlueMessage::new(name, self.item, msg_ty, &self.attributes.error, errors)
    }
}

/// What generating the record of a message finds wrong: a record message
/// of a kind that has no record.
pub open spec fn record_emit_findings(message: Option<StructMessage>) -> Seq<SchemaErrorView> {
    match message {
        Some(made) => if StructMessage::record_name(made.msg_attr) is Some {
            Seq::empty()
        } else {
            seq![finding_at(ErrorKind::InvalidMessageType, made.span)]
        },
        None => Seq::empty(),
    }
}

/// The record is the one generated for the message, where there is one.
pub open spec fn record_emitted_as(message: Option<StructMessage>, def: Option<StructDef>) -> bool {
    match message {
        Some(made) => match StructMessage::record_name(made.msg_attr) {
            Some(name) => def is Some && made.emitted_as(&def->0, name),
            None => def is None,
        },
        None => def is None,
    }
}

/// Generates the record of a message, where there is one.
fn emit_record<'t>(message: &'t Option<StructMessage<'t>>, errors: &mut Vec<SchemaError>) -> (def:
    Option<StructDef<'t>>)
    ensures
        record_emitted_as(*message, def),
        findings(final(errors)@) == findings(old(errors)@) + record_emit_findings(*message),
{
    match message {
        Some(made) => {
            let def = made.emit(errors);
            assert(findings(errors@) =~= findings(old(errors)@) + record_emit_findings(*message));
            def
        },
        None => {
            assert(findings(errors@) =~= findings(old(errors)@) + record_emit_findings(*message));
            None
        },
    }
}

impl<'s> ContractMessages<'s> {
    /// What generating the items of the contract finds wrong.
    pub open spec fn emit_findings(&self) -> Seq<SchemaErrorView> {
        record_emit_findings(self.instantiate) + emit_findings(
            self.exec_impl.variants@,
            self.exec_impl.msg_ty,
        ) + emit_findings(self.query_impl.variants@, self.query_impl.msg_ty) + emit_findings(
            self.reply.variants@,
            self.reply.msg_ty,
        ) + record_emit_findings(self.migrate)
    }

    /// The generated items: the records, the enums of the contract's own
    /// messages, and the entry points.
    pub fn emit<'t>(&'t self, errors: &mut Vec<SchemaError>) -> (defs: ContractDefs<'t>)
        ensures
            defs.module == self.module,
            record_emitted_as(self.instantiate, defs.instantiate),
            self.exec_impl.emitted_as(&defs.exec_impl),
            self.query_impl.emitted_as(&defs.query_impl),
            self.reply.emitted_as(&defs.reply),
            record_emitted_as(self.migrate, defs.migrate),
            self.execute.emitted_as(&defs.execute),
            self.query.emitted_as(&defs.query),
            findings(final(errors)@) == findings(old(errors)@) + self.emit_findings(),
    {
        let instantiate = emit_record(&self.instantiate, errors);
        let exec_impl = self.exec_impl.emit(errors);
        let query_impl = self.query_impl.emit(errors);
        let reply = self.reply.emit(errors);
        let migrate = emit_record(&self.migrate, errors);
        let execute = self.execute.emit();
        let query = self.query.emit();
        ContractDefs {
            module: self.module,
            instantiate,
            exec_impl,
            query_impl,
            reply,
            migrate,
            execute,
            query,
        }
    }
}

/// A contract that has exactly one instantiation gets one record for it,
/// named `InstantiateMsg`, whose fields are the payload arguments of the
/// instantiation method, in their order. Any other contract gets none.
pub proof fn lemma_instantiate_record(
    input: &ImplInput,
    messages: &ContractMessages,
    def: Option<StructDef>,
)
    requires
        input.processed_as(messages),
        record_emitted_as(messages.instantiate, def),
    ensures
        ({
            let chosen = picked(impl_methods(input.item.items@), MsgType::Instantiate);
            if chosen.len() == 1 {
                &&& def is Some
                &&& def->0.name@ == "InstantiateMsg"@
                &&& def->0.fields@ == field_defs(fields_of(payload_args(chosen[0].0.sig.inputs@)))
            } else {
                def is None
            }
        }),
{
    if picked(impl_methods(input.item.items@), MsgType::Instantiate).len() == 1 {
        lemma_picked_kind(impl_methods(input.item.items@), MsgType::Instantiate, 0);
    }
}

} // verus!
