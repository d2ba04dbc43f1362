//! Helpers for tests: for each message of an implemented interface a
//! method on a proxy of the contract that sends the message.

use crate::associated_types::is_error_type;
use crate::casing::{cased, to_case, Case};
use crate::error::{findings, SchemaError};
use crate::lexical::same_str;
use crate::message::{
    attr_findings, extract_return_type, field_names, fields_of, impl_methods, methods_of_impl,
    ok_type, payload_args,
};
use crate::parser::{method_attr, read_method_attr, MsgAttr, MsgType};
use crate::schema::{FnArg, ImplItem, ItemImpl, Method, Pat, TypeDesc};
use vstd::prelude::*;

verus! {

/// What the helper for a message returns.
#[derive(Clone, Copy, Debug)]
pub enum ProxyReturn<'a> {
    /// The response of the chain to an executed message.
    AppResponse,
    /// The decoded answer to a query, of the given type.
    Answer(&'a TypeDesc),
    /// Nothing: the query's method declares no answer.
    Nothing,
}

/// A message as its helper sees it.
#[derive(Debug)]
pub struct MessageSignature<'a> {
    pub name: &'a String,
    pub params: Vec<&'a FnArg>,
    pub arguments: Vec<&'a String>,
    pub msg_ty: MsgType,
    pub return_type: ProxyReturn<'a>,
}

/// What the helper for a method returns: for a query the type that the
/// attribute names, or else the one its method answers with; for any other
/// message the response of the chain.
pub open spec fn proxy_return<'a>(method: &'a Method, attr: MsgAttr<'a>) -> ProxyReturn<'a> {
    match attr {
        MsgAttr::Query { resp_type: Some(ty) } => ProxyReturn::Answer(ty),
        MsgAttr::Query { resp_type: None } => match &method.sig.output {
            Some(output) => ProxyReturn::Answer(ok_type(output)),
            None => ProxyReturn::Nothing,
        },
        _ => ProxyReturn::AppResponse,
    }
}

/// The arguments of a method that carry the message, where they stand.
pub open spec fn payload_refs<'a>(inputs: Seq<FnArg>) -> Seq<&'a FnArg> {
    payload_args(inputs).map_values(|arg: FnArg| &arg)
}

impl<'a> MessageSignature<'a> {
    /// The signature is that of `method` read as `attr`.
    pub open spec fn stands_for(&self, method: &Method, attr: MsgAttr) -> bool {
        &&& self.name == &method.sig.ident
        &&& self.params@ == payload_refs(method.sig.inputs@)
        &&& self.arguments@ == field_names(fields_of(payload_args(method.sig.inputs@)))
        &&& self.msg_ty == attr.kind()
        &&& self.return_type == proxy_return(method, attr)
    }
}

/// The methods that are messages of any kind, each with what its attribute
/// says, in the order of their declaration.
pub open spec fn all_messages<'a>(methods: Seq<&'a Method>) -> Seq<(&'a Method, MsgAttr<'a>)>
    decreases methods.len(),
{
    if methods.len() == 0 {
        Seq::empty()
    } else {
        let before = all_messages(methods.drop_last());
        match method_attr(methods.last()) {
            Some(Ok(attr)) => before.push((methods.last(), attr)),
            _ => before,
        }
    }
}

/// The type that the first `Error` type among the items is set to.
pub open spec fn error_type_of<'a>(items: Seq<ImplItem>) -> Option<&'a TypeDesc>
    decreases items.len(),
{
    if items.len() == 0 {
        None
    } else {
        match error_type_of(items.drop_last()) {
            Some(ty) => Some(ty),
            None => match &items.last() {
                ImplItem::Type(item) => if is_error_type(item.ident@) {
                    Some(&item.ty)
                } else {
                    None
                },
                _ => None,
            },
        }
    }
}

/// A type found in a prefix of the items is the one found in all of them.
proof fn lemma_error_type_prefix(items: Seq<ImplItem>, len: int)
    requires
        0 <= len <= items.len(),
        error_type_of(items.take(len)) is Some,
    ensures
        error_type_of(items) == error_type_of(items.take(len)),
    decreases items.len(),
{
    if len < items.len() {
        assert(items.drop_last().take(len) =~= items.take(len));
        lemma_error_type_prefix(items.drop_last(), len);
    } else {
        assert(items.take(len) =~= items);
    }
}

/// Finds the type that the `Error` type of an implementation is set to.
fn find_error_type<'a>(source: &'a ItemImpl) -> (found: Option<&'a TypeDesc>)
    ensures
        found == error_type_of(source.items@),
{
    let mut i: usize = 0;
    while i < source.items.len()
        invariant
            i <= source.items@.len(),
            error_type_of(source.items@.take(i as int)) is None,
        decreases source.items@.len() - i,
    {
        assert(source.items@.take(i + 1).drop_last() =~= source.items@.take(i as int));
        if let ImplItem::Type(item) = &source.items[i] {
            if same_str(item.ident.as_str(), "Error") {
                proof {
                    lemma_error_type_prefix(source.items@, i + 1);
                }
                return Some(&item.ty);
            }
        }
        i += 1;
    }
    assert(source.items@.take(i as int) =~= source.items@);
    None
}

/// The name of the interface that a block implements: there is one where
/// the block names an interface without arguments.
pub open spec fn trait_name_of<'a>(source: &'a ItemImpl) -> Option<&'a String> {
    match &source.trait_ {
        Some(path) => if path.args@.len() == 0 {
            Some(&path.name)
        } else {
            None
        },
        None => None,
    }
}

/// The name of the interface that a block implements.
fn extract_trait_name<'a>(source: &'a ItemImpl) -> (name: Option<&'a String>)
    ensures
        name == trait_name_of(source),
{
    match &source.trait_ {
        Some(path) => if path.args.len() == 0 {
            Some(&path.name)
        } else {
            None
        },
        None => None,
    }
}

/// The arguments that carry the message, where they stand.
fn collect_params<'a>(inputs: &'a Vec<FnArg>) -> (params: Vec<&'a FnArg>)
    ensures
        params@ == payload_refs(inputs@),
{
    let mut params: Vec<&'a FnArg> = Vec::new();
    let mut i: usize = 2;
    if inputs.len() < 2 {
        assert(params@ =~= payload_refs(inputs@));
        return params;
    }
    while i < inputs.len()
        invariant
            2 <= i <= inputs@.len(),
            params@.len() == i - 2,
            forall|k: int| 0 <= k < i - 2 ==> params@[k] == &inputs@[k + 2],
        decreases inputs@.len() - i,
    {
        params.push(&inputs[i]);
        i += 1;
    }
    assert(params@ =~= payload_refs(inputs@));
    params
}

/// The names of the arguments that become fields.
fn collect_arguments<'a>(inputs: &'a Vec<FnArg>) -> (arguments: Vec<&'a String>)
    ensures
        arguments@ == field_names(fields_of(payload_args(inputs@))),
{
    let mut arguments: Vec<&'a String> = Vec::new();
    let ghost args = payload_args(inputs@);
    if inputs.len() < 2 {
        assert(arguments@ =~= field_names(fields_of(args)));
        return arguments;
    }
    let mut i: usize = 2;
    assert(arguments@ =~= field_names(fields_of(args.take(0))));
    while i < inputs.len()
        invariant
            2 <= i <= inputs@.len(),
            args == inputs@.skip(2),
            arguments@ == field_names(fields_of(args.take(i - 2))),
        decreases inputs@.len() - i,
    {
        assert(args.take(i - 1).drop_last() =~= args.take(i - 2));
        assert(args.take(i - 1).last() == inputs@[i as int]);
        if let FnArg::Typed(item) = &inputs[i] {
            if let Pat::Ident(name) = &item.pat {
                arguments.push(name);
            }
        }
        assert(arguments@ =~= field_names(fields_of(args.take(i - 1))));
        i += 1;
    }
    assert(args.take(i - 2) =~= args);
    arguments
}

/// The signatures are those of the messages, one for one.
pub open spec fn signatures_stand_for(
    signatures: Seq<MessageSignature>,
    messages: Seq<(&Method, MsgAttr)>,
) -> bool {
    &&& signatures.len() == messages.len()
    &&& forall|i: int|
        0 <= i < signatures.len() ==> (#[trigger] signatures[i]).stands_for(
            messages[i].0,
            messages[i].1,
        )
}

/// Methods that do not all bind their payloads plainly up to some point do
/// not do so as a whole.
proof fn lemma_payloads_plain_prefix(methods: Seq<&Method>, len: int)
    requires
        0 <= len <= methods.len(),
        !payloads_plain(methods.take(len)),
    ensures
        !payloads_plain(methods),
    decreases methods.len(),
{
    if len < methods.len() {
        assert(methods.drop_last().take(len) =~= methods.take(len));
        lemma_payloads_plain_prefix(methods.drop_last(), len);
    } else {
        assert(methods.take(len) =~= methods);
    }
}

/// What the helpers of an implemented interface are made from.
#[derive(Debug)]
pub struct MultitestHelpers<'a> {
    pub trait_name: &'a String,
    pub messages: Vec<MessageSignature<'a>>,
    pub error_type: &'a String,
}

/// One helper: a method on the proxy that builds the message from its
/// arguments and sends it.
#[derive(Debug)]
pub struct ProxyMethod<'s> {
    pub name: &'s String,
    pub params: &'s Vec<&'s FnArg>,
    pub arguments: &'s Vec<&'s String>,
    /// Whether the message is executed; any other is sent as a query.
    pub executes: bool,
    /// What the helper hands back: for an executed message the submission,
    /// still to be sent, which will answer with the chain's response; for a
    /// query the decoded answer or the error.
    pub return_type: ProxyReturn<'s>,
    pub error_type: &'s String,
}

/// The generated helpers of one implemented interface.
#[derive(Debug)]
pub struct ProxyDefs<'s> {
    /// The module in which the interface's messages stand.
    pub module_name: String,
    pub methods: Vec<ProxyMethod<'s>>,
}

/// No argument among `args` is bound by a pattern.
pub open spec fn plainly_bound(args: Seq<FnArg>) -> bool {
    forall|i: int|
        0 <= i < args.len() ==> match #[trigger] args[i] {
            FnArg::Typed(item) => item.pat is Ident,
            FnArg::Receiver(_) => true,
        }
}

/// Every method that is a message binds each argument of its payload by a
/// plain name.
pub open spec fn payloads_plain(methods: Seq<&Method>) -> bool
    decreases methods.len(),
{
    if methods.len() == 0 {
        true
    } else {
        &&& payloads_plain(methods.drop_last())
        &&& match method_attr(methods.last()) {
            Some(Ok(_)) => plainly_bound(payload_args(methods.last().sig.inputs@)),
            _ => true,
        }
    }
}

/// The block is one that helpers can be made for: it implements an
/// interface named without arguments, it sets the `Error` type, and its
/// messages bind their arguments by plain names.
pub open spec fn accepted(source: &ItemImpl) -> bool {
    &&& trait_name_of(source) is Some
    &&& error_type_of(source.items@) is Some
    &&& payloads_plain(impl_methods(source.items@))
}

/// Tells whether no argument of the payload is bound by a pattern.
fn binds_plainly(inputs: &Vec<FnArg>) -> (r: bool)
    ensures
        r == plainly_bound(payload_args(inputs@)),
{
    if inputs.len() < 2 {
        return true;
    }
    let ghost args = payload_args(inputs@);
    let mut i: usize = 2;
    while i < inputs.len()
        invariant
            2 <= i <= inputs@.len(),
            args == inputs@.skip(2),
            forall|k: int|
                0 <= k < i - 2 ==> match #[trigger] args[k] {
                    FnArg::Typed(item) => item.pat is Ident,
                    FnArg::Receiver(_) => true,
                },
        decreases inputs@.len() - i,
    {
        assert(args[i - 2] == inputs@[i as int]);
        if let FnArg::Typed(item) = &inputs[i] {
            if let Pat::Other = &item.pat {
                return false;
            }
        }
        i += 1;
    }
    true
}

impl<'a> MultitestHelpers<'a> {
    /// Tells whether helpers can be made for the implementation `source`.
    pub fn accepts(source: &ItemImpl) -> (r: bool)
        ensures
            r == accepted(source),
    {
        if extract_trait_name(source).is_none() || find_error_type(source).is_none() {
            return false;
        }
        let methods = methods_of_impl(source);
        let mut unread: Vec<SchemaError> = Vec::new();
        let mut i: usize = 0;
        while i < methods.len()
            invariant
                i <= methods@.len(),
                methods@ == impl_methods(source.items@),
                payloads_plain(methods@.take(i as int)),
            decreases methods@.len() - i,
        {
            assert(methods@.take(i + 1).drop_last() =~= methods@.take(i as int));
            let method = methods[i];
            if read_method_attr(method, &mut unread).is_some() {
                if !binds_plainly(&method.sig.inputs) {
                    proof {
                        assert(methods@.take(i + 1).last() == method);
                        assert(!payloads_plain(methods@.take(i + 1)));
                        lemma_payloads_plain_prefix(methods@, i + 1);
                    }
                    return false;
                }
            }
            i += 1;
        }
        assert(methods@.take(i as int) =~= methods@);
        true
    }

    /// Reads what the helpers of the implementation `source` are made
    /// from. The block must be one that helpers can be made for, which
    /// `accepts` tells.
    pub fn new(source: &'a ItemImpl, errors: &mut Vec<SchemaError>) -> (helpers: Self)
        requires
            accepted(source),
        ensures
            findings(final(errors)@) == findings(old(errors)@) + attr_findings(
                impl_methods(source.items@),
            ),
            Some(helpers.trait_name) == trait_name_of(source),
            helpers.error_type == &error_type_of(source.items@)->0.name,
            signatures_stand_for(helpers.messages@, all_messages(impl_methods(source.items@))),
    {
        let methods = methods_of_impl(source);
        let mut messages: Vec<MessageSignature<'a>> = Vec::new();
        let mut i: usize = 0;
        assert(findings(errors@) =~= findings(errors@) + attr_findings(methods@.take(0)));
        while i < methods.len()
            invariant
                i <= methods@.len(),
                signatures_stand_for(messages@, all_messages(methods@.take(i as int))),
                findings(errors@) == findings(old(errors)@) + attr_findings(
                    methods@.take(i as int),
                ),
            decreases methods@.len() - i,
        {
            assert(methods@.take(i + 1).drop_last() =~= methods@.take(i as int));
            let method = methods[i];
            if let Some(attr) = read_method_attr(method, errors) {
                let return_type = match attr {
                    MsgAttr::Query { resp_type: Some(ty) } => ProxyReturn::Answer(ty),
                    MsgAttr::Query { resp_type: None } => match &method.sig.output {
                        Some(output) => ProxyReturn::Answer(extract_return_type(output)),
                        None => ProxyReturn::Nothing,
                    },
                    _ => ProxyReturn::AppResponse,
                };
                messages.push(
                    MessageSignature {
                        name: &method.sig.ident,
                        params: collect_params(&method.sig.inputs),
                        arguments: collect_arguments(&method.sig.inputs),
                        msg_ty: attr.msg_type(),
                        return_type,
                    },
                );
            }
            assert(findings(errors@) =~= findings(old(errors)@) + attr_findings(
                methods@.take(i + 1),
            ));
            i += 1;
        }
        assert(methods@.take(i as int) =~= methods@);
        let trait_name = extract_trait_name(source).unwrap();
        let error_type = &find_error_type(source).unwrap().name;
        MultitestHelpers { trait_name, messages, error_type }
    }

    /// The generated helpers: one for each message, in the module named
    /// after the interface in flat case.
    pub fn emit<'s>(&'s self) -> (defs: ProxyDefs<'s>)
        ensures
            defs.module_name@ == cased(self.trait_name@, Case::Flat),
            defs.methods@.len() == self.messages@.len(),
            forall|i: int|
                0 <= i < defs.methods@.len() ==> {
                    let message = self.messages@[i];
                    &&& (#[trigger] defs.methods@[i]).name == message.name
                    &&& defs.methods@[i].params@ == message.params@
                    &&& defs.methods@[i].arguments@ == message.arguments@
                    &&& defs.methods@[i].executes == (message.msg_ty == MsgType::Exec)
                    &&& defs.methods@[i].return_type == message.return_type
                    &&& defs.methods@[i].error_type == self.error_type
                },
    {
        let module_name = to_case(self.trait_name.as_str(), Case::Flat);
        let mut methods: Vec<ProxyMethod<'s>> = Vec::new();
        let mut i: usize = 0;
        while i < self.messages.len()
            invariant
                i <= self.messages@.len(),
                methods@.len() == i,
                forall|k: int|
                    0 <= k < i ==> {
                        let message = self.messages@[k];
                        &&& (#[trigger] methods@[k]).name == message.name
                        &&& methods@[k].params@ == message.params@
                        &&& methods@[k].arguments@ == message.arguments@
                        &&& methods@[k].executes == (message.msg_ty == MsgType::Exec)
                        &&& methods@[k].return_type == message.return_type
                        &&& methods@[k].error_type == self.error_type
                    },
            decreases self.messages@.len() - i,
        {
            let message = &self.messages[i];
            methods.push(
                ProxyMethod {
                    name: message.name,
                    params: &message.params,
                    arguments: &message.arguments,
                    executes: message.msg_ty == MsgType::Exec,
                    return_type: message.return_type,
                    error_type: self.error_type,
                },
            );
            i += 1;
        }
        ProxyDefs { module_name, methods }
    }
}

} // verus!
