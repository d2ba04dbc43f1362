//! What the attributes on declarations say: the kind of a message, the
//! arguments of an interface or a contract, the interfaces that a contract
//! is composed of.

use crate::error::{finding_at, findings, ErrorKind, SchemaError, SchemaErrorView};
use crate::lexical::same_str;
use crate::schema::{find_attr, first_attr, AttrArgs, Attribute, Method, TypeDesc};
use vstd::prelude::*;

verus! {

/// The kinds of message.
#[derive(Clone, Copy, Debug, PartialEq, Eq, Structural)]
pub enum MsgType {
    Exec,
    Query,
    Instantiate,
    Migrate,
    Reply,
    Sudo,
}

/// The runtime context that a message of some kind is handled in.
#[derive(Clone, Copy, Debug, PartialEq, Eq, Structural)]
pub enum CtxType {
    /// Mutable dependencies, environment and sender information.
    DepsMutEnvInfo,
    /// Mutable dependencies and environment.
    DepsMutEnv,
    /// Read-only dependencies and environment.
    DepsEnv,
}

/// What handling a message returns on success.
#[derive(Debug)]
pub enum ResponseType<'a> {
    /// A response that carries no custom message.
    Response,
    /// A response that may carry messages of the given custom type.
    ResponseOf(&'a TypeDesc),
    /// The encoded answer to a query.
    Binary,
}

/// The result type of a dispatch function.
#[derive(Debug)]
pub struct ResultType<'a> {
    pub ok: ResponseType<'a>,
    pub err: &'a TypeDesc,
}

impl MsgType {
    /// A kind with one message per contract, which becomes a record; the
    /// other kinds become one variant per method.
    pub open spec fn is_single(self) -> bool {
        self == MsgType::Instantiate || self == MsgType::Migrate
    }

    /// The context in which messages of this kind are handled.
    pub open spec fn ctx_type(self) -> CtxType {
        match self {
            MsgType::Exec | MsgType::Instantiate => CtxType::DepsMutEnvInfo,
            MsgType::Migrate | MsgType::Reply | MsgType::Sudo => CtxType::DepsMutEnv,
            MsgType::Query => CtxType::DepsEnv,
        }
    }

    /// The result type of the dispatch function for messages of this kind.
    pub open spec fn result_type<'a>(
        self,
        msg_type: Option<&'a TypeDesc>,
        err_type: &'a TypeDesc,
    ) -> ResultType<'a> {
        ResultType {
            ok: match self {
                MsgType::Query => ResponseType::Binary,
                _ => match msg_type {
                    Some(custom) => ResponseType::ResponseOf(custom),
                    None => ResponseType::Response,
                },
            },
            err: err_type,
        }
    }

    /// The context in which messages of this kind are handled.
    pub fn emit_ctx_type(self) -> (ctx: CtxType)
        ensures
            ctx == self.ctx_type(),
    {
        match self {
            MsgType::Exec | MsgType::Instantiate => CtxType::DepsMutEnvInfo,
            MsgType::Migrate | MsgType::Reply | MsgType::Sudo => CtxType::DepsMutEnv,
            MsgType::Query => CtxType::DepsEnv,
        }
    }

    /// The result type of the dispatch function for messages of this kind:
    /// queries answer with encoded bytes, the others with a response, which
    /// carries the custom message type where one is given.
    pub fn emit_result_type<'a>(self, msg_type: Option<&'a TypeDesc>, err_type: &'a TypeDesc) -> (r:
        ResultType<'a>)
        ensures
            r == self.result_type(msg_type, err_type),
    {
        let ok = match self {
            MsgType::Query => ResponseType::Binary,
            _ => match msg_type {
                Some(custom) => ResponseType::ResponseOf(custom),
                None => ResponseType::Response,
            },
        };
        ResultType { ok, err: err_type }
    }
}

/// The kind of message that the tag of a `msg` attribute names.
pub open spec fn tag_type(tag: Seq<char>) -> Option<MsgType> {
    if tag == "exec"@ {
        Some(MsgType::Exec)
    } else if tag == "query"@ {
        Some(MsgType::Query)
    } else if tag == "instantiate"@ {
        Some(MsgType::Instantiate)
    } else if tag == "migrate"@ {
        Some(MsgType::Migrate)
    } else if tag == "reply"@ {
        Some(MsgType::Reply)
    } else if tag == "sudo"@ {
        Some(MsgType::Sudo)
    } else {
        None
    }
}

/// Reads the tag of a `msg` attribute.
pub fn parse_tag(tag: &str) -> (ty: Option<MsgType>)
    ensures
        ty == tag_type(tag@),
{
    if same_str(tag, "exec") {
        Some(MsgType::Exec)
    } else if same_str(tag, "query") {
        Some(MsgType::Query)
    } else if same_str(tag, "instantiate") {
        Some(MsgType::Instantiate)
    } else if same_str(tag, "migrate") {
        Some(MsgType::Migrate)
    } else if same_str(tag, "reply") {
        Some(MsgType::Reply)
    } else if same_str(tag, "sudo") {
        Some(MsgType::Sudo)
    } else {
        None
    }
}

/// What a `msg` attribute says of its method.
#[derive(Clone, Copy, Debug)]
pub enum MsgAttr<'a> {
    Exec,
    /// A query, with the type of its answer where the attribute names one.
    Query { resp_type: Option<&'a TypeDesc> },
    Instantiate,
    Migrate,
    Reply,
    Sudo,
}

/// What an attribute says as a `msg` attribute, or how it fails to.
pub open spec fn msg_attr_of<'a>(attr: &'a Attribute) -> Result<MsgAttr<'a>, ErrorKind> {
    match &attr.args {
        AttrArgs::Msg { tag, resp } => match tag_type(tag@) {
            None => Err(ErrorKind::InvalidMessageType),
            Some(MsgType::Query) => Ok(
                MsgAttr::Query {
                    resp_type: match resp {
                        Some(ty) => Some(ty),
                        None => None,
                    },
                },
            ),
            Some(ty) => if resp is Some {
                Err(ErrorKind::InvalidArgument)
            } else {
                Ok(
                    match ty {
                        MsgType::Exec => MsgAttr::Exec,
                        MsgType::Instantiate => MsgAttr::Instantiate,
                        MsgType::Migrate => MsgAttr::Migrate,
                        MsgType::Reply => MsgAttr::Reply,
                        _ => MsgAttr::Sudo,
                    },
                )
            },
        },
        _ => Err(ErrorKind::InvalidArgument),
    }
}

impl<'a> MsgAttr<'a> {
    /// The kind of message that the attribute marks.
    pub open spec fn kind(self) -> MsgType {
        match self {
            MsgAttr::Exec => MsgType::Exec,
            MsgAttr::Query { .. } => MsgType::Query,
            MsgAttr::Instantiate => MsgType::Instantiate,
            MsgAttr::Migrate => MsgType::Migrate,
            MsgAttr::Reply => MsgType::Reply,
            MsgAttr::Sudo => MsgType::Sudo,
        }
    }

    /// The kind of message that the attribute marks.
    pub fn msg_type(&self) -> (ty: MsgType)
        ensures
            ty == self.kind(),
    {
        match self {
            MsgAttr::Exec => MsgType::Exec,
            MsgAttr::Query { .. } => MsgType::Query,
            MsgAttr::Instantiate => MsgType::Instantiate,
            MsgAttr::Migrate => MsgType::Migrate,
            MsgAttr::Reply => MsgType::Reply,
            MsgAttr::Sudo => MsgType::Sudo,
        }
    }

    /// Reads a `msg` attribute. The tag must name a kind of message, and
    /// only a query takes an answer type.
    pub fn parse(attr: &'a Attribute) -> (r: Result<MsgAttr<'a>, SchemaError>)
        ensures
            match r {
                Ok(read) => msg_attr_of(attr) == Ok::<MsgAttr<'a>, ErrorKind>(read),
                Err(error) => msg_attr_of(attr) is Err && error@ == finding_at(
                    msg_attr_of(attr)->Err_0,
                    attr.span,
                ),
            },
    {
        match &attr.args {
            AttrArgs::Msg { tag, resp } => match parse_tag(tag.as_str()) {
                None => Err(SchemaError::at(ErrorKind::InvalidMessageType, attr.span)),
                Some(MsgType::Query) => Ok(
                    MsgAttr::Query {
                        resp_type: match resp {
                            Some(ty) => Some(ty),
                            None => None,
                        },
                    },
                ),
                Some(ty) => if resp.is_some() {
                    Err(SchemaError::at(ErrorKind::InvalidArgument, attr.span))
                } else {
                    Ok(
                        match ty {
                            MsgType::Exec => MsgAttr::Exec,
                            MsgType::Instantiate => MsgAttr::Instantiate,
                            MsgType::Migrate => MsgAttr::Migrate,
                            MsgType::Reply => MsgAttr::Reply,
                            _ => MsgAttr::Sudo,
                        },
                    )
                },
            },
            _ => Err(SchemaError::at(ErrorKind::InvalidArgument, attr.span)),
        }
    }
}

/// What the `msg` attribute of a method says: `None` where the method has
/// none, else what the first one says or how it fails to.
pub open spec fn method_attr<'a>(method: &'a Method) -> Option<Result<MsgAttr<'a>, ErrorKind>> {
    match first_attr(method.attrs@, "msg"@) {
        Some(at) => Some(msg_attr_of(&method.attrs@[at])),
        None => None,
    }
}

/// The method is a message of the kind `ty`.
pub open spec fn is_message(method: &Method, ty: MsgType) -> bool {
    match method_attr(method) {
        Some(Ok(attr)) => attr.kind() == ty,
        _ => false,
    }
}

/// What reading the `msg` attribute of a method finds wrong, at the method.
pub open spec fn method_findings(method: &Method) -> Seq<SchemaErrorView> {
    match method_attr(method) {
        Some(Err(kind)) => seq![finding_at(kind, method.span)],
        _ => Seq::empty(),
    }
}

/// Reads the `msg` attribute of a method. Where it cannot be read, the
/// finding is put down and the method counts as no message.
pub fn read_method_attr<'a>(method: &'a Method, errors: &mut Vec<SchemaError>) -> (attr: Option<
    MsgAttr<'a>,
>)
    ensures
        match method_attr(method) {
            Some(Ok(read)) => attr == Some(read),
            _ => attr is None,
        },
        findings(final(errors)@) == findings(old(errors)@) + method_findings(method),
{
    let found = find_attr(&method.attrs, "msg");
    match found {
        None => {
            assert(findings(errors@) =~= findings(errors@) + method_findings(method));
            None
        },
        Some(msg_attr) => match MsgAttr::parse(msg_attr) {
            Ok(read) => {
                assert(findings(errors@) =~= findings(errors@) + method_findings(method));
                Some(read)
            },
            Err(error) => {
                let ghost before = errors@;
                let at_method = SchemaError::at(error.kind, method.span);
                errors.push(at_method);
                assert(findings(errors@) =~= findings(before) + method_findings(method));
                None
            },
        },
    }
}

/// The arguments of an interface declaration.
#[derive(Debug)]
pub struct InterfaceArgs {
    /// The module that the generated items go to, where one is named.
    pub module: Option<String>,
    /// The custom message type of responses, where one is named.
    pub msg_type: Option<TypeDesc>,
}

/// The arguments of a contract declaration.
#[derive(Debug)]
pub struct ContractArgs {
    /// The module that the generated items go to, where one is named.
    pub module: Option<String>,
    /// The error type of the contract.
    pub error: TypeDesc,
}

/// The custom types of the chain that an interface or a contract is for.
#[derive(Debug)]
pub struct Custom {
    pub msg: Option<TypeDesc>,
    pub query: Option<TypeDesc>,
}

/// The type of the custom queries of the chain.
#[derive(Clone, Copy, Debug)]
pub enum CustomQuery<'a> {
    /// The chain has no custom queries.
    Empty,
    Given(&'a TypeDesc),
}

impl Custom {
    /// The type of the custom queries: the one given, or else that of a
    /// chain without custom queries.
    pub fn query_or_default(&self) -> (query: CustomQuery<'_>)
        ensures
            match &self.query {
                Some(ty) => query == CustomQuery::Given(ty),
                None => query is Empty,
            },
    {
        match &self.query {
            Some(ty) => CustomQuery::Given(ty),
            None => CustomQuery::Empty,
        }
    }
}

/// An interface that a contract is composed of.
#[derive(Clone, Copy, Debug)]
pub struct ContractMessageAttr<'a> {
    /// The module in which the interface's messages stand.
    pub module: &'a String,
    pub exec_generic_params: &'a Vec<String>,
    pub query_generic_params: &'a Vec<String>,
    /// The name of the interface's variant in the contract's entry points.
    pub variant: &'a String,
}

/// What an attribute says as a `messages` attribute.
pub open spec fn messages_attr_of<'a>(attr: &'a Attribute) -> Option<ContractMessageAttr<'a>> {
    match &attr.args {
        AttrArgs::Messages { module, exec_generic_params, query_generic_params, variant } => Some(
            ContractMessageAttr { module, exec_generic_params, query_generic_params, variant },
        ),
        _ => None,
    }
}

impl<'a> ContractMessageAttr<'a> {
    /// Reads a `messages` attribute.
    pub fn parse(attr: &'a Attribute) -> (r: Result<ContractMessageAttr<'a>, SchemaError>)
        ensures
            match r {
                Ok(read) => messages_attr_of(attr) == Some(read),
                Err(error) => messages_attr_of(attr) is None && error@ == finding_at(
                    ErrorKind::InvalidMessages,
                    attr.span,
                ),
            },
    {
        match &attr.args {
            AttrArgs::Messages { module, exec_generic_params, query_generic_params, variant } => Ok(
                ContractMessageAttr { module, exec_generic_params, query_generic_params, variant },
            ),
            _ => Err(SchemaError::at(ErrorKind::InvalidMessages, attr.span)),
        }
    }
}

} // verus!
