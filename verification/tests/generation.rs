use sylvia_core::api::Api;
use sylvia_core::associated_types::{AssociatedTypes, EmitAssociated, ImplAssociatedTypes, ItemType};
use sylvia_core::casing::{variant_name, wire_name_of};
use sylvia_core::check_generics::CheckGenerics;
use sylvia_core::error::{ErrorKind, SchemaError};
use sylvia_core::input::{ImplInput, TraitInput};
use sylvia_core::message::{
    extract_return_type, strip_generics, DispatchResult, EnumMessage, Forwarding, GlueMessage,
    ImplMsgVariant, MsgField, MsgVariant, Receiver, StructMessage,
};
use sylvia_core::multitest::{MultitestHelpers, ProxyReturn};
use sylvia_core::parser::{
    parse_tag, ContractArgs, ContractMessageAttr, CtxType, Custom, CustomQuery, InterfaceArgs,
    MsgAttr, MsgType, ResponseType,
};
use sylvia_core::schema::{
    AttrArgs, Attribute, FnArg, GenericParam, ImplItem, ImplItemType, ItemImpl, ItemTrait, Method,
    Pat, PatType, Signature, Span, TraitItem, TraitItemType, TypeDesc, WherePredicate,
};

fn span(at: usize) -> Span {
    Span { start: at, end: at + 1 }
}

fn ty(name: &str) -> TypeDesc {
    TypeDesc::path(name)
}

fn arg(name: &str, ty: TypeDesc) -> FnArg {
    FnArg::Typed(PatType { pat: Pat::Ident(name.to_owned()), ty, span: span(0) })
}

fn msg_attr(tag: &str, resp: Option<TypeDesc>, at: usize) -> Attribute {
    Attribute {
        path: "msg".to_owned(),
        args: AttrArgs::Msg { tag: tag.to_owned(), resp },
        span: span(at),
    }
}

fn method(tag: &str, name: &str, args: Vec<FnArg>, output: Option<TypeDesc>, at: usize) -> Method {
    let mut inputs = vec![FnArg::Receiver(span(at)), arg("ctx", ty("Ctx"))];
    inputs.extend(args);
    Method {
        attrs: vec![msg_attr(tag, None, at)],
        sig: Signature { ident: name.to_owned(), inputs, output },
        span: span(at),
    }
}

fn result_of(ok: TypeDesc) -> Option<TypeDesc> {
    Some(TypeDesc::applied("Result", vec![ok, ty("Self::Error")]))
}

fn error_type() -> TraitItem {
    TraitItem::Type(TraitItemType {
        ident: "Error".to_owned(),
        bounds: vec![TypeDesc::applied("From", vec![ty("StdError")])],
        span: span(1),
    })
}

fn interface(name: &str, generics: Vec<GenericParam>, items: Vec<TraitItem>) -> ItemTrait {
    ItemTrait { ident: name.to_owned(), generics, where_clause: None, items, span: span(100) }
}

fn contract(name: &str, attrs: Vec<Attribute>, items: Vec<ImplItem>) -> ItemImpl {
    ItemImpl {
        attrs,
        generics: vec![],
        where_clause: None,
        trait_: None,
        self_ty: ty(name),
        items,
        span: span(200),
    }
}

fn generic(name: &str) -> GenericParam {
    GenericParam { ident: name.to_owned(), bounds: vec![] }
}

fn no_args() -> InterfaceArgs {
    InterfaceArgs { module: None, msg_type: None }
}

fn kinds(errors: &[SchemaError]) -> Vec<ErrorKind> {
    errors.iter().map(|error| error.kind).collect()
}

fn test_interface() -> ItemTrait {
    interface(
        "Interface",
        vec![],
        vec![
            error_type(),
            TraitItem::Method(method("exec", "no_args_execution", vec![], result_of(ty("Response")), 2)),
            TraitItem::Method(method(
                "exec",
                "argumented_execution",
                vec![arg("addr", ty("Addr")), arg("coef", ty("Decimal")), arg("desc", ty("String"))],
                result_of(ty("Response")),
                3,
            )),
            TraitItem::Method(method("query", "no_args_query", vec![], result_of(ty("QueryResult")), 4)),
            TraitItem::Method(method(
                "query",
                "argumented_query",
                vec![arg("user", ty("Addr"))],
                result_of(ty("QueryResult")),
                5,
            )),
        ],
    )
}

#[test]
fn messages_constructible() {
    let item = test_interface();
    let args = no_args();
    let mut errors = Vec::new();
    let input = TraitInput::new(&args, &item, &mut errors);
    let messages = input.process(&mut errors);
    let defs = messages.emit(&mut errors);
    assert!(errors.is_empty());

    let no_args_exec = &defs.execute.variants[0];
    assert_eq!(no_args_exec.name, "NoArgsExecution");
    assert!(no_args_exec.fields.is_empty());
    let argumented_exec = &defs.execute.variants[1];
    assert_eq!(argumented_exec.name, "ArgumentedExecution");
    let fields: Vec<(&str, &str)> = argumented_exec
        .fields
        .iter()
        .map(|field| (field.name.as_str(), field.ty.name.as_str()))
        .collect();
    assert_eq!(fields, vec![("addr", "Addr"), ("coef", "Decimal"), ("desc", "String")]);
    let no_args_query = &defs.query.variants[0];
    assert_eq!(no_args_query.name, "NoArgsQuery");
    assert!(no_args_query.fields.is_empty());
    let argumented_query = &defs.query.variants[1];
    assert_eq!(argumented_query.name, "ArgumentedQuery");
    assert_eq!(argumented_query.fields.len(), 1);
    assert_eq!(argumented_query.fields[0].name, "user");

    // Ensure no extra variants are generated
    assert_eq!(defs.execute.variants.len(), 2);
    assert_eq!(defs.query.variants.len(), 2);

    let sent = sylvia_core::wire::Message {
        variant: 1,
        fields: vec![
            sylvia_core::wire::Value::Text("owner".to_owned()),
            sylvia_core::wire::Value::Number("10".to_owned()),
            sylvia_core::wire::Value::Text("Some description".to_owned()),
        ],
    };
    assert!(defs.execute.encode(sent).is_some());
    let asked = sylvia_core::wire::Message {
        variant: 1,
        fields: vec![sylvia_core::wire::Value::Text("owner".to_owned())],
    };
    assert!(defs.query.encode(asked).is_some());
}

#[test]
fn enum_has_one_variant_per_method_with_wire_names() {
    let item = test_interface();
    let args = no_args();
    let mut errors = Vec::new();
    let input = TraitInput::new(&args, &item, &mut errors);
    let messages = input.process(&mut errors);
    let defs = messages.emit(&mut errors);
    assert_eq!(defs.execute.name, "ExecMsg");
    assert_eq!(defs.query.name, "QueryMsg");
    assert_eq!(defs.execute.messages(), vec!["no_args_execution", "argumented_execution"]);
    assert_eq!(defs.query.messages(), vec!["no_args_query", "argumented_query"]);
    assert_eq!(defs.execute.legs.len(), 2);
    assert_eq!(defs.execute.legs[1].function_name, "argumented_execution");
    assert_eq!(defs.execute.legs[1].variant, "ArgumentedExecution");
    let args: Vec<&str> = defs.execute.legs[1].args.iter().map(|arg| arg.as_str()).collect();
    assert_eq!(args, vec!["addr", "coef", "desc"]);
    assert_eq!(defs.execute.legs[1].forwarding, Forwarding::MapErr);
    assert_eq!(defs.query.legs[0].forwarding, Forwarding::EncodeThenMapErr);
    assert_eq!(defs.execute.dispatch.ctx, CtxType::DepsMutEnvInfo);
    assert_eq!(defs.query.dispatch.ctx, CtxType::DepsEnv);
    match &defs.execute.dispatch.receiver {
        Receiver::Implementor { interface, generics } => {
            assert_eq!(*interface, "Interface");
            assert!(generics.is_empty());
        }
        Receiver::Contract(_) => panic!("an interface is handled by its implementor"),
    }
    match &defs.query.dispatch.result {
        DispatchResult::Built(result) => {
            assert!(matches!(result.ok, ResponseType::Binary));
            assert_eq!(result.err.name, "C::Error");
        }
        DispatchResult::AsDeclared(_) => panic!("an enum builds its result type"),
    }
    match &defs.execute.dispatch.result {
        DispatchResult::Built(result) => assert!(matches!(result.ok, ResponseType::Response)),
        DispatchResult::AsDeclared(_) => panic!("an enum builds its result type"),
    }
}

#[test]
fn names_are_cased() {
    assert_eq!(variant_name("transfer_owner"), "TransferOwner");
    assert_eq!(wire_name_of("TransferOwner"), "transfer_owner");
    assert_eq!(variant_name("pause"), "Pause");
    assert_eq!(wire_name_of("NoArgsExecution"), "no_args_execution");
}

#[test]
fn tags_name_the_kinds() {
    assert_eq!(parse_tag("exec"), Some(MsgType::Exec));
    assert_eq!(parse_tag("query"), Some(MsgType::Query));
    assert_eq!(parse_tag("instantiate"), Some(MsgType::Instantiate));
    assert_eq!(parse_tag("migrate"), Some(MsgType::Migrate));
    assert_eq!(parse_tag("reply"), Some(MsgType::Reply));
    assert_eq!(parse_tag("sudo"), Some(MsgType::Sudo));
    assert_eq!(parse_tag("execute"), None);
    assert_eq!(MsgType::Sudo.emit_ctx_type(), CtxType::DepsMutEnv);
    assert_eq!(MsgType::Migrate.emit_ctx_type(), CtxType::DepsMutEnv);
    assert_eq!(MsgType::Instantiate.emit_ctx_type(), CtxType::DepsMutEnvInfo);
}

#[test]
fn unknown_tag_is_reported_at_the_method() {
    let item = interface(
        "Broken",
        vec![],
        vec![error_type(), TraitItem::Method(method("execute", "run", vec![], None, 7))],
    );
    let args = no_args();
    let mut errors = Vec::new();
    let input = TraitInput::new(&args, &item, &mut errors);
    let messages = input.process(&mut errors);
    assert!(messages.execute.variants.is_empty());
    assert_eq!(kinds(&errors), vec![ErrorKind::InvalidMessageType]);
    assert_eq!(errors[0].span, span(7));
    assert_eq!(
        errors[0].message(),
        "Invalid message type, expected one of: `exec`, `query`, `instantiate`, `migrate`, `reply`, `sudo`"
    );
}

#[test]
fn answer_type_is_for_queries_only() {
    let attr = msg_attr("exec", Some(ty("Answer")), 3);
    let error = MsgAttr::parse(&attr).unwrap_err();
    assert_eq!(error.kind, ErrorKind::InvalidArgument);
    assert_eq!(error.span, span(3));
    let attr = msg_attr("query", Some(ty("Answer")), 3);
    match MsgAttr::parse(&attr).unwrap() {
        MsgAttr::Query { resp_type: Some(resp) } => assert_eq!(resp.name, "Answer"),
        _ => panic!("a query with its answer type"),
    }
    let other = Attribute { path: "msg".to_owned(), args: AttrArgs::Other, span: span(4) };
    assert_eq!(MsgAttr::parse(&other).unwrap_err().kind, ErrorKind::InvalidArgument);
    assert_eq!(MsgAttr::parse(&msg_attr("reply", None, 0)).unwrap().msg_type(), MsgType::Reply);
}

#[test]
fn interface_without_error_type_is_rejected() {
    let item = interface("Bare", vec![], vec![]);
    let args = no_args();
    let mut errors = Vec::new();
    let _ = TraitInput::new(&args, &item, &mut errors);
    assert_eq!(kinds(&errors), vec![ErrorKind::MissingErrorType]);
    assert_eq!(errors[0].span, span(100));
    assert_eq!(errors[0].message(), "Missing `Error` type defined for trait.");
}

#[test]
fn self_and_pattern_arguments_are_no_fields() {
    let mut run = method("exec", "run", vec![arg("first", ty("u8"))], None, 2);
    run.sig.inputs.push(FnArg::Receiver(span(11)));
    run.sig.inputs.push(FnArg::Typed(PatType { pat: Pat::Other, ty: ty("Data"), span: span(12) }));
    run.sig.inputs.push(arg("last", ty("u16")));
    let generics: Vec<&GenericParam> = vec![];
    let mut checker = CheckGenerics::new(&generics);
    let mut errors = Vec::new();
    let variant = MsgVariant::new(&run, MsgAttr::Exec, &mut checker, &mut errors);
    let names: Vec<&str> = variant.fields.iter().map(|field| field.name().as_str()).collect();
    assert_eq!(names, vec!["first", "last"]);
    assert_eq!(kinds(&errors), vec![ErrorKind::UnexpectedSelf, ErrorKind::PatternArgument]);
    assert_eq!(errors[0].span, span(11));
    assert_eq!(errors[1].span, span(12));
    assert!(variant.return_type.is_none());
    let same = ImplMsgVariant::new(&run, MsgAttr::Exec, &mut checker, &mut errors);
    assert_eq!(same.name, "Run");
    let pattern = PatType { pat: Pat::Other, ty: ty("Data"), span: span(13) };
    assert!(MsgField::new(&pattern, &mut checker, &mut errors).is_none());
    assert_eq!(errors.last().unwrap().span, span(13));
}

fn whitelist() -> ItemImpl {
    contract(
        "Cw1WhitelistContract",
        vec![],
        vec![
            ImplItem::Other,
            ImplItem::Method(method(
                "instantiate",
                "instantiate",
                vec![arg("members", TypeDesc::applied("Vec", vec![ty("String")]))],
                Some(TypeDesc::applied("Result", vec![ty("Response"), ty("ContractError")])),
                9,
            )),
        ],
    )
}

#[test]
fn instantiation_becomes_one_record() {
    let item = whitelist();
    let args = ContractArgs { module: None, error: ty("ContractError") };
    let mut errors = Vec::new();
    let input = ImplInput::new(&args, &item);
    let messages = input.process(&mut errors);
    let defs = messages.emit(&mut errors);
    assert!(errors.is_empty());
    let record = defs.instantiate.as_ref().unwrap();
    assert_eq!(record.name, "InstantiateMsg");
    assert_eq!(record.fields.len(), 1);
    assert_eq!(record.fields[0].name, "members");
    assert_eq!(record.fields[0].ty.name, "Vec");
    assert_eq!(record.fields[0].ty.args[0].name, "String");
    assert_eq!(record.function_name, "instantiate");
    assert_eq!(record.args.len(), 1);
    assert_eq!(record.dispatch.ctx, CtxType::DepsMutEnvInfo);
    assert!(matches!(record.dispatch.receiver, Receiver::Contract(contract) if contract.name == "Cw1WhitelistContract"));
    assert!(matches!(record.dispatch.result, DispatchResult::AsDeclared(Some(result)) if result.name == "Result"));
    assert!(defs.migrate.is_none());
    assert!(defs.exec_impl.variants.is_empty());
    assert_eq!(defs.reply.name, "ReplyMsg");
    assert!(defs.execute.variants.is_empty());
}

#[test]
fn contract_without_instantiation_fails() {
    let item = contract("Empty", vec![], vec![]);
    let args = ContractArgs { module: None, error: ty("ContractError") };
    let mut errors = Vec::new();
    let input = ImplInput::new(&args, &item);
    let messages = input.process(&mut errors);
    assert!(messages.instantiate.is_none());
    assert_eq!(kinds(&errors), vec![ErrorKind::NoInstantiation]);
    assert_eq!(errors[0].span, span(200));
    assert_eq!(errors[0].message(), "No instantiation message");
}

#[test]
fn second_instantiation_fails_and_points_at_the_first() {
    let item = contract(
        "Twice",
        vec![],
        vec![
            ImplItem::Method(method("instantiate", "first", vec![arg("a", ty("u8"))], None, 20)),
            ImplItem::Method(method("instantiate", "second", vec![arg("b", ty("u8"))], None, 30)),
        ],
    );
    let generics: Vec<&GenericParam> = vec![];
    let mut errors = Vec::new();
    let message = StructMessage::new(&item, MsgType::Instantiate, &generics, &mut errors);
    assert!(message.is_none());
    assert_eq!(kinds(&errors), vec![ErrorKind::DuplicateMessage]);
    assert_eq!(errors[0].span, span(30));
    assert_eq!(errors[0].note, Some(span(20)));
    assert_eq!(errors[0].message(), "More than one message of a kind that allows one");
    let args = ContractArgs { module: None, error: ty("ContractError") };
    let mut errors = Vec::new();
    let input = ImplInput::new(&args, &item);
    let messages = input.process(&mut errors);
    assert_eq!(kinds(&errors), vec![ErrorKind::DuplicateMessage]);
    assert!(messages.instantiate.is_none());
    let defs = messages.emit(&mut errors);
    assert!(defs.instantiate.is_none());
}

#[test]
fn a_pattern_argument_of_the_one_instantiation_is_reported() {
    let mut init = method("instantiate", "init", vec![arg("a", ty("u8"))], None, 20);
    init.sig.inputs.push(FnArg::Typed(PatType { pat: Pat::Other, ty: ty("Data"), span: span(21) }));
    let item = contract("Once", vec![], vec![ImplItem::Method(init)]);
    let generics: Vec<&GenericParam> = vec![];
    let mut errors = Vec::new();
    let message = StructMessage::new(&item, MsgType::Instantiate, &generics, &mut errors).unwrap();
    assert_eq!(message.function_name, "init");
    assert_eq!(message.fields.len(), 1);
    assert_eq!(kinds(&errors), vec![ErrorKind::PatternArgument]);
}

#[test]
fn migration_is_optional_and_named() {
    let mut item = whitelist();
    item.items.push(ImplItem::Method(method("migrate", "migrate", vec![arg("to", ty("u64"))], None, 40)));
    let generics: Vec<&GenericParam> = vec![];
    let mut errors = Vec::new();
    let message = StructMessage::new(&item, MsgType::Migrate, &generics, &mut errors).unwrap();
    let def = message.emit(&mut errors).unwrap();
    assert_eq!(def.name, "MigrateMsg");
    assert_eq!(def.dispatch.ctx, CtxType::DepsMutEnv);
    assert_eq!(message.emit_struct("Other").name, "Other");
    assert!(errors.is_empty());
    let mut errors = Vec::new();
    let bare = contract("Bare", vec![], vec![]);
    let none = StructMessage::new(&bare, MsgType::Migrate, &generics, &mut errors);
    assert!(none.is_none());
    assert!(errors.is_empty());
}

#[test]
fn record_of_another_kind_is_invalid() {
    let item = contract(
        "Odd",
        vec![],
        vec![ImplItem::Method(method("exec", "run", vec![], None, 50))],
    );
    let generics: Vec<&GenericParam> = vec![];
    let mut errors = Vec::new();
    let message = StructMessage::new(&item, MsgType::Exec, &generics, &mut errors).unwrap();
    assert!(message.emit(&mut errors).is_none());
    assert_eq!(kinds(&errors), vec![ErrorKind::InvalidMessageType]);
    assert_eq!(errors[0].span, span(50));
}

#[test]
fn instantiation_on_an_interface_has_no_dispatch() {
    let item = interface(
        "Wrong",
        vec![],
        vec![error_type(), TraitItem::Method(method("instantiate", "init", vec![], None, 60))],
    );
    let args = no_args();
    let name = "InitMsg".to_owned();
    let generics: Vec<&GenericParam> = vec![];
    let mut errors = Vec::new();
    let message = EnumMessage::new(&name, &item, MsgType::Instantiate, &generics, &args, &mut errors);
    let def = message.emit(&mut errors);
    assert_eq!(def.variants.len(), 1);
    assert!(def.legs.is_empty());
    assert_eq!(kinds(&errors), vec![ErrorKind::NotOnInterface]);
    assert_eq!(errors[0].span, span(60));
}

fn generic_interface() -> ItemTrait {
    let mut item = interface(
        "Cw1",
        vec![generic("A"), generic("B")],
        vec![
            error_type(),
            TraitItem::Method(method(
                "exec",
                "execute",
                vec![arg("msgs", TypeDesc::applied("Vec", vec![TypeDesc::applied("CosmosMsg", vec![ty("A")])]))],
                result_of(ty("Response")),
                2,
            )),
            TraitItem::Method(method("query", "find", vec![arg("key", ty("B"))], result_of(ty("A")), 3)),
        ],
    );
    item.where_clause = Some(vec![
        WherePredicate { bounded_ty: ty("A"), bounds: vec![ty("Clone")] },
        WherePredicate { bounded_ty: ty("B"), bounds: vec![ty("Debug")] },
        WherePredicate { bounded_ty: ty("A"), bounds: vec![TypeDesc::applied("Into", vec![ty("B")])] },
        WherePredicate { bounded_ty: ty("String"), bounds: vec![ty("Sized")] },
    ]);
    item
}

#[test]
fn only_used_placeholders_and_their_predicates_stay() {
    let item = generic_interface();
    let args = no_args();
    let mut errors = Vec::new();
    let input = TraitInput::new(&args, &item, &mut errors);
    let messages = input.process(&mut errors);
    let used: Vec<&str> = messages.execute.generics.iter().map(|g| g.ident.as_str()).collect();
    assert_eq!(used, vec!["A"]);
    let unused: Vec<&str> =
        messages.execute.unused_generics.iter().map(|g| g.ident.as_str()).collect();
    assert_eq!(unused, vec!["B"]);
    let kept: Vec<(&str, &str)> = messages
        .execute
        .wheres
        .iter()
        .map(|pred| (pred.bounded_ty.name.as_str(), pred.bounds[0].name.as_str()))
        .collect();
    assert_eq!(kept, vec![("A", "Clone"), ("String", "Sized")]);
    assert_eq!(messages.execute.all_generics.len(), 2);
    assert_eq!(messages.execute.full_where.as_ref().unwrap().len(), 4);

    // a query holds on to the type of its answer as well
    let used: Vec<&str> = messages.query.generics.iter().map(|g| g.ident.as_str()).collect();
    assert_eq!(used, vec!["A", "B"]);
    assert_eq!(messages.query.wheres.len(), 4);
    assert_eq!(messages.query.variants[0].return_type.unwrap().name, "A");
    assert!(errors.is_empty());
}

#[test]
fn checker_sorts_placeholders_by_use() {
    let a = generic("A");
    let b = generic("B");
    let c = generic("C");
    let generics = vec![&a, &b, &c];
    let mut checker = CheckGenerics::new(&generics);
    checker.visit_type(&TypeDesc::applied("Map", vec![ty("C"), ty("module::B")]));
    checker.visit_types(&vec![ty("String"), TypeDesc::applied("A", vec![ty("u8")])]);
    assert!(!checker.is_used(0));
    assert!(!checker.is_used(1));
    assert!(checker.is_used(2));
    let (used, unused) = checker.used_unused();
    assert_eq!(used.iter().map(|g| g.ident.as_str()).collect::<Vec<_>>(), vec!["C"]);
    assert_eq!(unused.iter().map(|g| g.ident.as_str()).collect::<Vec<_>>(), vec!["A", "B"]);
    let mut checker = CheckGenerics::new(&generics);
    checker.visit_type(&ty("A"));
    assert_eq!(checker.used().len(), 1);
    assert!(ty("A").uses("A"));
    assert!(!TypeDesc::applied("A", vec![ty("B")]).uses("A"));
    assert!(WherePredicate { bounded_ty: ty("T"), bounds: vec![ty("A")] }.uses("A"));
}

#[test]
fn answer_type_is_the_first_argument_of_the_result() {
    let result = TypeDesc::applied("Result", vec![ty("Answer"), ty("Error")]);
    assert_eq!(extract_return_type(&result).name, "Answer");
    let plain = ty("Answer");
    assert_eq!(extract_return_type(&plain).name, "Answer");
    let stripped = strip_generics(&TypeDesc::applied("Contract", vec![ty("T")]));
    assert_eq!(stripped.name, "Contract");
    assert!(stripped.args.is_empty());
}

fn messages_attr(module: &str, variant: &str, at: usize) -> Attribute {
    Attribute {
        path: "messages".to_owned(),
        args: AttrArgs::Messages {
            module: module.to_owned(),
            exec_generic_params: vec!["ExecT".to_owned()],
            query_generic_params: vec![],
            variant: variant.to_owned(),
        },
        span: span(at),
    }
}

#[test]
fn entry_point_has_one_variant_per_interface() {
    let item = contract(
        "Registry",
        vec![
            messages_attr("ownable", "Ownable", 1),
            Attribute { path: "doc".to_owned(), args: AttrArgs::Other, span: span(2) },
            Attribute { path: "messages".to_owned(), args: AttrArgs::Other, span: span(3) },
            messages_attr("pausable", "Pausable", 4),
        ],
        vec![],
    );
    let name = "ExecMsg".to_owned();
    let error = ty("ContractError");
    let mut errors = Vec::new();
    let glue = GlueMessage::new(&name, &item, MsgType::Exec, &error, &mut errors);
    assert_eq!(kinds(&errors), vec![ErrorKind::InvalidMessages]);
    assert_eq!(errors[0].span, span(3));
    assert!(!glue.own);
    let def = glue.emit();
    assert!(def.own.is_none());
    let variants: Vec<(&str, &str, &str)> = def
        .variants
        .iter()
        .map(|v| (v.variant.as_str(), v.module.as_str(), v.message.as_str()))
        .collect();
    assert_eq!(
        variants,
        vec![("Ownable", "ownable", "ExecMsg"), ("Pausable", "pausable", "ExecMsg")]
    );
    assert_eq!(def.variants[0].generics.unwrap(), &vec!["ExecT".to_owned()]);
    let bindings: Vec<(&str, &str)> =
        def.attempts.iter().map(|a| (a.variant.as_str(), a.binding.as_str())).collect();
    assert_eq!(bindings, vec![("Ownable", "ownable"), ("Pausable", "pausable")]);
    assert_eq!(def.contract.name, "Registry");
    assert_eq!(def.ctx, CtxType::DepsMutEnvInfo);
    assert!(matches!(def.result.ok, ResponseType::Response));
    assert_eq!(def.result.err.name, "ContractError");
    let queries = GlueMessage::new(&name, &item, MsgType::Query, &error, &mut errors);
    let query = queries.emit();
    assert!(query.variants[0].generics.unwrap().is_empty());
    assert!(matches!(query.result.ok, ResponseType::Binary));
    let parsed = ContractMessageAttr::parse(&item.attrs[0]).unwrap();
    assert_eq!(parsed.variant, "Ownable");
}

#[test]
fn entry_point_has_a_last_variant_for_the_contract_itself() {
    let item = contract(
        "Registry",
        vec![messages_attr("ownable", "Ownable", 1)],
        vec![
            ImplItem::Method(method("instantiate", "instantiate", vec![], None, 2)),
            ImplItem::Method(method("exec", "register", vec![arg("name", ty("String"))], None, 3)),
        ],
    );
    let name = "ExecMsg".to_owned();
    let error = ty("ContractError");
    let mut errors = Vec::new();
    let glue = GlueMessage::new(&name, &item, MsgType::Exec, &error, &mut errors);
    assert!(errors.is_empty());
    assert!(glue.own);
    let def = glue.emit();
    assert_eq!(def.variants.len(), 1);
    let own = def.own.unwrap();
    assert_eq!(own.variant, "Registry");
    assert_eq!(own.message, "ExecMsg");
    let bindings: Vec<(&str, &str)> =
        def.attempts.iter().map(|a| (a.variant.as_str(), a.binding.as_str())).collect();
    assert_eq!(bindings, vec![("Ownable", "ownable"), ("Registry", "registry")]);

    let queries = GlueMessage::new(&name, &item, MsgType::Query, &error, &mut errors);
    assert!(!queries.own);
    assert_eq!(queries.emit().attempts.len(), 1);
    let records = GlueMessage::new(&name, &item, MsgType::Instantiate, &error, &mut errors);
    assert!(!records.own);
}

#[test]
fn result_type_carries_the_custom_message() {
    let custom = ty("Custom");
    let error = ty("Error");
    let result = MsgType::Exec.emit_result_type(Some(&custom), &error);
    assert!(matches!(result.ok, ResponseType::ResponseOf(inner) if inner.name == "Custom"));
    let result = MsgType::Query.emit_result_type(Some(&custom), &error);
    assert!(matches!(result.ok, ResponseType::Binary));
}

fn associated(name: &str) -> TraitItem {
    TraitItem::Type(TraitItemType { ident: name.to_owned(), bounds: vec![ty("CustomMsg")], span: span(0) })
}

#[test]
fn associated_types_are_filtered_by_name() {
    let item = interface(
        "Generic",
        vec![],
        vec![error_type(), associated("ExecT"), associated("QueryC"), associated("QueryT"), associated("ExecC")],
    );
    let types = AssociatedTypes::new(&item);
    assert_eq!(types.0.len(), 5);
    let names: Vec<&str> = types.without_error().iter().map(|t| t.ident.as_str()).collect();
    assert_eq!(names, vec!["ExecT", "QueryC", "QueryT", "ExecC"]);
    let names: Vec<&str> = types.without_special().iter().map(|t| t.ident.as_str()).collect();
    assert_eq!(names, vec!["ExecT", "QueryT"]);
    assert_eq!(types.filtered().len(), 2);
    assert_eq!(types.as_types_declaration().len(), 2);
    assert_eq!(types.as_names(), vec!["ExecT", "QueryT"]);
    let predicates = types.as_where_predicates();
    assert_eq!(predicates[1].name, "QueryT");
    assert_eq!(predicates[1].bounds[0].name, "CustomMsg");
    assert_eq!(types.as_where_clause().unwrap().len(), 2);
    let definitions = types.emit_types_definition();
    assert_eq!(definitions[0].name, "ExecT");
    assert_eq!(definitions[0].value.unwrap(), "ExecT");
    let trait_name = "Generic".to_owned();
    let predicate = types.emit_contract_predicate(&trait_name);
    assert_eq!(predicate.trait_name, "Generic");
    assert!(predicate.with_arguments);
    assert_eq!(predicate.bindings, vec!["ExecT", "QueryC", "QueryT", "ExecC"]);
    let first = types.0[1];
    assert_eq!(first.as_name(), "ExecT");
    assert_eq!(first.as_where_predicate().bounds.len(), 1);
    let bare = interface("Bare", vec![], vec![]);
    let none = AssociatedTypes::new(&bare);
    assert!(none.as_where_clause().is_none());
    assert!(!none.emit_contract_predicate(&trait_name).with_arguments);
}

#[test]
fn implementation_sets_associated_types() {
    let mut item = contract("Contract", vec![], vec![]);
    item.items = vec![
        ImplItem::Type(ImplItemType { ident: "Error".to_owned(), ty: ty("StdError"), span: span(0) }),
        ImplItem::Type(ImplItemType { ident: "ExecT".to_owned(), ty: ty("Empty"), span: span(0) }),
        ImplItem::Type(ImplItemType { ident: "ExecC".to_owned(), ty: ty("Empty"), span: span(0) }),
    ];
    let types = ImplAssociatedTypes::new(&item);
    assert_eq!(types.as_names(), vec!["ExecT"]);
    assert_eq!(types.as_types()[0].name, "Empty");
    assert_eq!(types.as_item_types().len(), 1);
    let declared = types.emit_types_declaration();
    assert_eq!(declared[0].name, "ExecT");
    assert!(declared[0].value.is_none());
    let clause = vec![WherePredicate { bounded_ty: ty("T"), bounds: vec![ty("Clone")] }];
    let declared = clause.emit_declaration();
    assert_eq!(declared[0].bounded_ty.name, "T");
    assert_eq!(declared[0].bounds.unwrap()[0].name, "Clone");
    let defined = clause.emit_implementation();
    assert_eq!(defined[0].value.unwrap().name, "T");
    assert!(defined[0].bounds.is_none());
}

#[test]
fn summary_lists_the_types_each_kind_uses() {
    let item = interface(
        "Generic",
        vec![],
        vec![
            error_type(),
            associated("ExecT"),
            associated("QueryT"),
            associated("Unused"),
            TraitItem::Method(method(
                "exec",
                "run",
                vec![arg("msgs", TypeDesc::applied("Vec", vec![ty("Self::ExecT")]))],
                None,
                1,
            )),
            TraitItem::Method(method("query", "ask", vec![arg("msg", ty("Self::QueryT"))], None, 2)),
            TraitItem::Method(method("sudo", "force", vec![arg("msg", ty("Self::ExecT"))], None, 3)),
        ],
    );
    let custom = Custom { msg: None, query: Some(ty("MyQuery")) };
    let types = AssociatedTypes::new(&item);
    let def = Api::new(&item, &custom, &types).emit();
    assert_eq!(def.interface_name, "Generic");
    assert_eq!(def.generics, vec!["ExecT", "QueryT", "Unused"]);
    assert_eq!(def.exec_generics, vec!["ExecT"]);
    assert_eq!(def.query_generics, vec!["QueryT"]);
    assert_eq!(def.sudo_generics, vec!["ExecT"]);
    assert!(matches!(def.custom_query, CustomQuery::Given(query) if query.name == "MyQuery"));
    assert_eq!(def.where_clause.unwrap().len(), 3);
    assert!(def.phantom);
    let plain = Custom { msg: None, query: None };
    assert!(matches!(plain.query_or_default(), CustomQuery::Empty));
}

#[test]
fn helpers_follow_the_messages() {
    let mut item = contract("Contract", vec![], vec![]);
    item.trait_ = Some(ty("Cw1"));
    let mut can_execute = method(
        "query",
        "can_execute",
        vec![arg("sender", ty("String")), arg("msg", ty("CosmosMsg"))],
        Some(TypeDesc::applied("StdResult", vec![ty("CanExecuteResp")])),
        2,
    );
    can_execute.attrs.insert(0, Attribute { path: "doc".to_owned(), args: AttrArgs::Other, span: span(0) });
    let mut listed = method("query", "listed", vec![], None, 3);
    listed.attrs = vec![msg_attr("query", Some(ty("Listed")), 3)];
    item.items = vec![
        ImplItem::Type(ImplItemType { ident: "Error".to_owned(), ty: ty("ContractError"), span: span(0) }),
        ImplItem::Method(method("exec", "execute", vec![arg("msgs", ty("Msgs"))], None, 1)),
        ImplItem::Method(can_execute),
        ImplItem::Method(listed),
        ImplItem::Method(method("bogus", "ignored", vec![], None, 4)),
    ];
    let mut errors = Vec::new();
    assert!(MultitestHelpers::accepts(&item));
    let helpers = MultitestHelpers::new(&item, &mut errors);
    assert_eq!(kinds(&errors), vec![ErrorKind::InvalidMessageType]);
    assert_eq!(helpers.trait_name, "Cw1");
    assert_eq!(helpers.error_type, "ContractError");
    let defs = helpers.emit();
    assert_eq!(defs.module_name, "cw1");
    assert_eq!(defs.methods.len(), 3);
    assert_eq!(defs.methods[0].name, "execute");
    assert!(defs.methods[0].executes);
    assert!(matches!(defs.methods[0].return_type, ProxyReturn::AppResponse));
    assert_eq!(defs.methods[0].params.len(), 1);
    assert_eq!(defs.methods[1].name, "can_execute");
    assert!(!defs.methods[1].executes);
    assert_eq!(*defs.methods[1].arguments, vec!["sender", "msg"]);
    assert!(matches!(defs.methods[1].return_type, ProxyReturn::Answer(answer) if answer.name == "CanExecuteResp"));
    assert!(matches!(defs.methods[2].return_type, ProxyReturn::Answer(answer) if answer.name == "Listed"));
    assert_eq!(defs.methods[2].error_type, "ContractError");

}

#[test]
fn helpers_are_for_implementations_of_an_interface_with_an_error_type() {
    let error = || ImplItem::Type(ImplItemType { ident: "Error".to_owned(), ty: ty("ContractError"), span: span(0) });
    let mut item = contract("Contract", vec![], vec![]);
    item.items = vec![error(), ImplItem::Method(method("exec", "execute", vec![arg("msgs", ty("Msgs"))], None, 1))];
    assert!(!MultitestHelpers::accepts(&item));
    item.trait_ = Some(TypeDesc::applied("Cw1", vec![ty("T")]));
    assert!(!MultitestHelpers::accepts(&item));
    item.trait_ = Some(ty("Cw1"));
    assert!(MultitestHelpers::accepts(&item));

    let mut pattern = method("exec", "run", vec![], None, 2);
    pattern.sig.inputs.push(FnArg::Typed(PatType { pat: Pat::Other, ty: ty("Data"), span: span(3) }));
    item.items.push(ImplItem::Method(pattern));
    assert!(!MultitestHelpers::accepts(&item));
    item.items.pop();
    let mut unmarked = method("exec", "helper", vec![], None, 4);
    unmarked.attrs.clear();
    unmarked.sig.inputs.push(FnArg::Typed(PatType { pat: Pat::Other, ty: ty("Data"), span: span(5) }));
    item.items.push(ImplItem::Method(unmarked));
    assert!(MultitestHelpers::accepts(&item));

    item.items.remove(0);
    assert!(!MultitestHelpers::accepts(&item));
}
