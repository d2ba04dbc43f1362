use sylvia_core::entry::{forward, forward_encoded, EntryCase, Entrypoint, Registered};
use sylvia_core::error::{ErrorKind, SchemaError};
use sylvia_core::input::{ImplInput, TraitInput};
use sylvia_core::message::Forwarding;
use sylvia_core::parser::{ContractArgs, InterfaceArgs};
use sylvia_core::schema::{
    AttrArgs, Attribute, FnArg, ImplItem, ItemImpl, ItemTrait, Method, Pat, PatType, Signature,
    Span, TraitItem, TraitItemType, TypeDesc,
};
use sylvia_core::wire::{DecodeReason, Message, Value};

fn span(at: usize) -> Span {
    Span { start: at, end: at + 1 }
}

fn ty(name: &str) -> TypeDesc {
    TypeDesc::path(name)
}

fn arg(name: &str, ty: TypeDesc) -> FnArg {
    FnArg::Typed(PatType { pat: Pat::Ident(name.to_owned()), ty, span: span(0) })
}

fn method(tag: &str, name: &str, args: Vec<FnArg>, at: usize) -> Method {
    let mut inputs = vec![FnArg::Receiver(span(at)), arg("ctx", ty("Ctx"))];
    inputs.extend(args);
    Method {
        attrs: vec![Attribute {
            path: "msg".to_owned(),
            args: AttrArgs::Msg { tag: tag.to_owned(), resp: None },
            span: span(at),
        }],
        sig: Signature {
            ident: name.to_owned(),
            inputs,
            output: Some(TypeDesc::applied("Result", vec![ty("Response"), ty("Self::Error")])),
        },
        span: span(at),
    }
}

fn interface(name: &str, methods: Vec<Method>) -> ItemTrait {
    let mut items = vec![TraitItem::Type(TraitItemType {
        ident: "Error".to_owned(),
        bounds: vec![],
        span: span(0),
    })];
    items.extend(methods.into_iter().map(TraitItem::Method));
    ItemTrait { ident: name.to_owned(), generics: vec![], where_clause: None, items, span: span(100) }
}

fn composes(module: &str, variant: &str) -> Attribute {
    Attribute {
        path: "messages".to_owned(),
        args: AttrArgs::Messages {
            module: module.to_owned(),
            exec_generic_params: vec![],
            query_generic_params: vec![],
            variant: variant.to_owned(),
        },
        span: span(0),
    }
}

fn contract(name: &str, attrs: Vec<Attribute>, methods: Vec<Method>) -> ItemImpl {
    ItemImpl {
        attrs,
        generics: vec![],
        where_clause: None,
        trait_: None,
        self_ty: ty(name),
        items: methods.into_iter().map(ImplItem::Method).collect(),
        span: span(200),
    }
}

fn text(value: &str) -> Value {
    Value::Text(value.to_owned())
}

fn object(entries: Vec<(&str, Value)>) -> Value {
    Value::Object(entries.into_iter().map(|(key, value)| (key.to_owned(), value)).collect())
}

fn from_json(json: &serde_json::Value) -> Value {
    match json {
        serde_json::Value::Null => Value::Null,
        serde_json::Value::Bool(b) => Value::Bool(*b),
        serde_json::Value::Number(n) => Value::Number(n.to_string()),
        serde_json::Value::String(s) => Value::Text(s.clone()),
        serde_json::Value::Array(items) => Value::List(items.iter().map(from_json).collect()),
        serde_json::Value::Object(entries) => Value::Object(
            entries.iter().map(|(key, value)| (key.clone(), from_json(value))).collect(),
        ),
    }
}

fn parse(payload: &str) -> Value {
    from_json(&serde_json::from_str::<serde_json::Value>(payload).unwrap())
}

fn whitelist() -> ItemImpl {
    contract(
        "Cw1WhitelistContract",
        vec![],
        vec![method(
            "instantiate",
            "instantiate",
            vec![arg("members", TypeDesc::applied("Vec", vec![ty("String")]))],
            1,
        )],
    )
}

#[test]
fn binary_serialize_instantiate() {
    let item = whitelist();
    let args = ContractArgs { module: None, error: ty("ContractError") };
    let mut errors = Vec::new();
    let input = ImplInput::new(&args, &item);
    let messages = input.process(&mut errors);
    let defs = messages.emit(&mut errors);
    let instantiate_msg = defs.instantiate.as_ref().unwrap();

    let original_msg = vec![Value::List(vec![text("member1"), text("member2")])];
    let kept = vec![Value::List(vec![text("member1"), text("member2")])];

    let serialized_msg = instantiate_msg.encode(original_msg).unwrap();
    let serialized_msg = instantiate_msg.decode(&serialized_msg).unwrap();

    assert_eq!(serialized_msg, kept.iter().collect::<Vec<_>>());
}

#[test]
fn slice_deserialize_instantiate() {
    let item = whitelist();
    let args = ContractArgs { module: None, error: ty("ContractError") };
    let mut errors = Vec::new();
    let input = ImplInput::new(&args, &item);
    let messages = input.process(&mut errors);
    let defs = messages.emit(&mut errors);
    let instantiate_msg = defs.instantiate.as_ref().unwrap();

    let payload = parse(r#"{"members": ["member", "some_member"]}"#);
    let deserialized = instantiate_msg.decode(&payload).unwrap();
    assert_eq!(deserialized, vec![&Value::List(vec![text("member"), text("some_member")])]);
}

fn ownable() -> ItemTrait {
    interface("Ownable", vec![method("exec", "transfer_owner", vec![arg("new_owner", ty("String"))], 1)])
}

fn pausable() -> ItemTrait {
    interface("Pausable", vec![method("exec", "pause", vec![], 1)])
}

#[test]
fn registry_dispatches_transfer_owner_to_ownable() {
    let no_args = InterfaceArgs { module: None, msg_type: None };
    let mut errors: Vec<SchemaError> = Vec::new();

    let ownable = ownable();
    let ownable_input = TraitInput::new(&no_args, &ownable, &mut errors);
    let ownable_messages = ownable_input.process(&mut errors);
    let ownable_defs = ownable_messages.emit(&mut errors);

    let pausable = pausable();
    let pausable_input = TraitInput::new(&no_args, &pausable, &mut errors);
    let pausable_messages = pausable_input.process(&mut errors);
    let pausable_defs = pausable_messages.emit(&mut errors);

    let registry = contract(
        "Registry",
        vec![composes("ownable", "Ownable"), composes("pausable", "Pausable")],
        vec![method("instantiate", "instantiate", vec![], 1)],
    );
    let args = ContractArgs { module: None, error: ty("ContractError") };
    let input = ImplInput::new(&args, &registry);
    let messages = input.process(&mut errors);
    let defs = messages.emit(&mut errors);
    assert!(errors.is_empty());

    assert_eq!(defs.execute.variants.len(), 2);
    assert_eq!(defs.execute.variants[0].variant, "Ownable");
    assert_eq!(defs.execute.variants[1].variant, "Pausable");
    assert_eq!(ownable_defs.execute.variants[0].name, "TransferOwner");
    assert_eq!(ownable_defs.execute.variants[0].fields[0].name, "new_owner");
    assert_eq!(pausable_defs.execute.variants[0].name, "Pause");
    assert!(pausable_defs.execute.variants[0].fields.is_empty());

    let ownable_module = "ownable".to_owned();
    let pausable_module = "pausable".to_owned();
    let registered = vec![
        Registered { module: &pausable_module, defs: &pausable_defs },
        Registered { module: &ownable_module, defs: &ownable_defs },
    ];
    assert!(defs.execute.own.is_none());
    let entry =
        Entrypoint::link(&defs.execute, &registered, &defs.exec_impl, registry.span, &mut errors);
    assert!(errors.is_empty());
    assert_eq!(entry.cases.len(), 2);
    assert_eq!(entry.cases[0].variant, "Ownable");
    assert!(entry.check(registry.span).is_ok());

    let payload = parse(r#"{"transfer_owner":{"new_owner":"alice"}}"#);
    let taken = entry.decode(&payload).unwrap();
    assert_eq!(taken.case, 0);
    assert_eq!(taken.message.variant, 0);
    let (variant, call) = entry.dispatch(taken, "ctx").unwrap();
    assert_eq!(variant, "Ownable");
    assert_eq!(call.function_name, "transfer_owner");
    assert_eq!(call.args, vec![&text("alice")]);
    assert_eq!(call.ctx, "ctx");
    assert_eq!(call.forwarding, Forwarding::MapErr);

    let payload = parse(r#"{"pause":{}}"#);
    let taken = entry.decode(&payload).unwrap();
    assert_eq!(taken.case, 1);
    let (variant, call) = entry.dispatch(taken, ()).unwrap();
    assert_eq!(variant, "Pausable");
    assert_eq!(call.function_name, "pause");
    assert!(call.args.is_empty());

    let payload = parse(r#"{"resume":{}}"#);
    let error = entry.decode(&payload).unwrap_err();
    let reasons: Vec<(&str, DecodeReason)> =
        error.reasons.iter().map(|(variant, reason)| (variant.as_str(), *reason)).collect();
    assert_eq!(
        reasons,
        vec![("Ownable", DecodeReason::UnknownVariant), ("Pausable", DecodeReason::UnknownVariant)]
    );
}

#[test]
fn first_declared_interface_takes_an_ambiguous_payload() {
    let no_args = InterfaceArgs { module: None, msg_type: None };
    let mut errors: Vec<SchemaError> = Vec::new();
    let first = interface("First", vec![method("exec", "noop", vec![], 1)]);
    let first_input = TraitInput::new(&no_args, &first, &mut errors);
    let first_messages = first_input.process(&mut errors);
    let first_defs = first_messages.emit(&mut errors);
    let second = interface("Second", vec![method("exec", "noop", vec![], 1), method("exec", "other", vec![], 2)]);
    let second_input = TraitInput::new(&no_args, &second, &mut errors);
    let second_messages = second_input.process(&mut errors);
    let second_defs = second_messages.emit(&mut errors);

    let first_tag = "First".to_owned();
    let second_tag = "Second".to_owned();
    let entry = Entrypoint {
        cases: vec![
            EntryCase { variant: &first_tag, message: &first_defs.execute },
            EntryCase { variant: &second_tag, message: &second_defs.execute },
        ],
    };
    let payload = parse(r#"{"noop":{}}"#);
    assert_eq!(entry.decode(&payload).unwrap().case, 0);
    let payload = parse(r#"{"other":{}}"#);
    assert_eq!(entry.decode(&payload).unwrap().case, 1);

    let collision = entry.verify().unwrap_err();
    assert_eq!(collision.first, 0);
    assert_eq!(collision.second, 1);
    assert_eq!(collision.name, "noop");
    let error = entry.check(span(7)).unwrap_err();
    assert_eq!(error.kind, ErrorKind::Collision);
    assert_eq!(error.span, span(7));
    assert_eq!(error.names, vec!["First", "Second", "noop"]);
    assert_eq!(error.message(), "Message overlaps between interface and contract impl!");
    assert!(entry.collision_error(&collision, span(7)).is_some());
}

#[test]
fn unknown_interface_is_reported_and_own_messages_come_last() {
    let no_args = InterfaceArgs { module: None, msg_type: None };
    let mut errors: Vec<SchemaError> = Vec::new();
    let ownable = ownable();
    let ownable_input = TraitInput::new(&no_args, &ownable, &mut errors);
    let ownable_messages = ownable_input.process(&mut errors);
    let ownable_defs = ownable_messages.emit(&mut errors);
    let registry = contract(
        "Registry",
        vec![composes("missing", "Missing"), composes("ownable", "Ownable")],
        vec![method("instantiate", "instantiate", vec![], 1), method("exec", "register", vec![arg("name", ty("String"))], 2)],
    );
    let args = ContractArgs { module: None, error: ty("ContractError") };
    let input = ImplInput::new(&args, &registry);
    let messages = input.process(&mut errors);
    let defs = messages.emit(&mut errors);
    assert!(errors.is_empty());
    let module = "ownable".to_owned();
    let registered = vec![Registered { module: &module, defs: &ownable_defs }];
    assert_eq!(defs.execute.variants.len(), 2);
    assert_eq!(defs.execute.own.unwrap().variant, "Registry");
    let entry =
        Entrypoint::link(&defs.execute, &registered, &defs.exec_impl, span(200), &mut errors);
    assert_eq!(errors.len(), 1);
    assert_eq!(errors[0].kind, ErrorKind::UnknownInterface);
    assert_eq!(errors[0].span, span(200));
    let tags: Vec<&str> = entry.cases.iter().map(|case| case.variant.as_str()).collect();
    assert_eq!(tags, vec!["Ownable", "Registry"]);
    let payload = parse(r#"{"register":{"name":"x"}}"#);
    let taken = entry.decode(&payload).unwrap();
    assert_eq!(taken.case, 1);
    let (variant, call) = entry.dispatch(taken, ()).unwrap();
    assert_eq!(variant, "Registry");
    assert_eq!(call.function_name, "register");
    assert_eq!(call.args, vec![&text("x")]);
    assert!(defs.query.own.is_none());
    let queries =
        Entrypoint::link(&defs.query, &registered, &defs.query_impl, span(200), &mut errors);
    assert_eq!(queries.cases.len(), 1);
    assert!(queries.cases[0].message.variants.is_empty());
}

#[test]
fn decoding_is_strict() {
    let no_args = InterfaceArgs { module: None, msg_type: None };
    let mut errors: Vec<SchemaError> = Vec::new();
    let item = interface(
        "Bank",
        vec![method("exec", "send", vec![arg("to", ty("String")), arg("amount", ty("u64"))], 1)],
    );
    let input = TraitInput::new(&no_args, &item, &mut errors);
    let messages = input.process(&mut errors);
    let defs = messages.emit(&mut errors);
    let exec = &defs.execute;

    let payload = parse(r#"{"send":{"amount":5,"to":"bob"}}"#);
    let message = exec.decode(&payload).unwrap();
    assert_eq!(message.variant, 0);
    assert_eq!(message.fields, vec![&text("bob"), &Value::Number("5".to_owned())]);

    let reason = |payload: &str| exec.decode(&parse(payload)).unwrap_err();
    assert_eq!(reason(r#"["send"]"#), DecodeReason::NotAnObject);
    assert_eq!(reason(r#"{}"#), DecodeReason::NotOneVariant);
    assert_eq!(reason(r#"{"send":{"to":"a","amount":1},"x":{}}"#), DecodeReason::NotOneVariant);
    assert_eq!(reason(r#"{"Send":{"to":"a","amount":1}}"#), DecodeReason::UnknownVariant);
    assert_eq!(reason(r#"{"send":"bob"}"#), DecodeReason::BodyNotAnObject);
    assert_eq!(reason(r#"{"send":{"to":"a","amount":1,"memo":"hi"}}"#), DecodeReason::UnknownField);
    assert_eq!(reason(r#"{"send":{"to":"a"}}"#), DecodeReason::MissingField);
    let twice = object(vec![(
        "send",
        object(vec![("to", text("a")), ("amount", Value::Null), ("to", text("b"))]),
    )]);
    assert_eq!(exec.decode(&twice).unwrap_err(), DecodeReason::DuplicateField);
}

#[test]
fn decoding_the_encoding_gives_the_message_back() {
    let no_args = InterfaceArgs { module: None, msg_type: None };
    let mut errors: Vec<SchemaError> = Vec::new();
    let item = interface(
        "Bank",
        vec![
            method("exec", "burn", vec![], 1),
            method("exec", "send", vec![arg("to", ty("String")), arg("amount", ty("u64"))], 2),
        ],
    );
    let input = TraitInput::new(&no_args, &item, &mut errors);
    let messages = input.process(&mut errors);
    let defs = messages.emit(&mut errors);
    let exec = &defs.execute;

    let sent = Message { variant: 1, fields: vec![text("bob"), Value::Bool(true)] };
    let payload = exec.encode(sent).unwrap();
    assert_eq!(
        payload,
        object(vec![("send", object(vec![("to", text("bob")), ("amount", Value::Bool(true))]))])
    );
    let back = exec.decode(&payload).unwrap();
    assert_eq!(back.variant, 1);
    assert_eq!(back.fields, vec![&text("bob"), &Value::Bool(true)]);

    assert!(exec.encode(Message { variant: 2, fields: vec![] }).is_none());
    assert!(exec.encode(Message { variant: 1, fields: vec![text("bob")] }).is_none());
    assert_eq!(exec.encode(Message { variant: 0, fields: vec![] }).unwrap(), object(vec![("burn", object(vec![]))]));
    let call = exec.dispatch(back, 7u8).unwrap();
    assert_eq!(call.function_name, "send");
    assert_eq!(call.ctx, 7u8);
    let stray = sylvia_core::wire::MessageRef { variant: 5, fields: vec![] };
    assert!(exec.dispatch(stray, ()).is_none());
}

#[test]
fn messages_with_one_wire_name_cannot_be_told_apart() {
    let no_args = InterfaceArgs { module: None, msg_type: None };
    let mut errors: Vec<SchemaError> = Vec::new();
    let item = interface(
        "Bank",
        vec![method("exec", "send_all", vec![], 1), method("exec", "sendAll", vec![arg("to", ty("String"))], 2)],
    );
    let input = TraitInput::new(&no_args, &item, &mut errors);
    let messages = input.process(&mut errors);
    let defs = messages.emit(&mut errors);
    assert_eq!(defs.execute.messages(), vec!["send_all", "send_all"]);
    assert!(!defs.execute.is_well_formed());
    assert!(defs.query.is_well_formed());

    let twice = interface(
        "Bank",
        vec![method("exec", "send", vec![arg("to", ty("String")), arg("to", ty("u8"))], 1)],
    );
    let input = TraitInput::new(&no_args, &twice, &mut errors);
    let messages = input.process(&mut errors);
    let defs = messages.emit(&mut errors);
    assert!(!defs.execute.is_well_formed());

    let item = whitelist();
    let args = ContractArgs { module: None, error: ty("ContractError") };
    let input = ImplInput::new(&args, &item);
    let messages = input.process(&mut errors);
    let defs = messages.emit(&mut errors);
    assert!(defs.instantiate.as_ref().unwrap().is_well_formed());
    assert!(defs.exec_impl.is_well_formed());
}

#[test]
fn answers_are_passed_on_and_errors_converted() {
    let ok: Result<u8, &str> = Ok(3);
    assert_eq!(forward(ok, |error: &str| error.len()), Ok(3));
    let failed: Result<u8, &str> = Err("boom");
    assert_eq!(forward(failed, |error: &str| error.len()), Err(4));

    let encode = |answer: u8| if answer < 10 { Ok(vec![answer]) } else { Err(answer) };
    let ok: Result<u8, &str> = Ok(3);
    let sent = forward_encoded(ok, encode, |error: &str| error.to_owned(), |n: u8| n.to_string());
    assert_eq!(sent, Ok(vec![3]));
    let big: Result<u8, &str> = Ok(30);
    let sent = forward_encoded(big, encode, |error: &str| error.to_owned(), |n: u8| n.to_string());
    assert_eq!(sent, Err("30".to_owned()));
    let failed: Result<u8, &str> = Err("boom");
    let sent = forward_encoded(failed, encode, |error: &str| error.to_owned(), |n: u8| n.to_string());
    assert_eq!(sent, Err("boom".to_owned()));
}
