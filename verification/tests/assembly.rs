use sylvia_core::assembly::{assemble, InterfaceDecl};
use sylvia_core::error::ErrorKind;
use sylvia_core::parser::{ContractArgs, InterfaceArgs};
use sylvia_core::schema::{
    AttrArgs, Attribute, FnArg, ImplItem, ItemImpl, ItemTrait, Method, Pat, PatType, Signature,
    Span, TraitItem, TraitItemType, TypeDesc,
};

fn span(at: usize) -> Span {
    Span { start: at, end: at + 1 }
}

fn ty(name: &str) -> TypeDesc {
    TypeDesc::path(name)
}

fn arg(name: &str, ty: TypeDesc) -> FnArg {
    FnArg::Typed(PatType { pat: Pat::Ident(name.to_owned()), ty, span: span(0) })
}

fn method(tag: &str, name: &str, args: Vec<FnArg>, at: usize) -> Method {
    let mut inputs = vec![FnArg::Receiver(span(at)), arg("ctx", ty("Ctx"))];
    inputs.extend(args);
    Method {
        attrs: vec![Attribute {
            path: "msg".to_owned(),
            args: AttrArgs::Msg { tag: tag.to_owned(), resp: None },
            span: span(at),
        }],
        sig: Signature { ident: name.to_owned(), inputs, output: None },
        span: span(at),
    }
}

fn interface(name: &str, methods: Vec<Method>) -> ItemTrait {
    let mut items = vec![TraitItem::Type(TraitItemType {
        ident: "Error".to_owned(),
        bounds: vec![],
        span: span(0),
    })];
    items.extend(methods.into_iter().map(TraitItem::Method));
    ItemTrait { ident: name.to_owned(), generics: vec![], where_clause: None, items, span: span(100) }
}

fn composes(module: &str, variant: &str) -> Attribute {
    Attribute {
        path: "messages".to_owned(),
        args: AttrArgs::Messages {
            module: module.to_owned(),
            exec_generic_params: vec![],
            query_generic_params: vec![],
            variant: variant.to_owned(),
        },
        span: span(0),
    }
}

fn contract(name: &str, attrs: Vec<Attribute>, methods: Vec<Method>) -> ItemImpl {
    ItemImpl {
        attrs,
        generics: vec![],
        where_clause: None,
        trait_: None,
        self_ty: ty(name),
        items: methods.into_iter().map(ImplItem::Method).collect(),
        span: span(200),
    }
}

struct Fixture {
    modules: Vec<String>,
    args: InterfaceArgs,
    items: Vec<ItemTrait>,
    contract_args: ContractArgs,
}

impl Fixture {
    fn new(items: Vec<(&str, ItemTrait)>) -> Self {
        Fixture {
            modules: items.iter().map(|(module, _)| (*module).to_owned()).collect(),
            args: InterfaceArgs { module: None, msg_type: None },
            items: items.into_iter().map(|(_, item)| item).collect(),
            contract_args: ContractArgs { module: None, error: ty("ContractError") },
        }
    }

    fn decls(&self) -> Vec<InterfaceDecl<'_>> {
        self.modules
            .iter()
            .zip(self.items.iter())
            .map(|(module, item)| InterfaceDecl { module, args: &self.args, item })
            .collect()
    }
}

#[test]
fn build_of_disjoint_interfaces_passes() {
    let fixture = Fixture::new(vec![
        ("ownable", interface("Ownable", vec![method("exec", "transfer_owner", vec![arg("new_owner", ty("String"))], 1)])),
        ("pausable", interface("Pausable", vec![method("exec", "pause", vec![], 1), method("query", "paused", vec![], 2)])),
    ]);
    let registry = contract(
        "Registry",
        vec![composes("ownable", "Ownable"), composes("pausable", "Pausable")],
        vec![method("instantiate", "instantiate", vec![], 1), method("exec", "register", vec![], 2)],
    );
    let decls = fixture.decls();
    let report = assemble(&decls, &fixture.contract_args, &registry);
    assert!(report.findings.is_empty());
    assert!(report.exec_collision.is_none());
    assert!(report.query_collision.is_none());
    assert!(report.passes());
}

#[test]
fn build_reports_the_interfaces_that_share_a_name() {
    let fixture = Fixture::new(vec![
        ("first", interface("First", vec![method("exec", "zap", vec![], 1), method("exec", "noop", vec![], 2)])),
        ("second", interface("Second", vec![method("exec", "pause", vec![], 1), method("query", "noop", vec![], 2)])),
        ("third", interface("Third", vec![method("exec", "noop", vec![], 1), method("exec", "zap", vec![], 2)])),
    ]);
    let registry = contract(
        "Registry",
        vec![composes("first", "One"), composes("second", "Two"), composes("third", "Three")],
        vec![method("instantiate", "instantiate", vec![], 1)],
    );
    let decls = fixture.decls();
    let report = assemble(&decls, &fixture.contract_args, &registry);
    assert!(report.findings.is_empty());
    let collision = report.exec_collision.as_ref().unwrap();
    assert_eq!(collision.kind, ErrorKind::Collision);
    assert_eq!(collision.span, span(200));
    assert_eq!(collision.names, vec!["One", "Three", "noop"]);
    assert!(report.query_collision.is_none());
    assert!(!report.passes());
}

#[test]
fn build_checks_the_contract_against_its_interfaces() {
    let fixture = Fixture::new(vec![(
        "pausable",
        interface("Pausable", vec![method("query", "is_paused", vec![], 1)]),
    )]);
    let registry = contract(
        "Registry",
        vec![composes("pausable", "Pausable")],
        vec![method("instantiate", "instantiate", vec![], 1), method("query", "isPaused", vec![], 2)],
    );
    let decls = fixture.decls();
    let report = assemble(&decls, &fixture.contract_args, &registry);
    assert!(report.exec_collision.is_none());
    let collision = report.query_collision.as_ref().unwrap();
    assert_eq!(collision.names, vec!["Pausable", "Registry", "is_paused"]);
}

#[test]
fn build_without_instantiation_fails() {
    let fixture = Fixture::new(vec![("bare", ItemTrait {
        ident: "Bare".to_owned(),
        generics: vec![],
        where_clause: None,
        items: vec![],
        span: span(100),
    })]);
    let registry = contract("Registry", vec![composes("bare", "Bare"), composes("lost", "Lost")], vec![]);
    let decls = fixture.decls();
    let report = assemble(&decls, &fixture.contract_args, &registry);
    let kinds: Vec<ErrorKind> = report.findings.iter().map(|error| error.kind).collect();
    assert_eq!(
        kinds,
        vec![ErrorKind::MissingErrorType, ErrorKind::NoInstantiation, ErrorKind::UnknownInterface]
    );
    assert!(!report.passes());

    let twice = contract(
        "Twice",
        vec![],
        vec![method("instantiate", "first", vec![], 1), method("instantiate", "second", vec![], 2)],
    );
    let report = assemble(&[], &fixture.contract_args, &twice);
    assert_eq!(report.findings.len(), 1);
    assert_eq!(report.findings[0].kind, ErrorKind::DuplicateMessage);
    assert!(!report.passes());
}

#[test]
fn each_finding_is_reported_once() {
    let mut run = method("execute", "run", vec![], 5);
    run.sig.inputs.push(FnArg::Typed(PatType { pat: Pat::Other, ty: ty("Data"), span: span(6) }));
    let mut send = method("exec", "send", vec![], 7);
    send.sig.inputs.push(FnArg::Typed(PatType { pat: Pat::Other, ty: ty("Data"), span: span(8) }));
    let broken = Attribute { path: "messages".to_owned(), args: AttrArgs::Other, span: span(9) };
    let registry = contract(
        "Registry",
        vec![broken],
        vec![method("instantiate", "instantiate", vec![], 1), run, send],
    );
    let fixture = Fixture::new(vec![(
        "bank",
        interface("Bank", vec![method("queri", "balance", vec![], 3)]),
    )]);
    let decls = fixture.decls();
    let report = assemble(&decls, &fixture.contract_args, &registry);
    let found: Vec<(ErrorKind, Span)> =
        report.findings.iter().map(|error| (error.kind, error.span)).collect();
    assert_eq!(
        found,
        vec![
            (ErrorKind::InvalidMessageType, span(3)),
            (ErrorKind::InvalidMessageType, span(5)),
            (ErrorKind::PatternArgument, span(8)),
            (ErrorKind::InvalidMessages, span(9)),
        ]
    );
}
