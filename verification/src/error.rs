//! What can be wrong with a set of declarations.

use crate::schema::Span;
use vstd::prelude::*;
use vstd::string::StringExecFns;

verus! {

/// The ways in which declarations can be wrong.
#[derive(Clone, Copy, Debug, PartialEq, Eq, Structural)]
pub enum ErrorKind {
    /// The tag of a `msg` attribute names no kind of message.
    InvalidMessageType,
    /// A `msg` attribute has arguments that its kind does not take, or none
    /// that can be read.
    InvalidArgument,
    /// A method takes `self` where a message field is expected.
    UnexpectedSelf,
    /// A method binds an argument with a pattern, so the field has no name.
    PatternArgument,
    /// A contract has no instantiation message.
    NoInstantiation,
    /// A contract has a second message of a kind that allows one. The note
    /// points at the first.
    DuplicateMessage,
    /// An interface declares no `Error` type.
    MissingErrorType,
    /// An interface declares a message of a kind that only contracts have.
    NotOnInterface,
    /// A `messages` attribute cannot be read.
    InvalidMessages,
    /// A contract composes an interface that is not among the declarations.
    UnknownInterface,
    /// Two of the message lists merged into one entry point hold the same
    /// name. The names are those of the two lists and the shared one.
    Collision,
}

/// One finding: what is wrong, where, and what else it points at.
#[derive(Debug)]
pub struct SchemaError {
    pub kind: ErrorKind,
    pub span: Span,
    pub note: Option<Span>,
    pub names: Vec<String>,
}

/// A finding as a value.
pub struct SchemaErrorView {
    pub kind: ErrorKind,
    pub span: Span,
    pub note: Option<Span>,
    pub names: Seq<Seq<char>>,
}

/// The texts of a list of names.
pub open spec fn texts(names: Seq<String>) -> Seq<Seq<char>> {
    names.map_values(|name: String| name@)
}

impl View for SchemaError {
    type V = SchemaErrorView;

    open spec fn view(&self) -> SchemaErrorView {
        SchemaErrorView {
            kind: self.kind,
            span: self.span,
            note: self.note,
            names: texts(self.names@),
        }
    }
}

/// The findings of a list, as values.
pub open spec fn findings(errors: Seq<SchemaError>) -> Seq<SchemaErrorView> {
    errors.map_values(|error: SchemaError| error@)
}

/// A finding that names nothing but a place.
pub open spec fn finding_at(kind: ErrorKind, span: Span) -> SchemaErrorView {
    SchemaErrorView { kind, span, note: None, names: Seq::empty() }
}

/// What a finding of the given kind says.
pub open spec fn kind_text(kind: ErrorKind) -> Seq<char> {
    match kind {
        ErrorKind::InvalidMessageType =>
            "Invalid message type, expected one of: `exec`, `query`, `instantiate`, `migrate`, `reply`, `sudo`"@,
        ErrorKind::InvalidArgument => "Invalid argument type, expected `resp` or no argument."@,
        ErrorKind::UnexpectedSelf => "Unexpected `self` argument"@,
        ErrorKind::PatternArgument => "Expected argument name, pattern occurred"@,
        ErrorKind::NoInstantiation => "No instantiation message"@,
        ErrorKind::DuplicateMessage => "More than one message of a kind that allows one"@,
        ErrorKind::MissingErrorType => "Missing `Error` type defined for trait."@,
        ErrorKind::NotOnInterface =>
            "Instantiation messages not supported on traits, they should be defined on contracts directly"@,
        ErrorKind::InvalidMessages => "Invalid `messages` attribute"@,
        ErrorKind::UnknownInterface => "Interface is not among the declarations"@,
        ErrorKind::Collision => "Message overlaps between interface and contract impl!"@,
    }
}

/// A finding that points at a second place.
pub open spec fn finding_with_note(kind: ErrorKind, span: Span, note: Span) -> SchemaErrorView {
    SchemaErrorView { kind, span, note: Some(note), names: Seq::empty() }
}

impl SchemaError {
    /// A finding that points at a second place.
    pub fn with_note(kind: ErrorKind, span: Span, note: Span) -> (error: SchemaError)
        ensures
            error@ == finding_with_note(kind, span, note),
    {
        let error = SchemaError { kind, span, note: Some(note), names: Vec::new() };
        assert(error@.names =~= Seq::empty());
        error
    }

    /// A finding that names nothing but a place.
    pub fn at(kind: ErrorKind, span: Span) -> (error: SchemaError)
        ensures
            error@ == finding_at(kind, span),
    {
        let error = SchemaError { kind, span, note: None, names: Vec::new() };
        assert(error@.names =~= Seq::empty());
        error
    }

    /// What is wrong, in words.
    pub fn message(&self) -> (text: String)
        ensures
            text@ == kind_text(self.kind),
    {
        let text = match self.kind {
            ErrorKind::InvalidMessageType =>
                "Invalid message type, expected one of: `exec`, `query`, `instantiate`, `migrate`, `reply`, `sudo`",
            ErrorKind::InvalidArgument => "Invalid argument type, expected `resp` or no argument.",
            ErrorKind::UnexpectedSelf => "Unexpected `self` argument",
            ErrorKind::PatternArgument => "Expected argument name, pattern occurred",
            ErrorKind::NoInstantiation => "No instantiation message",
            ErrorKind::DuplicateMessage => "More than one message of a kind that allows one",
            ErrorKind::MissingErrorType => "Missing `Error` type defined for trait.",
            ErrorKind::NotOnInterface =>
                "Instantiation messages not supported on traits, they should be defined on contracts directly",
            ErrorKind::InvalidMessages => "Invalid `messages` attribute",
            ErrorKind::UnknownInterface => "Interface is not among the declarations",
            ErrorKind::Collision => "Message overlaps between interface and contract impl!",
        };
        String::from_str(text)
    }
}

} // verus!
