//! The declarations that the compiler reads: interfaces, contracts, their
//! methods, parameters, types and generic parameters.

use crate::lexical::same_str;
use vstd::prelude::*;
use vstd::string::StringExecFns;

verus! {

/// Where a declaration stands in the source text.
#[derive(Clone, Copy, Debug, PartialEq, Eq, Structural)]
pub struct Span {
    pub start: usize,
    pub end: usize,
}

/// A type as written: a name applied to zero or more types.
#[derive(Debug)]
pub struct TypeDesc {
    pub name: String,
    pub args: Vec<TypeDesc>,
}

impl TypeDesc {
    /// A type that is a name alone.
    pub fn path(name: &str) -> (ty: TypeDesc)
        ensures
            ty.name@ == name@,
            ty.args@.len() == 0,
    {
        TypeDesc { name: String::from_str(name), args: Vec::new() }
    }

    /// A name applied to types.
    pub fn applied(name: &str, args: Vec<TypeDesc>) -> (ty: TypeDesc)
        ensures
            ty.name@ == name@,
            ty.args == args,
    {
        TypeDesc { name: String::from_str(name), args }
    }

    /// The type refers to the placeholder `ident`: somewhere in it `ident`
    /// stands alone, applied to nothing.
    pub open spec fn mentions(&self, ident: Seq<char>) -> bool
        decreases self,
    {
        (self.args@.len() == 0 && self.name@ == ident) || exists|i: int|
            0 <= i < self.args@.len() && (#[trigger] self.args@[i]).mentions(ident)
    }

    /// Tells whether the type refers to the placeholder `ident`.
    pub fn uses(&self, ident: &str) -> (r: bool)
        ensures
            r == self.mentions(ident@),
        decreases self,
    {
        if self.args.len() == 0 {
            return same_str(self.name.as_str(), ident);
        }
        let mut i: usize = 0;
        while i < self.args.len()
            invariant
                i <= self.args@.len(),
                forall|k: int| 0 <= k < i ==> !(#[trigger] self.args@[k]).mentions(ident@),
            decreases self.args@.len() - i,
        {
            if self.args[i].uses(ident) {
                return true;
            }
            i += 1;
        }
        false
    }
}

/// One of the types of `types` refers to the placeholder `ident`.
pub open spec fn any_mentions(types: Seq<TypeDesc>, ident: Seq<char>) -> bool {
    exists|i: int| 0 <= i < types.len() && (#[trigger] types[i]).mentions(ident)
}

/// Tells whether one of the types refers to the placeholder `ident`.
pub fn any_uses(types: &Vec<TypeDesc>, ident: &str) -> (r: bool)
    ensures
        r == any_mentions(types@, ident@),
{
    let mut i: usize = 0;
    while i < types.len()
        invariant
            i <= types@.len(),
            forall|k: int| 0 <= k < i ==> !(#[trigger] types@[k]).mentions(ident@),
        decreases types@.len() - i,
    {
        if types[i].uses(ident) {
            return true;
        }
        i += 1;
    }
    false
}

/// A type placeholder declared on an interface or a contract, with the
/// capabilities it is bound to.
#[derive(Debug)]
pub struct GenericParam {
    pub ident: String,
    pub bounds: Vec<TypeDesc>,
}

/// One predicate of a `where` clause: a type and what it is bound to.
#[derive(Debug)]
pub struct WherePredicate {
    pub bounded_ty: TypeDesc,
    pub bounds: Vec<TypeDesc>,
}

impl WherePredicate {
    /// The predicate refers to the placeholder `ident`, on either side.
    pub open spec fn mentions(&self, ident: Seq<char>) -> bool {
        self.bounded_ty.mentions(ident) || any_mentions(self.bounds@, ident)
    }

    /// Tells whether the predicate refers to the placeholder `ident`.
    pub fn uses(&self, ident: &str) -> (r: bool)
        ensures
            r == self.mentions(ident@),
    {
        self.bounded_ty.uses(ident) || any_uses(&self.bounds, ident)
    }
}

/// The pattern that binds an argument.
#[derive(Debug)]
pub enum Pat {
    /// A plain name.
    Ident(String),
    /// Anything else: a tuple, a struct pattern, a wildcard.
    Other,
}

/// An argument with its type.
#[derive(Debug)]
pub struct PatType {
    pub pat: Pat,
    pub ty: TypeDesc,
    pub span: Span,
}

/// An argument of a method.
#[derive(Debug)]
pub enum FnArg {
    /// `self` in one of its forms.
    Receiver(Span),
    Typed(PatType),
}

/// The header of a method.
#[derive(Debug)]
pub struct Signature {
    pub ident: String,
    pub inputs: Vec<FnArg>,
    /// What the method returns; `None` where nothing is written.
    pub output: Option<TypeDesc>,
}

/// What stands between the parentheses of an attribute.
#[derive(Debug)]
pub enum AttrArgs {
    /// `msg(tag)` or `msg(tag, resp = Type)`: marks a method as a message.
    Msg { tag: String, resp: Option<TypeDesc> },
    /// `messages(module as Variant)`: composes an interface into a contract.
    /// The type arguments are those that the interface's execute and query
    /// messages are used with.
    Messages {
        module: String,
        exec_generic_params: Vec<String>,
        query_generic_params: Vec<String>,
        variant: String,
    },
    /// Anything that has neither form.
    Other,
}

/// An attribute on a declaration.
#[derive(Debug)]
pub struct Attribute {
    pub path: String,
    pub args: AttrArgs,
    pub span: Span,
}

/// A method of an interface or of a contract.
#[derive(Debug)]
pub struct Method {
    pub attrs: Vec<Attribute>,
    pub sig: Signature,
    pub span: Span,
}

/// An associated type declared by an interface.
#[derive(Debug)]
pub struct TraitItemType {
    pub ident: String,
    pub bounds: Vec<TypeDesc>,
    pub span: Span,
}

/// An associated type set by a contract.
#[derive(Debug)]
pub struct ImplItemType {
    pub ident: String,
    pub ty: TypeDesc,
    pub span: Span,
}

/// What an interface declares.
#[derive(Debug)]
pub enum TraitItem {
    Method(Method),
    Type(TraitItemType),
    Other,
}

/// What a contract holds.
#[derive(Debug)]
pub enum ImplItem {
    Method(Method),
    Type(ImplItemType),
    Other,
}

/// An interface: a named set of methods, possibly generic.
#[derive(Debug)]
pub struct ItemTrait {
    pub ident: String,
    pub generics: Vec<GenericParam>,
    pub where_clause: Option<Vec<WherePredicate>>,
    pub items: Vec<TraitItem>,
    pub span: Span,
}

/// A contract, or the implementation of an interface on a contract.
#[derive(Debug)]
pub struct ItemImpl {
    pub attrs: Vec<Attribute>,
    pub generics: Vec<GenericParam>,
    pub where_clause: Option<Vec<WherePredicate>>,
    /// The interface that is implemented, where the block implements one.
    pub trait_: Option<TypeDesc>,
    pub self_ty: TypeDesc,
    pub items: Vec<ImplItem>,
    pub span: Span,
}

/// The first attribute named `name`, if there is one.
pub open spec fn first_attr(attrs: Seq<Attribute>, name: Seq<char>) -> Option<int>
    decreases attrs.len(),
{
    if attrs.len() == 0 {
        None
    } else {
        match first_attr(attrs.drop_last(), name) {
            Some(at) => Some(at),
            None => if attrs.last().path@ == name {
                Some(attrs.len() - 1)
            } else {
                None
            },
        }
    }
}

/// Finds the first attribute named `name`.
pub fn find_attr<'a>(attrs: &'a Vec<Attribute>, name: &str) -> (found: Option<&'a Attribute>)
    ensures
        match first_attr(attrs@, name@) {
            Some(at) => 0 <= at < attrs@.len() && found == Some(&attrs@[at]),
            None => found is None,
        },
{
    let mut i: usize = 0;
    while i < attrs.len()
        invariant
            i <= attrs@.len(),
            first_attr(attrs@.take(i as int), name@) is None,
        decreases attrs@.len() - i,
    {
        assert(attrs@.take(i + 1).drop_last() =~= attrs@.take(i as int));
        if same_str(attrs[i].path.as_str(), name) {
            proof {
                lemma_first_attr_prefix(attrs@, name@, i + 1);
            }
            return Some(&attrs[i]);
        }
        i += 1;
    }
    assert(attrs@.take(i as int) =~= attrs@);
    None
}

/// An attribute found in a prefix of a list is the one found in the list.
pub proof fn lemma_first_attr_prefix(attrs: Seq<Attribute>, name: Seq<char>, len: int)
    requires
        0 <= len <= attrs.len(),
        first_attr(attrs.take(len), name) is Some,
    ensures
        first_attr(attrs, name) == first_attr(attrs.take(len), name),
    decreases attrs.len(),
{
    if len < attrs.len() {
        assert(attrs.drop_last().take(len) =~= attrs.take(len));
        lemma_first_attr_prefix(attrs.drop_last(), name, len);
    } else {
        assert(attrs.take(len) =~= attrs);
    }
}

} // verus!
