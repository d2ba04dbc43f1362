//! The associated types of interfaces and of their implementations.

use crate::lexical::same_str;
use crate::schema::{ImplItem, ImplItemType, ItemImpl, ItemTrait, TraitItem, TraitItemType, TypeDesc, WherePredicate};
use vstd::prelude::*;

verus! {

/// The name is that of the error type.
pub open spec fn is_error_type(ident: Seq<char>) -> bool {
    ident == "Error"@
}

/// The name is one of those that an interface keeps for itself: the error
/// type and the two custom types.
pub open spec fn is_reserved(ident: Seq<char>) -> bool {
    ident == "Error"@ || ident == "QueryC"@ || ident == "ExecC"@
}

/// Tells whether a name is kept by interfaces for themselves.
pub fn reserved(ident: &str) -> (r: bool)
    ensures
        r == is_reserved(ident@),
{
    same_str(ident, "Error") || same_str(ident, "QueryC") || same_str(ident, "ExecC")
}

/// The associated types among what an interface declares.
pub open spec fn trait_types<'a>(items: Seq<TraitItem>) -> Seq<&'a TraitItemType>
    decreases items.len(),
{
    if items.len() == 0 {
        Seq::empty()
    } else {
        match &items.last() {
            TraitItem::Type(ty) => trait_types(items.drop_last()).push(ty),
            _ => trait_types(items.drop_last()),
        }
    }
}

/// The types of a list but the error type.
pub open spec fn types_without_error<'a>(types: Seq<&'a TraitItemType>) -> Seq<&'a TraitItemType>
    decreases types.len(),
{
    if types.len() == 0 {
        Seq::empty()
    } else if is_error_type(types.last().ident@) {
        types_without_error(types.drop_last())
    } else {
        types_without_error(types.drop_last()).push(types.last())
    }
}

/// The types of a list but the reserved ones.
pub open spec fn types_without_special<'a>(types: Seq<&'a TraitItemType>) -> Seq<&'a TraitItemType>
    decreases types.len(),
{
    if types.len() == 0 {
        Seq::empty()
    } else if is_reserved(types.last().ident@) {
        types_without_special(types.drop_last())
    } else {
        types_without_special(types.drop_last()).push(types.last())
    }
}

/// A predicate that binds an associated type as its declaration does.
#[derive(Clone, Copy, Debug)]
pub struct TypePredicate<'a> {
    pub name: &'a String,
    pub bounds: &'a Vec<TypeDesc>,
}

/// A generated associated type: its name and, where it is defined, the type
/// that it is set to.
#[derive(Clone, Copy, Debug)]
pub struct TypeItem<'a> {
    pub name: &'a String,
    pub bounds: Option<&'a Vec<TypeDesc>>,
    pub value: Option<&'a String>,
}

/// The bound on the contract type of generated code: it implements the
/// interface, with each associated type but the error set to the type of
/// the same name.
#[derive(Debug)]
pub struct ContractPredicate<'a> {
    pub trait_name: &'a String,
    /// Whether the interface is written with arguments at all: it is where
    /// it declares any associated type.
    pub with_arguments: bool,
    pub bindings: Vec<&'a String>,
}

/// What can be read of an associated type.
pub trait ItemType {
    spec fn name_spec(&self) -> &String;

    spec fn bounds_spec(&self) -> &Vec<TypeDesc>;

    /// The name of the type.
    fn as_name(&self) -> (name: &String)
        ensures
            name == self.name_spec(),
    ;

    /// The predicate that binds the type as its declaration does.
    fn as_where_predicate(&self) -> (predicate: TypePredicate<'_>)
        ensures
            predicate.name == self.name_spec(),
            predicate.bounds == self.bounds_spec(),
    ;
}

impl ItemType for TraitItemType {
    open spec fn name_spec(&self) -> &String {
        &self.ident
    }

    open spec fn bounds_spec(&self) -> &Vec<TypeDesc> {
        &self.bounds
    }

    fn as_name(&self) -> (name: &String) {
        &self.ident
    }

    fn as_where_predicate(&self) -> (predicate: TypePredicate<'_>) {
        TypePredicate { name: &self.ident, bounds: &self.bounds }
    }
}

/// The names of the types.
pub open spec fn type_names<'a>(types: Seq<&'a TraitItemType>) -> Seq<&'a String> {
    types.map_values(|ty: &'a TraitItemType| &ty.ident)
}

/// The predicates that bind the types as their declarations do.
pub open spec fn type_predicates<'a>(types: Seq<&'a TraitItemType>) -> Seq<TypePredicate<'a>> {
    types.map_values(|ty: &'a TraitItemType| TypePredicate { name: &ty.ident, bounds: &ty.bounds })
}

/// The associated types that an interface declares.
#[derive(Debug)]
pub struct AssociatedTypes<'a>(pub Vec<&'a TraitItemType>);

impl<'a> AssociatedTypes<'a> {
    /// The associated types of the interface `source`, in the order of
    /// their declaration.
    pub fn new(source: &'a ItemTrait) -> (types: Self)
        ensures
            types.0@ == trait_types(source.items@),
    {
        let mut associated_types: Vec<&'a TraitItemType> = Vec::new();
        let mut i: usize = 0;
        while i < source.items.len()
            invariant
                i <= source.items@.len(),
                associated_types@ == trait_types(source.items@.take(i as int)),
            decreases source.items@.len() - i,
        {
            assert(source.items@.take(i + 1).drop_last() =~= source.items@.take(i as int));
            if let TraitItem::Type(ty) = &source.items[i] {
                associated_types.push(ty);
            }
            i += 1;
        }
        assert(source.items@.take(i as int) =~= source.items@);
        AssociatedTypes(associated_types)
    }

    /// The types but the error type.
    pub fn without_error(&self) -> (types: Vec<&'a TraitItemType>)
        ensures
            types@ == types_without_error(self.0@),
    {
        let mut types: Vec<&'a TraitItemType> = Vec::new();
        let mut i: usize = 0;
        while i < self.0.len()
            invariant
                i <= self.0@.len(),
                types@ == types_without_error(self.0@.take(i as int)),
            decreases self.0@.len() - i,
        {
            assert(self.0@.take(i + 1).drop_last() =~= self.0@.take(i as int));
            if !same_str(self.0[i].ident.as_str(), "Error") {
                types.push(self.0[i]);
            }
            i += 1;
        }
        assert(self.0@.take(i as int) =~= self.0@);
        types
    }

    /// The types but the reserved ones.
    pub fn without_special(&self) -> (types: Vec<&'a TraitItemType>)
        ensures
            types@ == types_without_special(self.0@),
    {
        let mut types: Vec<&'a TraitItemType> = Vec::new();
        let mut i: usize = 0;
        while i < self.0.len()
            invariant
                i <= self.0@.len(),
                types@ == types_without_special(self.0@.take(i as int)),
            decreases self.0@.len() - i,
        {
            assert(self.0@.take(i + 1).drop_last() =~= self.0@.take(i as int));
            if !reserved(self.0[i].ident.as_str()) {
                types.push(self.0[i]);
            }
            i += 1;
        }
        assert(self.0@.take(i as int) =~= self.0@);
        types
    }

    /// The predicates that bind the types, but the reserved ones, as their
    /// declarations do.
    pub fn as_where_predicates(&self) -> (predicates: Vec<TypePredicate<'a>>)
        ensures
            predicates@ == type_predicates(types_without_special(self.0@)),
    {
        let types = self.without_special();
        let mut predicates: Vec<TypePredicate<'a>> = Vec::new();
        let mut i: usize = 0;
        while i < types.len()
            invariant
                i <= types@.len(),
                predicates@ == type_predicates(types@.take(i as int)),
            decreases types@.len() - i,
        {
            let ty: &'a TraitItemType = types[i];
            predicates.push(TypePredicate { name: &ty.ident, bounds: &ty.bounds });
            assert(predicates@ =~= type_predicates(types@.take(i + 1)));
            i += 1;
        }
        assert(types@.take(i as int) =~= types@);
        predicates
    }

    /// The `where` clause made of those predicates, where there is one.
    pub fn as_where_clause(&self) -> (clause: Option<Vec<TypePredicate<'a>>>)
        ensures
            match clause {
                Some(predicates) => predicates@.len() > 0 && predicates@ == type_predicates(
                    types_without_special(self.0@),
                ),
                None => types_without_special(self.0@).len() == 0,
            },
    {
        let predicates = self.as_where_predicates();
        if predicates.len() > 0 {
            Some(predicates)
        } else {
            None
        }
    }

    /// The names of the types, but the reserved ones.
    pub fn as_names(&self) -> (names: Vec<&'a String>)
        ensures
            names@ == type_names(types_without_special(self.0@)),
    {
        let types = self.filtered();
        let mut names: Vec<&'a String> = Vec::new();
        let mut i: usize = 0;
        while i < types.len()
            invariant
                i <= types@.len(),
                names@ == type_names(types@.take(i as int)),
            decreases types@.len() - i,
        {
            let ty: &'a TraitItemType = types[i];
            names.push(&ty.ident);
            assert(names@ =~= type_names(types@.take(i + 1)));
            i += 1;
        }
        assert(types@.take(i as int) =~= types@);
        names
    }

    /// The declarations of the types, but the reserved ones.
    pub fn as_types_declaration(&self) -> (types: Vec<&'a TraitItemType>)
        ensures
            types@ == types_without_special(self.0@),
    {
        self.filtered()
    }

    /// For each type but the reserved ones, the definition that sets the
    /// associated type to the type of the same name.
    pub fn emit_types_definition(&self) -> (items: Vec<TypeItem<'a>>)
        ensures
            items@.len() == types_without_special(self.0@).len(),
            forall|i: int|
                0 <= i < items@.len() ==> {
                    let name = &types_without_special(self.0@)[i].ident;
                    &&& (#[trigger] items@[i]).name == name
                    &&& items@[i].bounds is None
                    &&& items@[i].value == Some(name)
                },
    {
        let names = self.as_names();
        let mut items: Vec<TypeItem<'a>> = Vec::new();
        let mut i: usize = 0;
        while i < names.len()
            invariant
                i <= names@.len(),
                names@ == type_names(types_without_special(self.0@)),
                items@.len() == i,
                forall|k: int|
                    0 <= k < i ==> {
                        &&& (#[trigger] items@[k]).name == names@[k]
                        &&& items@[k].bounds is None
                        &&& items@[k].value == Some(names@[k])
                    },
            decreases names@.len() - i,
        {
            items.push(TypeItem { name: names[i], bounds: None, value: Some(names[i]) });
            i += 1;
        }
        items
    }

    /// The bound on the contract type: it implements the interface
    /// `trait_name`, with each associated type but the error set to the
    /// type of the same name.
    pub fn emit_contract_predicate(&self, trait_name: &'a String) -> (predicate: ContractPredicate<
        'a,
    >)
        ensures
            predicate.trait_name == trait_name,
            predicate.with_arguments == (self.0@.len() > 0),
            predicate.bindings@ == type_names(types_without_error(self.0@)),
    {
        let types = self.without_error();
        let mut bindings: Vec<&'a String> = Vec::new();
        let mut i: usize = 0;
        while i < types.len()
            invariant
                i <= types@.len(),
                bindings@ == type_names(types@.take(i as int)),
            decreases types@.len() - i,
        {
            let ty: &'a TraitItemType = types[i];
            bindings.push(&ty.ident);
            assert(bindings@ =~= type_names(types@.take(i + 1)));
            i += 1;
        }
        assert(types@.take(i as int) =~= types@);
        ContractPredicate { trait_name, with_arguments: self.0.len() > 0, bindings }
    }

    /// The types but the reserved ones.
    pub fn filtered(&self) -> (types: Vec<&'a TraitItemType>)
        ensures
            types@ == types_without_special(self.0@),
    {
        self.without_special()
    }
}

/// The associated types that a contract sets, but the reserved ones.
pub open spec fn impl_types<'a>(items: Seq<ImplItem>) -> Seq<&'a ImplItemType>
    decreases items.len(),
{
    if items.len() == 0 {
        Seq::empty()
    } else {
        match &items.last() {
            ImplItem::Type(ty) => if is_reserved(ty.ident@) {
                impl_types(items.drop_last())
            } else {
                impl_types(items.drop_last()).push(ty)
            },
            _ => impl_types(items.drop_last()),
        }
    }
}

/// The names of the types.
pub open spec fn impl_type_names<'a>(types: Seq<&'a ImplItemType>) -> Seq<&'a String> {
    types.map_values(|ty: &'a ImplItemType| &ty.ident)
}

/// The types that the associated types are set to.
pub open spec fn impl_type_values<'a>(types: Seq<&'a ImplItemType>) -> Seq<&'a TypeDesc> {
    types.map_values(|ty: &'a ImplItemType| &ty.ty)
}

/// The associated types that the implementation of an interface sets.
#[derive(Debug)]
pub struct ImplAssociatedTypes<'a>(pub Vec<&'a ImplItemType>);

impl<'a> ImplAssociatedTypes<'a> {
    /// The associated types that `source` sets, but the reserved ones, in
    /// the order in which they stand.
    pub fn new(source: &'a ItemImpl) -> (types: Self)
        ensures
            types.0@ == impl_types(source.items@),
    {
        let mut associated_types: Vec<&'a ImplItemType> = Vec::new();
        let mut i: usize = 0;
        while i < source.items.len()
            invariant
                i <= source.items@.len(),
                associated_types@ == impl_types(source.items@.take(i as int)),
            decreases source.items@.len() - i,
        {
            assert(source.items@.take(i + 1).drop_last() =~= source.items@.take(i as int));
            if let ImplItem::Type(ty) = &source.items[i] {
                if !reserved(ty.ident.as_str()) {
                    associated_types.push(ty);
                }
            }
            i += 1;
        }
        assert(source.items@.take(i as int) =~= source.items@);
        ImplAssociatedTypes(associated_types)
    }

    /// The names of the types.
    pub fn as_names(&self) -> (names: Vec<&'a String>)
        ensures
            names@ == impl_type_names(self.0@),
    {
        let mut names: Vec<&'a String> = Vec::new();
        let mut i: usize = 0;
        while i < self.0.len()
            invariant
                i <= self.0@.len(),
                names@ == impl_type_names(self.0@.take(i as int)),
            decreases self.0@.len() - i,
        {
            let ty: &'a ImplItemType = self.0[i];
            names.push(&ty.ident);
            assert(names@ =~= impl_type_names(self.0@.take(i + 1)));
            i += 1;
        }
        assert(self.0@.take(i as int) =~= self.0@);
        names
    }

    /// The types that the associated types are set to.
    pub fn as_types(&self) -> (types: Vec<&'a TypeDesc>)
        ensures
            types@ == impl_type_values(self.0@),
    {
        let mut types: Vec<&'a TypeDesc> = Vec::new();
        let mut i: usize = 0;
        while i < self.0.len()
            invariant
                i <= self.0@.len(),
                types@ == impl_type_values(self.0@.take(i as int)),
            decreases self.0@.len() - i,
        {
            let ty: &'a ImplItemType = self.0[i];
            types.push(&ty.ty);
            assert(types@ =~= impl_type_values(self.0@.take(i + 1)));
            i += 1;
        }
        assert(self.0@.take(i as int) =~= self.0@);
        types
    }

    /// The types as they stand in the implementation.
    pub fn as_item_types(&self) -> (types: &Vec<&'a ImplItemType>)
        ensures
            types == &self.0,
    {
        &self.0
    }

    /// For each type, the declaration of an associated type of its name.
    pub fn emit_types_declaration(&self) -> (items: Vec<TypeItem<'a>>)
        ensures
            items@.len() == self.0@.len(),
            forall|i: int|
                0 <= i < items@.len() ==> {
                    &&& (#[trigger] items@[i]).name == &self.0@[i].ident
                    &&& items@[i].bounds is None
                    &&& items@[i].value is None
                },
    {
        let names = self.as_names();
        let mut items: Vec<TypeItem<'a>> = Vec::new();
        let mut i: usize = 0;
        while i < names.len()
            invariant
                i <= names@.len(),
                names@ == impl_type_names(self.0@),
                items@.len() == i,
                forall|k: int|
                    0 <= k < i ==> {
                        &&& (#[trigger] items@[k]).name == names@[k]
                        &&& items@[k].bounds is None
                        &&& items@[k].value is None
                    },
            decreases names@.len() - i,
        {
            items.push(TypeItem { name: names[i], bounds: None, value: None });
            i += 1;
        }
        items
    }
}

/// A generated associated type made from a predicate of a `where` clause:
/// it is named by the bound type of the predicate.
#[derive(Clone, Copy, Debug)]
pub struct PredicateItem<'a> {
    pub bounded_ty: &'a TypeDesc,
    /// The bounds of the type, where it is declared.
    pub bounds: Option<&'a Vec<TypeDesc>>,
    /// The type that it is set to, where it is defined.
    pub value: Option<&'a TypeDesc>,
}

/// The associated types that the predicates of a `where` clause stand for.
pub trait EmitAssociated {
    spec fn predicates_spec(&self) -> Seq<WherePredicate>;

    /// For each predicate, the declaration of an associated type named by
    /// the bound type, with the bounds of the predicate.
    fn emit_declaration(&self) -> (items: Vec<PredicateItem<'_>>)
        ensures
            items@.len() == self.predicates_spec().len(),
            forall|i: int|
                0 <= i < items@.len() ==> {
                    &&& (#[trigger] items@[i]).bounded_ty == &self.predicates_spec()[i].bounded_ty
                    &&& items@[i].bounds == Some(&self.predicates_spec()[i].bounds)
                    &&& items@[i].value is None
                },
    ;

    /// For each predicate, the definition that sets the associated type
    /// named by the bound type to that type.
    fn emit_implementation(&self) -> (items: Vec<PredicateItem<'_>>)
        ensures
            items@.len() == self.predicates_spec().len(),
            forall|i: int|
                0 <= i < items@.len() ==> {
                    &&& (#[trigger] items@[i]).bounded_ty == &self.predicates_spec()[i].bounded_ty
                    &&& items@[i].bounds is None
                    &&& items@[i].value == Some(&self.predicates_spec()[i].bounded_ty)
                },
    ;
}

impl EmitAssociated for Vec<WherePredicate> {
    open spec fn predicates_spec(&self) -> Seq<WherePredicate> {
        self@
    }

    fn emit_declaration(&self) -> (items: Vec<PredicateItem<'_>>) {
        let mut items: Vec<PredicateItem<'_>> = Vec::new();
        let mut i: usize = 0;
        while i < self.len()
            invariant
                i <= self@.len(),
                items@.len() == i,
                forall|k: int|
                    0 <= k < i ==> {
                        &&& (#[trigger] items@[k]).bounded_ty == &self@[k].bounded_ty
                        &&& items@[k].bounds == Some(&self@[k].bounds)
                        &&& items@[k].value is None
                    },
            decreases self@.len() - i,
        {
            let predicate = &self[i];
            items.push(
                PredicateItem {
                    bounded_ty: &predicate.bounded_ty,
                    bounds: Some(&predicate.bounds),
                    value: None,
                },
            );
            i += 1;
        }
        items
    }

    fn emit_implementation(&self) -> (items: Vec<PredicateItem<'_>>) {
        let mut items: Vec<PredicateItem<'_>> = Vec::new();
        let mut i: usize = 0;
        while i < self.len()
            invariant
                i <= self@.len(),
                items@.len() == i,
                forall|k: int|
                    0 <= k < i ==> {
                        &&& (#[trigger] items@[k]).bounded_ty == &self@[k].bounded_ty
                        &&& items@[k].bounds is None
                        &&& items@[k].value == Some(&self@[k].bounded_ty)
                    },
            decreases self@.len() - i,
        {
            let predicate = &self[i];
            items.push(
                PredicateItem {
                    bounded_ty: &predicate.bounded_ty,
                    bounds: None,
                    value: Some(&predicate.bounded_ty),
                },
            );
            i += 1;
        }
        items
    }
}

} // verus!
