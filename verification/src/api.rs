//! The summary of an interface's message types: for each kind the type
//! arguments, among the interface's associated types, that it is used with.

use crate::associated_types::{
    type_names, type_predicates, types_without_error, types_without_special, AssociatedTypes,
    TypePredicate,
};
use crate::check_generics::CheckGenerics;
use crate::error::SchemaError;
use crate::message::{
    build_variants, methods_of_trait, picked, picked_types, select_messages, trait_methods,
};
use crate::parser::{Custom, CustomQuery, MsgType};
use crate::schema::{any_mentions, GenericParam, ItemTrait, TraitItemType, TypeDesc};
use vstd::prelude::*;
use vstd::string::StringExecFns;

verus! {

/// How a type refers to the associated type `name` of its interface.
pub open spec fn associated_key(name: Seq<char>) -> Seq<char> {
    "Self::"@ + name
}

/// The names, in their order, of the associated types that one of the
/// types refers to.
pub open spec fn used_names<'a>(names: Seq<&'a String>, types: Seq<TypeDesc>) -> Seq<&'a String>
    decreases names.len(),
{
    if names.len() == 0 {
        Seq::empty()
    } else {
        let before = used_names(names.drop_last(), types);
        if any_mentions(types, associated_key(names.last()@)) {
            before.push(names.last())
        } else {
            before
        }
    }
}

/// What the summary of an interface is made from.
#[derive(Debug)]
pub struct Api<'a> {
    pub source: &'a ItemTrait,
    pub custom: &'a Custom,
    pub associated_types: &'a AssociatedTypes<'a>,
}

/// The generated summary of an interface.
#[derive(Debug)]
pub struct ApiDef<'a> {
    pub interface_name: &'a String,
    /// The associated types of the interface but the error: the type
    /// parameters of the summary.
    pub generics: Vec<&'a String>,
    /// For each kind of message the type arguments of its message type.
    pub exec_generics: Vec<&'a String>,
    pub query_generics: Vec<&'a String>,
    pub sudo_generics: Vec<&'a String>,
    pub custom_query: CustomQuery<'a>,
    pub where_clause: Option<Vec<TypePredicate<'a>>>,
    /// Whether the summary holds a marker of its type parameters: it does
    /// where it has any.
    pub phantom: bool,
}

/// The names among `names` that the messages of the kind `ty` of the
/// interface refer to as associated types.
fn used_associated<'a>(source: &ItemTrait, ty: MsgType, names: &Vec<&'a String>) -> (used: Vec<
    &'a String,
>)
    ensures
        used@ == used_names(names@, picked_types(picked(trait_methods(source.items@), ty))),
{
    let mut params: Vec<GenericParam> = Vec::new();
    let mut i: usize = 0;
    while i < names.len()
        invariant
            i <= names@.len(),
            params@.len() == i,
            forall|k: int| 0 <= k < i ==> (#[trigger] params@[k]).ident@ == associated_key(names@[k]@),
        decreases names@.len() - i,
    {
        let ident = String::from_str("Self::").concat(names[i].as_str());
        params.push(GenericParam { ident, bounds: Vec::new() });
        i += 1;
    }
    let mut refs: Vec<&GenericParam> = Vec::new();
    let mut j: usize = 0;
    while j < params.len()
        invariant
            j <= params@.len(),
            refs@.len() == j,
            forall|k: int| 0 <= k < j ==> (#[trigger] refs@[k]) == &params@[k],
        decreases params@.len() - j,
    {
        refs.push(&params[j]);
        j += 1;
    }
    let mut generics_checker = CheckGenerics::new(refs.as_slice());
    let mut scratch: Vec<SchemaError> = Vec::new();
    let methods = methods_of_trait(source);
    let chosen = select_messages(&methods, ty, &mut scratch);
    let _ = build_variants(&chosen, &mut generics_checker, &mut scratch);
    let ghost types = picked_types(chosen@);
    assert(generics_checker.visited() =~= types);
    let mut used: Vec<&'a String> = Vec::new();
    let mut k: usize = 0;
    while k < names.len()
        invariant
            k <= names@.len(),
            names@.len() == refs@.len(),
            generics_checker.wf(),
            generics_checker.generics() == refs@,
            generics_checker.visited() == types,
            forall|c: int| 0 <= c < names@.len() ==> (#[trigger] refs@[c]).ident@ == associated_key(names@[c]@),
            used@ == used_names(names@.take(k as int), types),
        decreases names@.len() - k,
    {
        assert(names@.take(k + 1).drop_last() =~= names@.take(k as int));
        if generics_checker.is_used(k) {
            used.push(names[k]);
        }
        k += 1;
    }
    assert(names@.take(k as int) =~= names@);
    used
}

impl<'a> Api<'a> {
    /// Puts together what the summary of an interface is made from.
    pub fn new(
        source: &'a ItemTrait,
        custom: &'a Custom,
        associated_types: &'a AssociatedTypes<'a>,
    ) -> (api: Self)
        ensures
            api.source == source,
            api.custom == custom,
            api.associated_types == associated_types,
    {
        Api { source, custom, associated_types }
    }

    /// The summary is the one generated for this interface.
    pub open spec fn emitted_as(&self, def: &ApiDef) -> bool {
        let methods = trait_methods(self.source.items@);
        let names = type_names(types_without_error(self.associated_types.0@));
        &&& def.interface_name == &self.source.ident
        &&& def.generics@ == names
        &&& def.exec_generics@ == used_names(names, picked_types(picked(methods, MsgType::Exec)))
        &&& def.query_generics@ == used_names(names, picked_types(picked(methods, MsgType::Query)))
        &&& def.sudo_generics@ == used_names(names, picked_types(picked(methods, MsgType::Sudo)))
        &&& match &self.custom.query {
            Some(ty) => def.custom_query == CustomQuery::Given(ty),
            None => def.custom_query is Empty,
        }
        &&& match def.where_clause {
            Some(predicates) => predicates@.len() > 0 && predicates@ == type_predicates(
                types_without_special(self.associated_types.0@),
            ),
            None => types_without_special(self.associated_types.0@).len() == 0,
        }
        &&& def.phantom == (names.len() > 0)
    }

    /// The summary of the interface: its associated types but the error as
    /// type parameters, and for each kind of message those of them that the
    /// messages of that kind refer to.
    pub fn emit(&self) -> (def: ApiDef<'a>)
        ensures
            self.emitted_as(&def),
    {
        let where_clause = self.associated_types.as_where_clause();
        let custom_query = self.custom.query_or_default();
        let types = self.associated_types.without_error();
        let mut generics: Vec<&'a String> = Vec::new();
        let mut i: usize = 0;
        while i < types.len()
            invariant
                i <= types@.len(),
                generics@ == type_names(types@.take(i as int)),
            decreases types@.len() - i,
        {
            let ty: &'a TraitItemType = types[i];
            generics.push(&ty.ident);
            assert(generics@ =~= type_names(types@.take(i + 1)));
            i += 1;
        }
        assert(types@.take(i as int) =~= types@);
        let exec_generics = used_associated(self.source, MsgType::Exec, &generics);
        let query_generics = used_associated(self.source, MsgType::Query, &generics);
        let sudo_generics = used_associated(self.source, MsgType::Sudo, &generics);
        let phantom = generics.len() > 0;
        ApiDef {
            interface_name: &self.source.ident,
            generics,
            exec_generics,
            query_generics,
            sudo_generics,
            custom_query,
            where_clause,
            phantom,
        }
    }
}

} // verus!
