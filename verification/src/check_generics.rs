//! Which of the declared type placeholders a set of types refers to.

use crate::schema::{any_mentions, GenericParam, TypeDesc};
use vstd::prelude::*;

verus! {

/// The placeholders of `generics` that one of the types `visited` refers
/// to, in the order of their declaration.
pub open spec fn used_generics<'g>(generics: Seq<&'g GenericParam>, visited: Seq<TypeDesc>) -> Seq<
    &'g GenericParam,
>
    decreases generics.len(),
{
    if generics.len() == 0 {
        Seq::empty()
    } else {
        let rest = used_generics(generics.drop_last(), visited);
        if any_mentions(visited, generics.last().ident@) {
            rest.push(generics.last())
        } else {
            rest
        }
    }
}

/// The placeholders of `generics` that none of the types `visited` refers
/// to, in the order of their declaration.
pub open spec fn unused_generics<'g>(generics: Seq<&'g GenericParam>, visited: Seq<TypeDesc>) -> Seq<
    &'g GenericParam,
>
    decreases generics.len(),
{
    if generics.len() == 0 {
        Seq::empty()
    } else {
        let rest = unused_generics(generics.drop_last(), visited);
        if any_mentions(visited, generics.last().ident@) {
            rest
        } else {
            rest.push(generics.last())
        }
    }
}

/// Collects, type by type, which of the declared placeholders are referred
/// to.
pub struct CheckGenerics<'g> {
    generics: &'g [&'g GenericParam],
    marks: Vec<bool>,
    visited: Ghost<Seq<TypeDesc>>,
}

impl<'g> CheckGenerics<'g> {
    /// The placeholders that were declared.
    pub closed spec fn generics(&self) -> Seq<&'g GenericParam> {
        self.generics@
    }

    /// The types looked at so far.
    pub closed spec fn visited(&self) -> Seq<TypeDesc> {
        self.visited@
    }

    /// Each placeholder is marked exactly when a type looked at refers to it.
    pub closed spec fn wf(&self) -> bool {
        &&& self.marks@.len() == self.generics@.len()
        &&& forall|i: int|
            0 <= i < self.marks@.len() ==> #[trigger] self.marks@[i] == any_mentions(
                self.visited@,
                self.generics@[i].ident@,
            )
    }

    /// Starts with no type looked at.
    pub fn new(generics: &'g [&'g GenericParam]) -> (made: Self)
        ensures
            made.wf(),
            made.generics() == generics@,
            made.visited() == Seq::<TypeDesc>::empty(),
    {
        let mut marks: Vec<bool> = Vec::new();
        let mut i: usize = 0;
        while i < generics.len()
            invariant
                i <= generics@.len(),
                marks@.len() == i,
                forall|k: int| 0 <= k < i ==> !#[trigger] marks@[k],
            decreases generics@.len() - i,
        {
            marks.push(false);
            i += 1;
        }
        CheckGenerics { generics, marks, visited: Ghost(Seq::empty()) }
    }

    /// Looks at one more type.
    pub fn visit_type(&mut self, ty: &TypeDesc)
        requires
            old(self).wf(),
        ensures
            final(self).wf(),
            final(self).generics() == old(self).generics(),
            final(self).visited() == old(self).visited().push(*ty),
    {
        let ghost before = self.visited@;
        let ghost after = before.push(*ty);
        let mut i: usize = 0;
        while i < self.generics.len()
            invariant
                i <= self.generics@.len(),
                self.generics == old(self).generics,
                self.visited@ == before,
                after == before.push(*ty),
                self.marks@.len() == self.generics@.len(),
                forall|k: int|
                    0 <= k < i ==> #[trigger] self.marks@[k] == any_mentions(
                        after,
                        self.generics@[k].ident@,
                    ),
                forall|k: int|
                    i <= k < self.marks@.len() ==> #[trigger] self.marks@[k] == any_mentions(
                        before,
                        self.generics@[k].ident@,
                    ),
            decreases self.generics@.len() - i,
        {
            let hit = ty.uses(self.generics[i].ident.as_str());
            proof {
                lemma_any_mentions_push(before, *ty, self.generics@[i as int].ident@);
            }
            if hit {
                self.marks.set(i, true);
            }
            i += 1;
        }
        self.visited = Ghost(after);
    }

    /// Looks at each of the types.
    pub fn visit_types(&mut self, types: &Vec<TypeDesc>)
        requires
            old(self).wf(),
        ensures
            final(self).wf(),
            final(self).generics() == old(self).generics(),
            final(self).visited() == old(self).visited() + types@,
    {
        let mut i: usize = 0;
        while i < types.len()
            invariant
                i <= types@.len(),
                self.wf(),
                self.generics() == old(self).generics(),
                self.visited() == old(self).visited() + types@.take(i as int),
            decreases types@.len() - i,
        {
            self.visit_type(&types[i]);
            assert(types@.take(i + 1) =~= types@.take(i as int).push(types@[i as int]));
            assert(self.visited() =~= old(self).visited() + types@.take(i + 1));
            i += 1;
        }
        assert(types@.take(i as int) =~= types@);
    }

    /// Tells whether a type looked at refers to the placeholder at `index`.
    pub fn is_used(&self, index: usize) -> (r: bool)
        requires
            self.wf(),
            index < self.generics().len(),
        ensures
            r == any_mentions(self.visited(), self.generics()[index as int].ident@),
    {
        self.marks[index]
    }

    /// The placeholders that a type looked at refers to.
    pub fn used(self) -> (used: Vec<&'g GenericParam>)
        requires
            self.wf(),
        ensures
            used@ == used_generics(self.generics(), self.visited()),
    {
        let (used, _) = self.used_unused();
        used
    }

    /// The declared placeholders in two parts: those that a type looked at
    /// refers to, and the others.
    pub fn used_unused(self) -> (parts: (Vec<&'g GenericParam>, Vec<&'g GenericParam>))
        requires
            self.wf(),
        ensures
            parts.0@ == used_generics(self.generics(), self.visited()),
            parts.1@ == unused_generics(self.generics(), self.visited()),
    {
        let mut used: Vec<&'g GenericParam> = Vec::new();
        let mut unused: Vec<&'g GenericParam> = Vec::new();
        let mut i: usize = 0;
        while i < self.generics.len()
            invariant
                i <= self.generics@.len(),
                self.wf(),
                used@ == used_generics(self.generics@.take(i as int), self.visited@),
                unused@ == unused_generics(self.generics@.take(i as int), self.visited@),
            decreases self.generics@.len() - i,
        {
            assert(self.generics@.take(i + 1).drop_last() =~= self.generics@.take(i as int));
            if self.marks[i] {
                used.push(self.generics[i]);
            } else {
                unused.push(self.generics[i]);
            }
            i += 1;
        }
        assert(self.generics@.take(i as int) =~= self.generics@);
        (used, unused)
    }
}

/// A list of types refers to a placeholder once one more type is added
/// exactly when it did before or the added type does.
pub proof fn lemma_any_mentions_push(types: Seq<TypeDesc>, ty: TypeDesc, ident: Seq<char>)
    ensures
        any_mentions(types.push(ty), ident) <==> any_mentions(types, ident) || ty.mentions(ident),
{
    let longer = types.push(ty);
    if any_mentions(types, ident) {
        let i = choose|i: int| 0 <= i < types.len() && (#[trigger] types[i]).mentions(ident);
        assert(longer[i].mentions(ident));
    }
    if ty.mentions(ident) {
        assert(longer[types.len() as int].mentions(ident));
    }
    if any_mentions(longer, ident) {
        let i = choose|i: int| 0 <= i < longer.len() && (#[trigger] longer[i]).mentions(ident);
        if i < types.len() {
            assert(types[i].mentions(ident));
        }
    }
}

/// The placeholders in use are exactly the declared ones that a type
/// looked at refers to: no other is among them, and none of those is
/// missing.
pub proof fn lemma_used_generics_exact(generics: Seq<&GenericParam>, visited: Seq<TypeDesc>)
    ensures
        forall|i: int|
            0 <= i < used_generics(generics, visited).len() ==> {
                &&& generics.contains(#[trigger] used_generics(generics, visited)[i])
                &&& any_mentions(visited, used_generics(generics, visited)[i].ident@)
            },
        forall|k: int|
            0 <= k < generics.len() && any_mentions(visited, (#[trigger] generics[k]).ident@)
                ==> used_generics(generics, visited).contains(generics[k]),
        forall|k: int|
            0 <= k < generics.len() && !any_mentions(visited, (#[trigger] generics[k]).ident@)
                ==> unused_generics(generics, visited).contains(generics[k]),
    decreases generics.len(),
{
    if generics.len() > 0 {
        let fewer = generics.drop_last();
        let last = generics.last();
        lemma_used_generics_exact(fewer, visited);
        let used = used_generics(generics, visited);
        let before = used_generics(fewer, visited);
        let unused = unused_generics(generics, visited);
        let unused_before = unused_generics(fewer, visited);
        assert forall|i: int| 0 <= i < used.len() implies {
            &&& generics.contains(#[trigger] used[i])
            &&& any_mentions(visited, used[i].ident@)
        } by {
            if i < before.len() {
                assert(used[i] == before[i]);
                assert(fewer.contains(before[i]));
                let at = choose|at: int| 0 <= at < fewer.len() && fewer[at] == before[i];
                assert(generics[at] == before[i]);
            } else {
                assert(used[i] == last);
                assert(generics[generics.len() - 1] == last);
            }
        }
        assert forall|k: int|
            0 <= k < generics.len() && any_mentions(
                visited,
                (#[trigger] generics[k]).ident@,
            ) implies used.contains(generics[k]) by {
            if k < fewer.len() {
                assert(fewer[k] == generics[k]);
                assert(before.contains(fewer[k]));
                let at = choose|at: int| 0 <= at < before.len() && before[at] == fewer[k];
                assert(used[at] == generics[k]);
            } else {
                assert(used[used.len() - 1] == generics[k]);
            }
        }
        assert forall|k: int|
            0 <= k < generics.len() && !any_mentions(
                visited,
                (#[trigger] generics[k]).ident@,
            ) implies unused.contains(generics[k]) by {
            if k < fewer.len() {
                assert(fewer[k] == generics[k]);
                assert(unused_before.contains(fewer[k]));
                let at = choose|at: int|
                    0 <= at < unused_before.len() && unused_before[at] == fewer[k];
                assert(unused[at] == generics[k]);
            } else {
                assert(unused[unused.len() - 1] == generics[k]);
            }
        }
    }
}

/// Of two declared placeholders of which the types looked at refer to the
/// first alone, the first alone is in use.
pub proof fn lemma_only_first_used(first: &GenericParam, second: &GenericParam, visited: Seq<TypeDesc>)
    requires
        any_mentions(visited, first.ident@),
        !any_mentions(visited, second.ident@),
    ensures
        used_generics(seq![first, second], visited) == seq![first],
        unused_generics(seq![first, second], visited) == seq![second],
{
    let both = seq![first, second];
    assert(both.drop_last() =~= seq![first]);
    assert(seq![first].drop_last() =~= Seq::<&GenericParam>::empty());
    reveal_with_fuel(used_generics, 3);
    reveal_with_fuel(unused_generics, 3);
    assert(used_generics(both, visited) =~= seq![first]);
    assert(unused_generics(both, visited) =~= seq![second]);
}

} // verus!
