//! The collision check: no message name may be contributed by two of the
//! message lists that are merged into one entry point.

use crate::lexical::{
    lemma_name_le_total, lemma_name_le_trans, lemma_name_order_same, name_le, order_of, same_str,
    Precedence,
};
use vstd::prelude::*;

verus! {

/// Progress of the merge through one list.
#[derive(Debug, Copy, Clone)]
pub enum State {
    /// The name at this position is the next one to look at.
    Ongoing(usize),
    /// Every name has been looked at; the position is that of the last one.
    Finished(usize),
    /// The list holds no name.
    Empty,
}

/// The names of one list.
pub open spec fn row_names(row: Seq<&str>) -> Seq<Seq<char>> {
    Seq::new(row.len(), |j: int| row[j]@)
}

/// The names of all lists, list by list.
pub open spec fn table_names(msgs: Seq<&[&str]>) -> Seq<Seq<Seq<char>>> {
    Seq::new(msgs.len(), |i: int| row_names(msgs[i]@))
}

/// The state in which the merge starts on a list of `len` names.
pub open spec fn initial_state(len: nat) -> State {
    if len == 0 {
        State::Empty
    } else {
        State::Ongoing(0)
    }
}

/// The merge is over: no list has a name left to look at.
pub open spec fn all_done(states: Seq<State>) -> bool {
    forall|i: int| 0 <= i < states.len() ==> !(#[trigger] states[i] is Ongoing)
}

/// Starts every list at its first name.
pub fn init_states(msgs: &[&[&str]]) -> (states: Vec<State>)
    ensures
        states@.len() == msgs@.len(),
        forall|i: int|
            0 <= i < msgs@.len() ==> #[trigger] states@[i] == initial_state(msgs@[i]@.len()),
{
    let mut states: Vec<State> = Vec::new();
    let mut i: usize = 0;
    while i < msgs.len()
        invariant
            i <= msgs@.len(),
            states@.len() == i,
            forall|k: int| 0 <= k < i ==> #[trigger] states@[k] == initial_state(msgs@[k]@.len()),
        decreases msgs@.len() - i,
    {
        if msgs[i].is_empty() {
            states.push(State::Empty);
        } else {
            states.push(State::Ongoing(0));
        }
        i += 1;
    }
    states
}

/// Tells whether every list has been walked to its end.
pub fn should_end(states: &[State]) -> (done: bool)
    ensures
        done == all_done(states@),
{
    let mut i: usize = 0;
    while i < states.len()
        invariant
            i <= states@.len(),
            forall|k: int| 0 <= k < i ==> !(#[trigger] states@[k] is Ongoing),
        decreases states@.len() - i,
    {
        if let State::Ongoing(..) = states[i] {
            return false;
        }
        i += 1;
    }
    true
}

/// The names of a list stand in ascending order.
pub open spec fn ascending(names: Seq<Seq<char>>) -> bool {
    forall|a: int, b: int|
        0 <= a <= b < names.len() ==> name_le(#[trigger] names[a], #[trigger] names[b])
}

/// The same names in ascending order.
fn sorted_names<'a>(names: &[&'a str]) -> (out: Vec<&'a str>)
    ensures
        out@.len() == names@.len(),
        ascending(row_names(out@)),
        forall|q: Seq<char>| row_names(out@).contains(q) <==> row_names(names@).contains(q),
{
    let mut out: Vec<&'a str> = Vec::new();
    let mut k: usize = 0;
    while k < names.len()
        invariant
            k <= names@.len(),
            out@.len() == k,
            ascending(row_names(out@)),
            forall|q: Seq<char>|
                row_names(out@).contains(q) <==> row_names(names@.take(k as int)).contains(q),
        decreases names@.len() - k,
    {
        let name = names[k];
        let mut pos: usize = 0;
        while pos < out.len() && order_of(out[pos], name) != Precedence::After
            invariant
                pos <= out@.len(),
                forall|a: int| 0 <= a < pos ==> name_le(#[trigger] out@[a]@, name@),
            decreases out@.len() - pos,
        {
            pos += 1;
        }
        let ghost before = row_names(out@);
        let ghost seen = row_names(names@.take(k as int));
        out.insert(pos, name);
        proof {
            let after = row_names(out@);
            assert(after =~= before.insert(pos as int, name@));
            assert forall|a: int, b: int| 0 <= a <= b < after.len() implies name_le(
                #[trigger] after[a],
                #[trigger] after[b],
            ) by {
                lemma_name_order_same(name@, name@);
                if b < pos {
                    assert(after[a] == before[a] && after[b] == before[b]);
                } else if b == pos {
                    if a < pos {
                        assert(after[a] == before[a]);
                    }
                } else if a > pos {
                    assert(after[a] == before[a - 1] && after[b] == before[b - 1]);
                } else {
                    // a <= pos < b: the name put in sorts before what follows it
                    assert(after[b] == before[b - 1]);
                    lemma_name_le_total(before[pos as int], name@);
                    assert(name_le(name@, before[pos as int]));
                    assert(name_le(before[pos as int], before[b - 1]));
                    lemma_name_le_trans(name@, before[pos as int], before[b - 1]);
                    if a < pos {
                        assert(after[a] == before[a]);
                        lemma_name_le_trans(before[a], name@, before[b - 1]);
                    }
                }
            }
            let seen_next = row_names(names@.take(k + 1));
            assert(seen_next =~= seen.push(name@));
            assert forall|q: Seq<char>| after.contains(q) <==> seen_next.contains(q) by {
                if after.contains(q) {
                    let at = choose|at: int| 0 <= at < after.len() && after[at] == q;
                    if at < pos {
                        assert(before[at] == q);
                    } else if at > pos {
                        assert(before[at - 1] == q);
                    }
                    if before.contains(q) {
                        let was = choose|was: int| 0 <= was < seen.len() && seen[was] == q;
                        assert(seen_next[was] == q);
                    } else {
                        assert(seen_next[k as int] == q);
                    }
                }
                if seen_next.contains(q) {
                    let at = choose|at: int| 0 <= at < seen_next.len() && seen_next[at] == q;
                    if at < k {
                        assert(seen[at] == q);
                        assert(seen.contains(q));
                        assert(before.contains(q));
                        let was = choose|was: int| 0 <= was < before.len() && before[was] == q;
                        if was < pos {
                            assert(after[was] == q);
                        } else {
                            assert(after[was + 1] == q);
                        }
                    } else {
                        assert(after[pos as int] == q);
                    }
                }
            }
        }
        k += 1;
    }
    assert(names@.take(k as int) =~= names@);
    out
}

/// The names of the sorted copies, list by list.
pub open spec fn sorted_table(rows: Seq<Vec<&str>>) -> Seq<Seq<Seq<char>>> {
    Seq::new(rows.len(), |i: int| row_names(rows[i]@))
}

/// A state is one that the merge can be in on a list of `len` names.
pub open spec fn state_fits(state: State, len: nat) -> bool {
    match state {
        State::Ongoing(at) => at < len,
        State::Finished(at) => at + 1 == len,
        State::Empty => len == 0,
    }
}

/// Each list has a state that fits it.
pub open spec fn states_fit(states: Seq<State>, table: Seq<Seq<Seq<char>>>) -> bool {
    &&& states.len() == table.len()
    &&& forall|i: int| 0 <= i < states.len() ==> state_fits(#[trigger] states[i], table[i].len())
}

/// How many names of its list a state has behind it.
pub open spec fn passed(state: State) -> int {
    match state {
        State::Ongoing(at) => at as int,
        State::Finished(at) => at + 1,
        State::Empty => 0,
    }
}

/// The position that a state points at, if it points at one.
pub open spec fn current(state: State) -> Option<int> {
    match state {
        State::Ongoing(at) => Some(at as int),
        State::Finished(at) => Some(at as int),
        State::Empty => None,
    }
}

/// No name that the merge has behind it occurs in another list.
pub open spec fn passed_are_unique(states: Seq<State>, table: Seq<Seq<Seq<char>>>) -> bool {
    forall|i: int, a: int, j: int, b: int|
        0 <= i < table.len() && 0 <= a < passed(states[i]) && 0 <= j < table.len() && j != i && 0
            <= b < table[j].len() ==> #[trigger] table[i][a] != #[trigger] table[j][b]
}

/// The list `index` is the one to advance: its next name sorts first among
/// the next names of all lists, and no list before it has the same next name.
pub open spec fn is_pivot(states: Seq<State>, table: Seq<Seq<Seq<char>>>, index: int) -> bool {
    &&& 0 <= index < states.len()
    &&& states[index] is Ongoing
    &&& forall|j: int|
        0 <= j < states.len() && (#[trigger] states[j]) is Ongoing ==> {
            &&& name_le(table[index][passed(states[index])], table[j][passed(states[j])])
            &&& j < index ==> table[j][passed(states[j])] != table[index][passed(states[index])]
        }
}

/// Names still ahead of the merge, over all lists.
pub open spec fn names_ahead(states: Seq<State>, table: Seq<Seq<Seq<char>>>) -> int
    decreases states.len(),
{
    if states.len() == 0 || table.len() == 0 {
        0
    } else {
        names_ahead(states.drop_last(), table.drop_last()) + table.last().len() - passed(
            states.last(),
        )
    }
}

/// Advancing one list by a name leaves one name less ahead.
proof fn lemma_names_ahead_step(
    states: Seq<State>,
    table: Seq<Seq<Seq<char>>>,
    index: int,
    next: State,
)
    requires
        states_fit(states, table),
        0 <= index < states.len(),
        passed(next) == passed(states[index]) + 1,
    ensures
        names_ahead(states.update(index, next), table) == names_ahead(states, table) - 1,
        names_ahead(states, table) >= 0,
    decreases states.len(),
{
    let shorter = states.drop_last();
    let fewer = table.drop_last();
    assert(states_fit(shorter, fewer));
    if index == states.len() - 1 {
        assert(states.update(index, next).drop_last() =~= shorter);
        lemma_names_ahead_bound(shorter, fewer);
    } else {
        assert(states.update(index, next).drop_last() =~= shorter.update(index, next));
        lemma_names_ahead_step(shorter, fewer, index, next);
    }
}

/// The number of names ahead is never negative.
proof fn lemma_names_ahead_bound(states: Seq<State>, table: Seq<Seq<Seq<char>>>)
    requires
        states_fit(states, table),
    ensures
        names_ahead(states, table) >= 0,
    decreases states.len(),
{
    if states.len() > 0 {
        assert(states_fit(states.drop_last(), table.drop_last()));
        lemma_names_ahead_bound(states.drop_last(), table.drop_last());
    }
}

/// Every state that points at a name points into its list.
pub open spec fn states_in_range(states: Seq<State>, table: Seq<Seq<Seq<char>>>) -> bool {
    &&& states.len() == table.len()
    &&& forall|i: int|
        0 <= i < states.len() ==> match current(#[trigger] states[i]) {
            Some(at) => at < table[i].len(),
            None => true,
        }
}

/// Picks the list whose next name sorts first; of several with the same next
/// name, the one declared first. Where no list has a next name, the first
/// position is given.
fn get_index_of_alphabetically_smallest(rows: &Vec<Vec<&str>>, states: &[State]) -> (index:
    usize)
    requires
        states_in_range(states@, sorted_table(rows@)),
    ensures
        !all_done(states@) ==> is_pivot(states@, sorted_table(rows@), index as int),
        all_done(states@) ==> index == 0,
{
    let ghost table = sorted_table(rows@);
    let count = states.len();
    let mut i: usize = 1;
    let mut output_index: usize = 0;
    if count == 0 {
        return 0;
    }
    proof {
        if states[0] is Ongoing {
            let first = table[0][passed(states[0])];
            lemma_name_order_same(first, first);
        }
    }
    while i < count
        invariant
            1 <= i,
            count > 0,
            count == states@.len(),
            output_index < i,
            output_index < count,
            rows@.len() == count,
            table == sorted_table(rows@),
            states_in_range(states@, table),
            !(states[output_index as int] is Ongoing) ==> output_index == 0,
            states[output_index as int] is Ongoing || forall|j: int|
                0 <= j < i && j < count ==> !(#[trigger] states[j] is Ongoing),
            states[output_index as int] is Ongoing ==> forall|j: int|
                0 <= j < i && j < count && (#[trigger] states[j]) is Ongoing ==> {
                    &&& name_le(
                        table[output_index as int][passed(states[output_index as int])],
                        table[j][passed(states[j])],
                    )
                    &&& j < output_index ==> table[j][passed(states[j])]
                        != table[output_index as int][passed(states[output_index as int])]
                },
        decreases count - i,
    {
        match states[i] {
            State::Ongoing(outer_i) => match states[output_index] {
                State::Ongoing(inner_i) => {
                    let ghost best = table[output_index as int][inner_i as int];
                    let ghost here = table[i as int][outer_i as int];
                    if order_of(rows[output_index][inner_i], rows[i][outer_i])
                        == Precedence::After {
                        proof {
                            lemma_name_le_total(best, here);
                            lemma_name_order_same(best, here);
                            lemma_name_order_same(here, here);
                            assert forall|j: int|
                                0 <= j < i && (#[trigger] states[j]) is Ongoing implies {
                                &&& name_le(here, table[j][passed(states[j])])
                                &&& table[j][passed(states[j])] != here
                            } by {
                                lemma_name_le_trans(here, best, table[j][passed(states[j])]);
                            }
                        }
                        output_index = i;
                    }
                },
                _ => {
                    proof {
                        lemma_name_order_same(
                            table[i as int][outer_i as int],
                            table[i as int][outer_i as int],
                        );
                    }
                    output_index = i;
                },
            },
            _ => {},
        }
        i += 1;
    }
    output_index
}

/// Looks for a list other than `index` whose current name is the current
/// name of `index`, and returns the first one. A list that points at no
/// name is never compared, nor is `index` with itself; where `index` points
/// at no name, nothing is found.
fn verify_no_collissions(rows: &Vec<Vec<&str>>, states: &[State], index: &usize) -> (found:
    Option<usize>)
    requires
        states_in_range(states@, sorted_table(rows@)),
        *index < states@.len(),
    ensures
        match found {
            Some(other) => {
                &&& other < states@.len()
                &&& other != *index
                &&& shares_current(states@, sorted_table(rows@), *index as int, other as int)
                &&& forall|k: int|
                    0 <= k < other && k != *index ==> !shares_current(
                        states@,
                        sorted_table(rows@),
                        *index as int,
                        k,
                    )
            },
            None => forall|k: int|
                0 <= k < states@.len() && k != *index ==> !shares_current(
                    states@,
                    sorted_table(rows@),
                    *index as int,
                    k,
                ),
        },
{
    let count = states.len();
    let mut i: usize = 0;
    while i < count
        invariant
            i <= count,
            count == states@.len(),
            *index < count,
            rows@.len() == count,
            states_in_range(states@, sorted_table(rows@)),
            forall|k: int|
                0 <= k < i && k != *index ==> !shares_current(
                    states@,
                    sorted_table(rows@),
                    *index as int,
                    k,
                ),
        decreases count - i,
    {
        if i == *index {
            i += 1;
            continue ;
        }
        match states[i] {
            State::Ongoing(outer_i) | State::Finished(outer_i) => match states[*index] {
                State::Ongoing(inner_i) | State::Finished(inner_i) => {
                    if same_str(rows[i][outer_i], rows[*index][inner_i]) {
                        return Some(i);
                    }
                },
                _ => (),
            },
            _ => (),
        }
        i += 1;
    }
    None
}

/// The lists `index` and `other` both point at a name, and it is the same.
pub open spec fn shares_current(
    states: Seq<State>,
    table: Seq<Seq<Seq<char>>>,
    index: int,
    other: int,
) -> bool {
    match (current(states[index]), current(states[other])) {
        (Some(a), Some(b)) => table[index][a] == table[other][b],
        _ => false,
    }
}

/// Two lists that hold one name.
pub struct Collision {
    /// Position of the list that was declared first.
    pub first: usize,
    /// Position of the other list.
    pub second: usize,
    /// The name that both hold.
    pub name: String,
}

/// The lists `i` and `j` are different lists and both hold `name`.
pub open spec fn collides(table: Seq<Seq<Seq<char>>>, i: int, j: int, name: Seq<char>) -> bool {
    &&& 0 <= i < table.len()
    &&& 0 <= j < table.len()
    &&& i != j
    &&& table[i].contains(name)
    &&& table[j].contains(name)
}

/// No name occurs in two lists.
pub open spec fn disjoint(table: Seq<Seq<Seq<char>>>) -> bool {
    forall|i: int, j: int, name: Seq<char>| !collides(table, i, j, name)
}

/// Two lists are disjoint exactly when no name stands in both.
pub proof fn lemma_disjoint_pair(first: Seq<Seq<char>>, second: Seq<Seq<char>>)
    ensures
        disjoint(seq![first, second]) <==> forall|name: Seq<char>|
            !(first.contains(name) && second.contains(name)),
{
    let table = seq![first, second];
    if disjoint(table) {
        assert forall|name: Seq<char>| !(first.contains(name) && second.contains(name)) by {
            assert(!collides(table, 0, 1, name));
        }
    }
    if forall|name: Seq<char>| !(first.contains(name) && second.contains(name)) {
        assert forall|i: int, j: int, name: Seq<char>| !collides(table, i, j, name) by {
            if collides(table, i, j, name) {
                assert(first.contains(name) && second.contains(name));
            }
        }
    }
}

/// The collision that is reported: of all names held by two lists the one
/// that sorts first, with the first two lists that hold it.
pub open spec fn is_first_collision(
    table: Seq<Seq<Seq<char>>>,
    first: int,
    second: int,
    name: Seq<char>,
) -> bool {
    &&& first < second
    &&& collides(table, first, second, name)
    &&& forall|k: int| 0 <= k < second && k != first ==> !(#[trigger] table[k]).contains(name)
    &&& forall|i: int, j: int, other: Seq<char>| #[trigger]
        collides(table, i, j, other) ==> name_le(name, other)
}

/// The two tables hold the same names, list by list.
pub open spec fn same_names(table: Seq<Seq<Seq<char>>>, given: Seq<Seq<Seq<char>>>) -> bool {
    &&& table.len() == given.len()
    &&& forall|i: int, q: Seq<char>|
        0 <= i < table.len() ==> (#[trigger] table[i].contains(q) <==> given[i].contains(q))
}

/// Checks that no name occurs in two of the lists. The lists are walked in
/// ascending order of their names, all at once: at each step the list whose
/// next name sorts first is compared with the current name of every other
/// list and then advanced by one name.
pub fn assert_no_intersection(msgs: &[&[&str]]) -> (r: Result<(), Collision>)
    ensures
        r is Ok <==> disjoint(table_names(msgs@)),
        r matches Err(c) ==> is_first_collision(
            table_names(msgs@),
            c.first as int,
            c.second as int,
            c.name@,
        ),
{
    let ghost given = table_names(msgs@);
    let count = msgs.len();
    let mut rows: Vec<Vec<&str>> = Vec::new();
    let mut i: usize = 0;
    while i < count
        invariant
            i <= count,
            count == msgs@.len(),
            rows@.len() == i,
            given == table_names(msgs@),
            forall|k: int|
                0 <= k < i ==> {
                    &&& (#[trigger] rows@[k])@.len() == msgs[k]@.len()
                    &&& ascending(row_names(rows@[k]@))
                    &&& forall|q: Seq<char>|
                        row_names(rows@[k]@).contains(q) <==> given[k].contains(q)
                },
        decreases count - i,
    {
        let row = sorted_names(msgs[i]);
        rows.push(row);
        i += 1;
    }
    let mut states = init_states(msgs);
    let ghost table = sorted_table(rows@);
    assert(same_names(table, given));
    while !should_end(states.as_slice())
        invariant
            rows@.len() == count,
            count == msgs@.len(),
            table == sorted_table(rows@),
            given == table_names(msgs@),
            same_names(table, given),
            states_fit(states@, table),
            passed_are_unique(states@, table),
            forall|k: int| 0 <= k < count ==> ascending(#[trigger] table[k]),
        decreases names_ahead(states@, table),
    {
        let index = get_index_of_alphabetically_smallest(&rows, states.as_slice());
        if let State::Ongoing(wi) = states[index] {
            let ghost pivot = table[index as int][wi as int];
            let found = verify_no_collissions(&rows, states.as_slice(), &index);
            proof {
                // what lies between a list's next name and the pivot
                assert forall|k: int, b: int|
                    0 <= k < count && k != index && passed(states@[k]) <= b < table[k].len() implies {
                    &&& states@[k] is Ongoing
                    &&& name_le(pivot, table[k][passed(states@[k])])
                    &&& name_le(pivot, #[trigger] table[k][b])
                    &&& pivot == table[k][b] ==> shares_current(states@, table, index as int, k)
                } by {
                    let head = table[k][passed(states@[k])];
                    assert(state_fits(states@[k], table[k].len()));
                    assert(ascending(table[k]));
                    assert(name_le(head, table[k][b]));
                    lemma_name_le_trans(pivot, head, table[k][b]);
                }
            }
            if let Some(other) = found {
                let name = rows[index][wi].to_owned();
                proof {
                    let at = current(states@[other as int])->0;
                    assert(table[other as int][at] == pivot);
                    assert(table[index as int].contains(pivot));
                    assert(table[other as int].contains(pivot));
                    assert(given[index as int].contains(pivot));
                    assert(given[other as int].contains(pivot));
                    assert(state_fits(states@[other as int], table[other as int].len()));
                    assert(index < other);
                    assert(collides(given, index as int, other as int, pivot));
                    assert forall|k: int| 0 <= k < other && k != index implies !(
                    #[trigger] given[k]).contains(pivot) by {
                        if given[k].contains(pivot) {
                            assert(table[k].contains(pivot));
                            let b = choose|b: int| 0 <= b < table[k].len() && table[k][b] == pivot;
                            assert(table[k][b] == table[index as int][wi as int]);
                        }
                    }
                    assert forall|i: int, j: int, q: Seq<char>| #[trigger]
                        collides(given, i, j, q) implies name_le(pivot, q) by {
                        assert(table[i].contains(q));
                        assert(table[j].contains(q));
                        let a = choose|a: int| 0 <= a < table[i].len() && table[i][a] == q;
                        let b = choose|b: int| 0 <= b < table[j].len() && table[j][b] == q;
                        assert(table[i][a] == table[j][b]);
                        if i == index {
                            assert(table[j][b] == q);
                            if a >= wi {
                                assert(ascending(table[i]));
                                assert(name_le(table[i][wi as int], table[i][a]));
                            }
                        }
                    }
                }
                return Err(Collision { first: index, second: other, name });
            }
            let ghost before = states@;
            let next = if rows[index].len() == wi + 1 {
                State::Finished(wi)
            } else {
                State::Ongoing(wi + 1)
            };
            states[index] = next;
            proof {
                assert(states@ =~= before.update(index as int, next));
                lemma_names_ahead_step(before, table, index as int, next);
                assert(states_fit(states@, table));
                lemma_names_ahead_bound(states@, table);
                assert forall|i: int, a: int, j: int, b: int|
                    0 <= i < table.len() && 0 <= a < passed(states@[i]) && 0 <= j < table.len()
                        && j != i && 0 <= b < table[j].len() implies #[trigger] table[i][a]
                    != #[trigger] table[j][b] by {
                    if i == index && a == wi {
                        if b < passed(before[j]) {
                            assert(table[j][b] != table[i][a]);
                        }
                    } else if j == index && b == wi {
                        assert(table[i][a] != table[j][b]);
                    } else {
                        assert(0 <= a < passed(before[i]));
                    }
                }
            }
        }
    }
    proof {
        assert forall|i: int, j: int, q: Seq<char>| !collides(given, i, j, q) by {
            if collides(given, i, j, q) {
                assert(table[i].contains(q));
                assert(table[j].contains(q));
                let a = choose|a: int| 0 <= a < table[i].len() && table[i][a] == q;
                let b = choose|b: int| 0 <= b < table[j].len() && table[j][b] == q;
                assert(state_fits(states@[i], table[i].len()));
                assert(table[i][a] != table[j][b]);
            }
        }
    }
    Ok(())
}

} // verus!
