//! Byte-wise lexicographic order on names, and the facts about it that the
//! collision check needs.

use core::cmp::Ordering;
use vstd::prelude::*;
use vstd::utf8::{encode_utf8, encode_utf8_decode_utf8};

verus! {

/// How one name stands to another.
#[derive(Clone, Copy, Debug, PartialEq, Eq, Structural)]
pub enum Precedence {
    Before,
    Same,
    After,
}

/// Lexicographic order of two byte strings: the first differing byte decides,
/// and a proper prefix comes first.
pub open spec fn lex_order(a: Seq<u8>, b: Seq<u8>) -> Precedence
    decreases a.len(),
{
    if a.len() == 0 {
        if b.len() == 0 {
            Precedence::Same
        } else {
            Precedence::Before
        }
    } else if b.len() == 0 {
        Precedence::After
    } else if a[0] < b[0] {
        Precedence::Before
    } else if a[0] > b[0] {
        Precedence::After
    } else {
        lex_order(a.drop_first(), b.drop_first())
    }
}

/// Order of two names: that of their UTF-8 encodings.
pub open spec fn name_order(a: Seq<char>, b: Seq<char>) -> Precedence {
    lex_order(encode_utf8(a), encode_utf8(b))
}

/// `a` sorts no later than `b`.
pub open spec fn name_le(a: Seq<char>, b: Seq<char>) -> bool {
    name_order(a, b) != Precedence::After
}

/// `konst::cmp_str`: compares the two strings byte by byte; the first
/// position where they differ decides, otherwise the shorter one is smaller.
#[verifier::external_body]
pub(crate) fn order_of(left: &str, right: &str) -> (r: Precedence)
    ensures
        r == name_order(left@, right@),
{
    match konst::cmp_str(left, right) {
        Ordering::Less => Precedence::Before,
        Ordering::Equal => Precedence::Same,
        Ordering::Greater => Precedence::After,
    }
}

/// `konst::eq_str`: true exactly when the two strings hold the same bytes,
/// which for strings is the same characters.
#[verifier::external_body]
pub(crate) fn same_str(left: &str, right: &str) -> (r: bool)
    ensures
        r == (left@ == right@),
{
    konst::eq_str(left, right)
}

/// Two byte strings stand in the same place of the order exactly when they
/// are equal.
pub proof fn lemma_lex_order_same(a: Seq<u8>, b: Seq<u8>)
    ensures
        lex_order(a, b) == Precedence::Same <==> a == b,
    decreases a.len(),
{
    if a.len() == 0 || b.len() == 0 {
        if a.len() == 0 && b.len() == 0 {
            assert(a =~= b);
        }
    } else if a[0] == b[0] {
        lemma_lex_order_same(a.drop_first(), b.drop_first());
        if a.drop_first() == b.drop_first() {
            assert(a =~= seq![a[0]] + a.drop_first());
            assert(b =~= seq![b[0]] + b.drop_first());
        }
    }
}

/// Swapping the two byte strings mirrors their order.
pub proof fn lemma_lex_order_flip(a: Seq<u8>, b: Seq<u8>)
    ensures
        lex_order(a, b) == Precedence::Before <==> lex_order(b, a) == Precedence::After,
        lex_order(a, b) == Precedence::Same <==> lex_order(b, a) == Precedence::Same,
    decreases a.len(),
{
    if a.len() != 0 && b.len() != 0 && a[0] == b[0] {
        lemma_lex_order_flip(a.drop_first(), b.drop_first());
    }
}

/// The order of byte strings is transitive, and two steps lead to the same
/// place only where neither moves.
pub proof fn lemma_lex_order_trans(a: Seq<u8>, b: Seq<u8>, c: Seq<u8>)
    requires
        lex_order(a, b) != Precedence::After,
        lex_order(b, c) != Precedence::After,
    ensures
        lex_order(a, c) != Precedence::After,
        lex_order(a, c) == Precedence::Same ==> lex_order(a, b) == Precedence::Same && lex_order(
            b,
            c,
        ) == Precedence::Same,
    decreases a.len(),
{
    if a.len() != 0 && b.len() != 0 && c.len() != 0 && a[0] == b[0] && b[0] == c[0] {
        lemma_lex_order_trans(a.drop_first(), b.drop_first(), c.drop_first());
    }
}

/// Two names are in the same place of the order exactly when they are equal.
pub proof fn lemma_name_order_same(a: Seq<char>, b: Seq<char>)
    ensures
        name_order(a, b) == Precedence::Same <==> a == b,
{
    lemma_lex_order_same(encode_utf8(a), encode_utf8(b));
    encode_utf8_decode_utf8(a);
    encode_utf8_decode_utf8(b);
}

/// The order is total: of two names one sorts no later than the other.
pub proof fn lemma_name_le_total(a: Seq<char>, b: Seq<char>)
    ensures
        name_le(a, b) || name_le(b, a),
{
    lemma_lex_order_flip(encode_utf8(a), encode_utf8(b));
}

/// The order is transitive, and strict as soon as one step is strict.
pub proof fn lemma_name_le_trans(a: Seq<char>, b: Seq<char>, c: Seq<char>)
    requires
        name_le(a, b),
        name_le(b, c),
    ensures
        name_le(a, c),
        a == c ==> a == b,
{
    lemma_lex_order_trans(encode_utf8(a), encode_utf8(b), encode_utf8(c));
    lemma_name_order_same(a, c);
    lemma_name_order_same(a, b);
}

} // verus!
