//! Names in the letter cases that generated items use.

use convert_case::Casing;
use vstd::prelude::*;

verus! {

/// The letter cases in use.
#[derive(Clone, Copy, Debug, PartialEq, Eq, Structural)]
pub enum Case {
    /// `lower_words_with_underscores`
    Snake,
    /// `CapitalisedWordsRunTogether`
    UpperCamel,
    /// `lowerwordsruntogether`
    Flat,
}

/// The name `name` written in the case `case`.
pub uninterp spec fn cased(name: Seq<char>, case: Case) -> Seq<char>;

/// The name under which a method travels on the wire: the snake case of the
/// variant name that is made from it.
pub open spec fn wire_name(ident: Seq<char>) -> Seq<char> {
    cased(cased(ident, Case::UpperCamel), Case::Snake)
}

/// `convert_case::Casing::to_case`: splits the name into words at its
/// delimiters and at changes of letter case, rewrites each word in the
/// pattern of the case asked for and joins them with that case's delimiter.
/// The result depends on the name and the case alone.
#[verifier::external_body]
pub(crate) fn to_case(name: &str, case: Case) -> (r: String)
    ensures
        r@ == cased(name@, case),
{
    name.to_case(
        match case {
            Case::Snake => convert_case::Case::Snake,
            Case::UpperCamel => convert_case::Case::UpperCamel,
            Case::Flat => convert_case::Case::Flat,
        },
    )
}

/// The name of the variant that stands for the method `ident`.
pub fn variant_name(ident: &str) -> (r: String)
    ensures
        r@ == cased(ident@, Case::UpperCamel),
{
    to_case(ident, Case::UpperCamel)
}

/// The wire name of the variant `variant`.
pub fn wire_name_of(variant: &str) -> (r: String)
    ensures
        r@ == cased(variant@, Case::Snake),
{
    to_case(variant, Case::Snake)
}

} // verus!
