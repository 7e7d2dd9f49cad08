use vstd::prelude::*;

verus! {

/// The lowercase form of a text, as the standard library's
/// `str::to_lowercase` gives it.
pub uninterp spec fn lowercase_of(text: Seq<char>) -> Seq<char>;

/// Calls `str::to_lowercase`. The claim, not proved here: the result depends
/// on the characters of the text alone, so it can go by the name
/// `lowercase_of`. Nothing is said of what that form is.
#[verifier::external_body]
pub(crate) fn to_lowercase(text: &str) -> (lower: String)
    ensures
        lower@ == lowercase_of(text@),
{
    text.to_lowercase()
}

/// Whether a character is white space, as the standard library's
/// `char::is_whitespace` tells it.
pub uninterp spec fn white_space(c: char) -> bool;

/// Calls `char::is_whitespace`. The claim, not proved here: the answer
/// depends on the character alone, so it can go by the name `white_space`.
/// Nothing is said of which characters those are.
#[verifier::external_body]
pub(crate) fn is_whitespace(c: char) -> (white: bool)
    ensures
        white == white_space(c),
{
    c.is_whitespace()
}

} // verus!
