//! Text operations of the standard library that the library relies on.
//!
//! Each function here is trusted: it makes one call into `std` and states what
//! the documentation of that call promises.

use vstd::prelude::*;
use vstd::utf8::*;

verus! {

/// Calls `String::from_utf8`, which accepts exactly the byte strings that are
/// well-formed UTF-8 and then yields the text that they encode.
#[verifier::external_body]
pub(crate) fn string_from_utf8(bytes: Vec<u8>) -> (text: Option<String>)
    ensures
        text is Some <==> valid_utf8(bytes@),
        text matches Some(s) ==> s@ == decode_utf8(bytes@),
{
    String::from_utf8(bytes).ok()
}

/// The lowercase form of a text, as `str::to_lowercase` gives it: the mapping
/// is that of the Unicode character database and is not written out here.
pub uninterp spec fn lowercase(text: Seq<char>) -> Seq<char>;

/// The pattern stands somewhere in the text, character for character.
pub open spec fn occurs_in(pattern: Seq<char>, text: Seq<char>) -> bool {
    exists|at: int|
        0 <= at <= text.len() - pattern.len() && #[trigger] text.subrange(
            at,
            at + pattern.len(),
        ) == pattern
}

/// Calls `str::to_lowercase`.
#[verifier::external_body]
pub(crate) fn to_lowercase(text: &str) -> (lower: String)
    ensures
        lower@ == lowercase(text@),
{
    text.to_lowercase()
}

/// Calls `str::contains` with a string as the pattern, which is true where the
/// pattern matches a part of the text.
#[verifier::external_body]
pub(crate) fn contains_text(text: &str, pattern: &str) -> (found: bool)
    ensures
        found == occurs_in(pattern@, text@),
{
    text.contains(pattern)
}

} // verus!
