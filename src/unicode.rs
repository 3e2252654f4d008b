//! The Unicode data that this library consumes: canonical decomposition,
//! canonical composition and the combining-mark property, all taken from
//! `unicode_normalization`.

use unicode_normalization::UnicodeNormalization;
use vstd::prelude::*;

verus! {

/// The text in Normalization Form D (canonical decomposition), as the
/// decomposition tables of the Unicode version in use define it.
pub uninterp spec fn nfd_of(s: Seq<char>) -> Seq<char>;

/// The text in Normalization Form C (canonical decomposition followed by
/// canonical composition).
pub uninterp spec fn nfc_of(s: Seq<char>) -> Seq<char>;

/// Whether the code point has `General_Category=Mark`.
pub uninterp spec fn is_combining_mark_of(c: char) -> bool;

/// Relies on `UnicodeNormalization::nfd` for `&str`: the characters of the text
/// in Normalization Form D, a function of the text alone; an empty text yields
/// no characters.
#[verifier::external_body]
pub(crate) fn decompose(s: &str) -> (r: Vec<char>)
    ensures
        r@ == nfd_of(s@),
        s@.len() == 0 ==> r@.len() == 0,
{
    s.nfd().collect()
}

/// Relies on `UnicodeNormalization::nfc` for a `char` iterator: the text in
/// Normalization Form C, a function of the characters alone; no characters
/// yield an empty text. Normalization Form C is canonically equivalent to its
/// input (the iterator decomposes canonically before it composes), so both
/// have the same canonical decomposition.
#[verifier::external_body]
pub(crate) fn compose(chars: &Vec<char>) -> (r: String)
    ensures
        r@ == nfc_of(chars@),
        chars@.len() == 0 ==> r@.len() == 0,
        nfd_of(r@) == nfd_of(chars@),
{
    chars.iter().copied().nfc().collect()
}

/// Relies on `unicode_normalization::char::is_combining_mark`: a table lookup
/// of `General_Category=Mark`, a function of the code point alone.
#[verifier::external_body]
pub(crate) fn combining_mark(c: char) -> (r: bool)
    ensures
        r == is_combining_mark_of(c),
{
    unicode_normalization::char::is_combining_mark(c)
}

} // verus!
