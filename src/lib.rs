//! Accent removal: canonical decomposition, removal of combining marks, and
//! canonical recomposition of what is left.
//!
//! The result is returned in the composed form (Normalization Form C) of the
//! base characters. A letter that has no canonical decomposition, such as
//! `ø`, carries no separate mark and is returned unchanged.

mod strip;
mod unicode;

pub use strip::{
    base_chars, base_chars_stay_decomposed, is_base_char, lemma_base_chars_are_base,
    lemma_base_chars_concat, lemma_base_chars_idempotent, lemma_base_chars_of_base_text,
    lemma_two_marks_removed, lemma_unaccented_unchanged, remove_combining_marks, unaccent,
    unaccented,
};
pub use unicode::{is_combining_mark_of, nfc_of, nfd_of};
