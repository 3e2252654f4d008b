//! Removal of combining marks, and the accent-stripping transformation built
//! on it.

use crate::unicode::{combining_mark, compose, decompose, is_combining_mark_of, nfc_of, nfd_of};
use vstd::prelude::*;

verus! {

/// A base character: any code point that is not a combining mark.
pub open spec fn is_base_char(c: char) -> bool {
    !is_combining_mark_of(c)
}

/// The base characters of `s`, in their order in `s`: `s` with every combining
/// mark taken out.
pub open spec fn base_chars(s: Seq<char>) -> Seq<char> {
    s.filter(|c: char| is_base_char(c))
}

/// The accent-stripped form of `t`: its canonical decomposition with the
/// combining marks removed, composed again canonically.
pub open spec fn unaccented(t: Seq<char>) -> Seq<char> {
    nfc_of(base_chars(nfd_of(t)))
}

/// Whether the base characters of the decomposition of `t` form a decomposed
/// text of their own: decomposing them again changes nothing. Whether it
/// holds rests on the Unicode data (on whether every character that canonical
/// ordering moves is a mark), which the library does not state, so it stands
/// as a condition where it is needed.
pub open spec fn base_chars_stay_decomposed(t: Seq<char>) -> bool {
    nfd_of(base_chars(nfd_of(t))) == base_chars(nfd_of(t))
}

/// Every character that removal keeps is a base character.
pub proof fn lemma_base_chars_are_base(s: Seq<char>)
    ensures
        forall|i: int| 0 <= i < base_chars(s).len() ==> is_base_char(#[trigger] base_chars(s)[i]),
{
    broadcast use Seq::lemma_filter_pred;

}

/// A text made of base characters alone is left as it is by removal.
pub proof fn lemma_base_chars_of_base_text(s: Seq<char>)
    requires
        forall|i: int| 0 <= i < s.len() ==> is_base_char(#[trigger] s[i]),
    ensures
        base_chars(s) == s,
    decreases s.len(),
{
    reveal(Seq::filter);
    if s.len() > 0 {
        let init = s.drop_last();
        assert forall|i: int| 0 <= i < init.len() implies is_base_char(#[trigger] init[i]) by {
            assert(init[i] == s[i]);
        }
        lemma_base_chars_of_base_text(init);
        assert(is_base_char(s[s.len() - 1]));
        assert(init.push(s.last()) =~= s);
    }
}

/// Removal keeps the order of the base characters and never repeats one: the
/// base characters of two texts side by side are those of the first followed
/// by those of the second.
pub proof fn lemma_base_chars_concat(a: Seq<char>, b: Seq<char>)
    ensures
        base_chars(a + b) == base_chars(a) + base_chars(b),
{
    Seq::filter_distributes_over_add(a, b, |c: char| is_base_char(c));
}

/// Removing marks twice removes no more than removing them once.
pub proof fn lemma_base_chars_idempotent(s: Seq<char>)
    ensures
        base_chars(base_chars(s)) == base_chars(s),
{
    lemma_base_chars_are_base(s);
    lemma_base_chars_of_base_text(base_chars(s));
}

/// Text that canonical decomposition and composition both leave unchanged and
/// that holds no combining mark is left unchanged by accent removal.
pub proof fn lemma_unaccented_unchanged(t: Seq<char>)
    requires
        nfd_of(t) == t,
        nfc_of(t) == t,
        forall|i: int| 0 <= i < t.len() ==> !is_combining_mark_of(#[trigger] t[i]),
    ensures
        unaccented(t) == t,
{
    lemma_base_chars_of_base_text(t);
}

/// A character that decomposes into a base character and two combining marks
/// loses both marks: what is composed again is the base character alone.
pub proof fn lemma_two_marks_removed(c: char, base: char, m1: char, m2: char)
    requires
        nfd_of(seq![c]) == seq![base, m1, m2],
        is_base_char(base),
        is_combining_mark_of(m1),
        is_combining_mark_of(m2),
    ensures
        base_chars(nfd_of(seq![c])) == seq![base],
        unaccented(seq![c]) == nfc_of(seq![base]),
{
    let d = seq![base, m1, m2];
    reveal_with_fuel(Seq::filter, 4);
    assert(d.drop_last() =~= seq![base, m1]);
    assert(d.drop_last().drop_last() =~= seq![base]);
    assert(d.drop_last().drop_last().drop_last() =~= Seq::<char>::empty());
    assert(base_chars(d) =~= seq![base]);
}

/// Keeps the base characters of `chars`, in order, and drops every combining
/// mark.
pub fn remove_combining_marks(chars: &Vec<char>) -> (r: Vec<char>)
    ensures
        r@ == base_chars(chars@),
{
    let mut out: Vec<char> = Vec::new();
    let mut i: usize = 0;
    while i < chars.len()
        invariant
            i <= chars@.len(),
            out@ == base_chars(chars@.take(i as int)),
        decreases chars@.len() - i,
    {
        let c = chars[i];
        let mark = combining_mark(c);
        proof {
            let pre = chars@.take(i as int);
            assert(chars@.take(i as int + 1).drop_last() =~= pre);
            reveal(Seq::filter);
        }
        if !mark {
            out.push(c);
        }
        i = i + 1;
    }
    assert(chars@.take(chars@.len() as int) =~= chars@);
    out
}

/// Removes the accents from `input`: decomposes it canonically, drops the
/// combining marks and composes the rest canonically.
///
/// The result is canonically equivalent to the base characters of the
/// decomposition. Where those form a decomposed text of their own, they are
/// exactly the decomposition of the result, and removing accents from the
/// result changes nothing.
pub fn unaccent(input: &str) -> (r: String)
    ensures
        r@ == unaccented(input@),
        input@.len() == 0 ==> r@.len() == 0,
        nfd_of(r@) == nfd_of(base_chars(nfd_of(input@))),
        base_chars_stay_decomposed(input@) ==> nfd_of(r@) == base_chars(nfd_of(input@)),
        base_chars_stay_decomposed(input@) ==> unaccented(r@) == r@,
{
    let decomposed = decompose(input);
    let base = remove_combining_marks(&decomposed);
    proof {
        if input@.len() == 0 {
            reveal(Seq::filter);
        }
    }
    let r = compose(&base);
    proof {
        if base_chars_stay_decomposed(input@) {
            lemma_base_chars_idempotent(nfd_of(input@));
        }
    }
    r
}

} // verus!
