//! Display-width measurement for terminal text.
//!
//! All layout in this crate is computed in terminal columns, not bytes or
//! scalar values. The width of one character is whatever the terminal
//! advances for it, which only a Unicode table can answer; the width of a
//! string is the sum of the widths of its characters.

use vstd::prelude::*;

verus! {

/// Display width in terminal columns of one character: the value of
/// `unicode_width::UnicodeWidthChar::width(c).unwrap_or(0)`, which depends on
/// the character alone.
pub uninterp spec fn char_display_width(c: char) -> nat;

/// Display width of a sequence of characters: the sum of the widths of its
/// characters.
pub open spec fn display_width(s: Seq<char>) -> nat
    decreases s.len(),
{
    if s.len() == 0 {
        0
    } else {
        char_display_width(s[0]) + display_width(s.skip(1))
    }
}

/// Relies on `unicode_width::UnicodeWidthStr::width`: the width of a string
/// is the sum over its characters of `UnicodeWidthChar::width(c).unwrap_or(0)`.
#[verifier::external_body]
pub fn measure_str(s: &str) -> (w: usize)
    ensures
        w == display_width(s@),
        s@.len() == 1 ==> w == char_display_width(s@[0]),
{
    unicode_width::UnicodeWidthStr::width(s)
}

/// The width of a concatenation is the sum of the widths.
pub proof fn lemma_display_width_concat(a: Seq<char>, b: Seq<char>)
    ensures
        display_width(a + b) == display_width(a) + display_width(b),
    decreases a.len(),
{
    if a.len() == 0 {
        assert(a + b =~= b);
    } else {
        assert((a + b).skip(1) =~= a.skip(1) + b);
        lemma_display_width_concat(a.skip(1), b);
    }
}

/// Dropping one trailing character drops its width.
pub proof fn lemma_display_width_drop_last(s: Seq<char>)
    requires
        s.len() > 0,
    ensures
        display_width(s) == display_width(s.drop_last()) + char_display_width(s.last()),
{
    assert(s =~= s.drop_last() + seq![s.last()]);
    lemma_display_width_concat(s.drop_last(), seq![s.last()]);
    assert(display_width(seq![s.last()]) == char_display_width(s.last()) + display_width(
        seq![s.last()].skip(1),
    ));
    assert(seq![s.last()].skip(1) =~= Seq::<char>::empty());
}

/// A prefix never measures wider than the whole.
pub proof fn lemma_display_width_prefix(s: Seq<char>, n: int)
    requires
        0 <= n <= s.len(),
    ensures
        display_width(s.take(n)) <= display_width(s),
{
    assert(s =~= s.take(n) + s.skip(n));
    lemma_display_width_concat(s.take(n), s.skip(n));
}

} // verus!
