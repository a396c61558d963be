//! The text buffer: a `ropey::Rope`, its contents as a sequence of chars, and
//! the line structure that ropey derives from them.
//!
//! Ropey (with its default `unicode_lines` feature) ends a line at LF, VT, FF,
//! CR, NEL, LS or PS, and treats CR LF as a single break. `ends_line` states
//! where a break ends; everything about lines is derived from it.
use vstd::prelude::*;

use ropey::Rope;

verus! {

#[verifier::external_type_specification]
#[verifier::external_body]
pub struct ExRope(Rope);

/// The characters held by a rope, in order.
pub uninterp spec fn rope_text(r: Rope) -> Seq<char>;

/// The chars that ropey treats as line breaks.
pub open spec fn is_break_char(c: char) -> bool {
    ||| c == '\n'
    ||| c == '\u{000B}'
    ||| c == '\u{000C}'
    ||| c == '\r'
    ||| c == '\u{0085}'
    ||| c == '\u{2028}'
    ||| c == '\u{2029}'
}

/// A line break ends at index `j` (a CR directly followed by LF is not the end
/// of its break: the LF is).
pub open spec fn ends_line(s: Seq<char>, j: int) -> bool {
    &&& 0 <= j < s.len()
    &&& is_break_char(s[j])
    &&& !(s[j] == '\r' && j + 1 < s.len() && s[j + 1] == '\n')
}

/// Number of line breaks that end strictly before index `i`: the zero-based
/// line that the char at `i` belongs to.
pub open spec fn breaks_before(s: Seq<char>, i: int) -> nat
    decreases i,
{
    if i <= 0 {
        0
    } else {
        breaks_before(s, i - 1) + if ends_line(s, i - 1) {
            1nat
        } else {
            0nat
        }
    }
}

/// Number of lines (one more than the number of breaks).
pub open spec fn line_count(s: Seq<char>) -> nat {
    breaks_before(s, s.len() as int) + 1
}

/// `i` is where line `l` starts.
pub open spec fn is_line_start(s: Seq<char>, l: nat, i: int) -> bool {
    &&& 0 <= i <= s.len()
    &&& breaks_before(s, i) == l
    &&& (i == 0 || ends_line(s, i - 1))
}

/// Char index of the first char of line `l`; one past the end for
/// `l == line_count(s)`.
pub open spec fn line_start(s: Seq<char>, l: nat) -> int {
    if l < line_count(s) {
        choose|i: int| is_line_start(s, l, i)
    } else {
        s.len() as int
    }
}

/// Length of line `l` as the editor counts it: its chars, without a final LF.
pub open spec fn line_len(s: Seq<char>, l: nat) -> int {
    let a = line_start(s, l);
    let b = line_start(s, l + 1);
    if b > a && s[b - 1] == '\n' {
        b - a - 1
    } else {
        b - a
    }
}

// ─── Lemmas about the line structure ────────────────────────────────────

pub proof fn lemma_breaks_step(s: Seq<char>, i: int)
    requires
        0 <= i,
    ensures
        breaks_before(s, i) <= breaks_before(s, i + 1) <= breaks_before(s, i) + 1,
        ends_line(s, i) ==> breaks_before(s, i + 1) == breaks_before(s, i) + 1,
        !ends_line(s, i) ==> breaks_before(s, i + 1) == breaks_before(s, i),
{
}

pub proof fn lemma_breaks_mono(s: Seq<char>, i: int, j: int)
    requires
        i <= j,
    ensures
        breaks_before(s, i) <= breaks_before(s, j),
    decreases j - i,
{
    if i < j {
        lemma_breaks_mono(s, i, j - 1);
        if j - 1 >= 0 {
            lemma_breaks_step(s, j - 1);
        }
    }
}

/// The nearest line start at or before `i`.
pub open spec fn start_at_or_before(s: Seq<char>, i: int) -> int
    decreases i,
{
    if i <= 0 || ends_line(s, i - 1) {
        i
    } else {
        start_at_or_before(s, i - 1)
    }
}

pub proof fn lemma_start_at_or_before(s: Seq<char>, i: int)
    requires
        0 <= i <= s.len(),
    ensures
        is_line_start(s, breaks_before(s, i), start_at_or_before(s, i)),
        start_at_or_before(s, i) <= i,
    decreases i,
{
    if i <= 0 || ends_line(s, i - 1) {
    } else {
        lemma_start_at_or_before(s, i - 1);
        lemma_breaks_step(s, i - 1);
    }
}

/// Every line number up to the one at `n` has a start at or before `n`.
pub proof fn lemma_start_exists(s: Seq<char>, l: nat, n: int)
    requires
        0 <= n <= s.len(),
        l <= breaks_before(s, n),
    ensures
        exists|i: int| #[trigger] is_line_start(s, l, i) && i <= n,
    decreases n,
{
    if n == 0 {
        assert(is_line_start(s, l, 0));
    } else {
        lemma_breaks_step(s, n - 1);
        if l <= breaks_before(s, n - 1) {
            lemma_start_exists(s, l, n - 1);
            let i = choose|i: int| #[trigger] is_line_start(s, l, i) && i <= n - 1;
            assert(is_line_start(s, l, i) && i <= n);
        } else {
            assert(is_line_start(s, l, n));
        }
    }
}

pub proof fn lemma_start_unique(s: Seq<char>, l: nat, i: int, j: int)
    requires
        is_line_start(s, l, i),
        is_line_start(s, l, j),
    ensures
        i == j,
{
    if i < j {
        lemma_breaks_mono(s, i, j - 1);
        lemma_breaks_step(s, j - 1);
    } else if j < i {
        lemma_breaks_mono(s, j, i - 1);
        lemma_breaks_step(s, i - 1);
    }
}

/// `line_start` is the unique start of each line.
pub proof fn lemma_line_start(s: Seq<char>, l: nat)
    requires
        l < line_count(s),
    ensures
        is_line_start(s, l, line_start(s, l)),
        forall|i: int| is_line_start(s, l, i) ==> i == line_start(s, l),
{
    lemma_start_exists(s, l, s.len() as int);
    let i = line_start(s, l);
    assert forall|j: int| is_line_start(s, l, j) implies j == i by {
        lemma_start_unique(s, l, i, j);
    }
}

/// The start of the line holding `i` is at or before `i`.
pub proof fn lemma_line_of(s: Seq<char>, i: int)
    requires
        0 <= i <= s.len(),
    ensures
        breaks_before(s, i) < line_count(s),
        line_start(s, breaks_before(s, i)) == start_at_or_before(s, i),
        0 <= line_start(s, breaks_before(s, i)) <= i,
{
    lemma_breaks_mono(s, i, s.len() as int);
    lemma_start_at_or_before(s, i);
    lemma_line_start(s, breaks_before(s, i));
}

/// Line starts are ordered and bounded by the text length.
pub proof fn lemma_line_start_bounds(s: Seq<char>, l: nat)
    requires
        l < line_count(s),
    ensures
        0 <= line_start(s, l) <= line_start(s, l + 1) <= s.len(),
        l + 1 < line_count(s) ==> line_start(s, l) < line_start(s, l + 1),
        l + 1 < line_count(s) ==> ends_line(s, line_start(s, l + 1) - 1),
{
    lemma_line_start(s, l);
    if l + 1 < line_count(s) {
        lemma_line_start(s, l + 1);
        let a = line_start(s, l);
        let b = line_start(s, l + 1);
        if b <= a {
            lemma_breaks_mono(s, b, a);
        }
    }
}

/// Every index in `[line_start(l), line_start(l + 1))` lies on line `l`.
pub proof fn lemma_index_in_line(s: Seq<char>, l: nat, i: int)
    requires
        l < line_count(s),
        line_start(s, l) <= i < line_start(s, l + 1),
    ensures
        breaks_before(s, i) == l,
{
    lemma_line_start(s, l);
    lemma_line_start_bounds(s, l);
    lemma_breaks_mono(s, line_start(s, l), i);
    if breaks_before(s, i) > l {
        lemma_breaks_mono(s, i, s.len() as int);
        lemma_start_exists(s, l + 1, i);
        let j = choose|j: int| #[trigger] is_line_start(s, l + 1, j) && j <= i;
        lemma_line_start(s, l + 1);
    }
}

/// The length of a line fits between its start and the next start.
pub proof fn lemma_line_len(s: Seq<char>, l: nat)
    requires
        l < line_count(s),
    ensures
        0 <= line_len(s, l),
        line_start(s, l) + line_len(s, l) <= line_start(s, l + 1) <= s.len(),
{
    lemma_line_start_bounds(s, l);
}

// ─── Trusted calls into ropey ────────────────────────────────────────────

/// `Rope::new`: an empty rope.
#[verifier::external_body]
pub(crate) fn rope_new() -> (r: Rope)
    ensures
        rope_text(r) == Seq::<char>::empty(),
{
    Rope::new()
}

/// `Rope::from_str`: a rope holding the chars of `text`.
#[verifier::external_body]
pub(crate) fn rope_from_str(text: &str) -> (r: Rope)
    ensures
        rope_text(r) == text@,
{
    Rope::from_str(text)
}

/// `Rope::len_chars`: the number of chars.
#[verifier::external_body]
pub(crate) fn rope_len_chars(r: &Rope) -> (n: usize)
    ensures
        n == rope_text(*r).len(),
{
    r.len_chars()
}

/// `Rope::len_lines`: one more than the number of line breaks.
#[verifier::external_body]
pub(crate) fn rope_len_lines(r: &Rope) -> (n: usize)
    ensures
        n == line_count(rope_text(*r)),
{
    r.len_lines()
}

/// `Rope::char_to_line`: the line holding char `i` (the last line for the
/// one-past-the-end index). Panics past the end, which `requires` excludes.
#[verifier::external_body]
pub(crate) fn rope_char_to_line(r: &Rope, i: usize) -> (l: usize)
    requires
        i <= rope_text(*r).len(),
    ensures
        l == breaks_before(rope_text(*r), i as int),
{
    r.char_to_line(i)
}

/// `Rope::line_to_char`: the index where line `l` starts, or the length for
/// the one-past-the-last line. Panics beyond that, which `requires` excludes.
#[verifier::external_body]
pub(crate) fn rope_line_to_char(r: &Rope, l: usize) -> (i: usize)
    requires
        l <= line_count(rope_text(*r)),
    ensures
        i == line_start(rope_text(*r), l as nat),
{
    r.line_to_char(l)
}

/// `Rope::char`: the char at index `i` (panics out of bounds, excluded).
#[verifier::external_body]
pub(crate) fn rope_char(r: &Rope, i: usize) -> (c: char)
    requires
        i < rope_text(*r).len(),
    ensures
        c == rope_text(*r)[i as int],
{
    r.char(i)
}

/// `Rope::insert_char`: puts `ch` at index `i` (panics past the end, excluded).
#[verifier::external_body]
pub(crate) fn rope_insert_char(r: &mut Rope, i: usize, ch: char)
    requires
        i <= rope_text(*old(r)).len(),
    ensures
        rope_text(*final(r)) == rope_text(*old(r)).insert(i as int, ch),
{
    r.insert_char(i, ch)
}

/// `Rope::remove` on the range `start..end` (panics on an inverted or
/// out-of-bounds range, excluded).
#[verifier::external_body]
pub(crate) fn rope_remove(r: &mut Rope, start: usize, end: usize)
    requires
        start <= end <= rope_text(*old(r)).len(),
    ensures
        rope_text(*final(r)) == rope_text(*old(r)).subrange(0, start as int) + rope_text(
            *old(r),
        ).subrange(end as int, rope_text(*old(r)).len() as int),
{
    r.remove(start..end)
}

/// The rope's contents as a `String` (through its `Display` impl, which
/// writes every chunk in order).
#[verifier::external_body]
pub(crate) fn rope_to_string(r: &Rope) -> (s: String)
    ensures
        s@ == rope_text(*r),
{
    r.to_string()
}

} // verus!
