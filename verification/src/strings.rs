//! Small string utilities over char sequences: conversion to and from
//! `Vec<char>`, prefix/suffix/substring tests, whitespace trimming, ASCII and
//! Unicode lowercasing.
use vstd::prelude::*;

verus! {

broadcast use vstd::string::group_string_axioms;

/// Unicode `White_Space`, as `char::is_whitespace` and `str::trim` use it.
pub open spec fn is_ws(c: char) -> bool {
    ||| ('\u{0009}' <= c && c <= '\u{000D}')
    ||| c == ' '
    ||| c == '\u{0085}'
    ||| c == '\u{00A0}'
    ||| c == '\u{1680}'
    ||| ('\u{2000}' <= c && c <= '\u{200A}')
    ||| c == '\u{2028}'
    ||| c == '\u{2029}'
    ||| c == '\u{202F}'
    ||| c == '\u{205F}'
    ||| c == '\u{3000}'
}

pub fn is_ws_exec(c: char) -> (r: bool)
    ensures
        r == is_ws(c),
{
    ('\u{0009}' <= c && c <= '\u{000D}') || c == ' ' || c == '\u{0085}' || c == '\u{00A0}' || c
        == '\u{1680}' || ('\u{2000}' <= c && c <= '\u{200A}') || c == '\u{2028}' || c
        == '\u{2029}' || c == '\u{202F}' || c == '\u{205F}' || c == '\u{3000}'
}

/// `a` is the end of the leading whitespace of `s`.
pub open spec fn ws_prefix_end(s: Seq<char>, a: int) -> bool {
    &&& 0 <= a <= s.len()
    &&& forall|j: int| 0 <= j < a ==> is_ws(#[trigger] s[j])
    &&& (a == s.len() || !is_ws(s[a]))
}

/// `b` is the start of the trailing whitespace of `s` after `a`.
pub open spec fn ws_suffix_start(s: Seq<char>, a: int, b: int) -> bool {
    &&& a <= b <= s.len()
    &&& forall|j: int| b <= j < s.len() ==> is_ws(#[trigger] s[j])
    &&& (b == a || !is_ws(s[b - 1]))
}

/// `s` with leading and trailing whitespace removed (what `str::trim` gives).
pub open spec fn trimmed(s: Seq<char>) -> Seq<char> {
    let a = choose|a: int| ws_prefix_end(s, a);
    let b = choose|b: int| ws_suffix_start(s, a, b);
    s.subrange(a, b)
}

/// `needle` occurs in `hay` starting at `i`.
pub open spec fn occurs_at(hay: Seq<char>, needle: Seq<char>, i: int) -> bool {
    0 <= i && i + needle.len() <= hay.len() && hay.subrange(i, i + needle.len()) == needle
}

pub open spec fn contains_seq(hay: Seq<char>, needle: Seq<char>) -> bool {
    exists|i: int| occurs_at(hay, needle, i)
}

pub open spec fn ends_with_seq(s: Seq<char>, suffix: Seq<char>) -> bool {
    suffix.len() <= s.len() && s.subrange(s.len() - suffix.len(), s.len() as int) == suffix
}

pub open spec fn ascii_lower(c: char) -> char {
    if 'A' <= c && c <= 'Z' {
        ((c as u32) + 32) as char
    } else {
        c
    }
}

/// What Unicode lowercasing (`str::to_lowercase`) makes of a string.
pub uninterp spec fn lowercase(s: Seq<char>) -> Seq<char>;

/// `str::to_lowercase`: the Unicode lowercase of `s`.
#[verifier::external_body]
pub(crate) fn to_lowercase(s: &str) -> (r: String)
    ensures
        r@ == lowercase(s@),
{
    s.to_lowercase()
}

/// `String::push`: appends one char.
#[verifier::external_body]
pub(crate) fn push_char(s: &mut String, c: char)
    ensures
        final(s)@ == old(s)@.push(c),
{
    s.push(c)
}

/// The chars of `s`.
pub fn chars_of(s: &str) -> (v: Vec<char>)
    ensures
        v@ == s@,
{
    let mut v: Vec<char> = Vec::new();
    for c in it: s.chars()
        invariant
            it.seq() == s@,
            v@ == s@.take(it.index() as int),
    {
        v.push(c);
    }
    assert(s@.take(s@.len() as int) =~= s@);
    v
}

/// A string holding the chars `cs[from..to]`.
pub fn string_of_range(cs: &Vec<char>, from: usize, to: usize) -> (s: String)
    requires
        from <= to <= cs.len(),
    ensures
        s@ == cs@.subrange(from as int, to as int),
{
    let mut s = String::new();
    let mut i = from;
    while i < to
        invariant
            from <= i <= to <= cs.len(),
            s@ == cs@.subrange(from as int, i as int),
        decreases to - i,
    {
        push_char(&mut s, cs[i]);
        assert(cs@.subrange(from as int, i + 1) =~= cs@.subrange(from as int, i as int).push(
            cs@[i as int],
        ));
        i = i + 1;
    }
    s
}

/// A string holding the chars of `cs`.
pub fn string_of(cs: &Vec<char>) -> (s: String)
    ensures
        s@ == cs@,
{
    let s = string_of_range(cs, 0, cs.len());
    assert(cs@.subrange(0, cs@.len() as int) =~= cs@);
    s
}

/// Does `hay` contain `needle` at position `i`?
pub fn occurs_at_exec(hay: &Vec<char>, needle: &Vec<char>, i: usize) -> (r: bool)
    ensures
        r == occurs_at(hay@, needle@, i as int),
{
    if i > hay.len() || needle.len() > hay.len() - i {
        return false;
    }
    let mut k: usize = 0;
    while k < needle.len()
        invariant
            i + needle.len() <= hay.len(),
            k <= needle.len(),
            forall|j: int| 0 <= j < k ==> hay@[i + j] == needle@[j],
        decreases needle.len() - k,
    {
        if hay[i + k] != needle[k] {
            assert(hay@.subrange(i as int, i + needle.len())[k as int] != needle@[k as int]);
            return false;
        }
        k = k + 1;
    }
    assert(hay@.subrange(i as int, i + needle.len()) =~= needle@);
    true
}

/// Does `hay` contain `needle` anywhere?
pub fn contains_chars(hay: &Vec<char>, needle: &Vec<char>) -> (r: bool)
    ensures
        r == contains_seq(hay@, needle@),
{
    if needle.len() > hay.len() {
        return false;
    }
    let last = hay.len() - needle.len();
    let mut i: usize = 0;
    loop
        invariant
            last == hay.len() - needle.len(),
            i <= last,
            forall|j: int| 0 <= j < i ==> !occurs_at(hay@, needle@, j),
        decreases last - i,
    {
        if occurs_at_exec(hay, needle, i) {
            return true;
        }
        if i == last {
            assert forall|j: int| !occurs_at(hay@, needle@, j) by {
                if 0 <= j <= last {
                }
            }
            return false;
        }
        i = i + 1;
    }
}

/// Are the chars of `a` exactly those of `b`?
pub fn eq_chars(a: &Vec<char>, b: &str) -> (r: bool)
    ensures
        r == (a@ == b@),
{
    let bc = chars_of(b);
    if a.len() != bc.len() {
        return false;
    }
    let mut i: usize = 0;
    while i < a.len()
        invariant
            a.len() == bc.len(),
            bc@ == b@,
            i <= a.len(),
            forall|j: int| 0 <= j < i ==> a@[j] == bc@[j],
        decreases a.len() - i,
    {
        if a[i] != bc[i] {
            return false;
        }
        i = i + 1;
    }
    assert(a@ =~= bc@);
    true
}

/// Does `s` end with `suffix`?
pub fn ends_with_chars(s: &Vec<char>, suffix: &Vec<char>) -> (r: bool)
    ensures
        r == ends_with_seq(s@, suffix@),
{
    if suffix.len() > s.len() {
        return false;
    }
    let r = occurs_at_exec(s, suffix, s.len() - suffix.len());
    r
}

/// `s` lowercased in the ASCII range only (`str::to_ascii_lowercase`).
pub fn ascii_lowercase(s: &str) -> (r: Vec<char>)
    ensures
        r@ == s@.map_values(|c: char| ascii_lower(c)),
{
    let cs = chars_of(s);
    let mut out: Vec<char> = Vec::new();
    let mut i: usize = 0;
    while i < cs.len()
        invariant
            i <= cs.len(),
            cs@ == s@,
            out@ == cs@.subrange(0, i as int).map_values(|c: char| ascii_lower(c)),
        decreases cs.len() - i,
    {
        let c = cs[i];
        let l = if 'A' <= c && c <= 'Z' {
            ((c as u8) + 32) as char
        } else {
            c
        };
        out.push(l);
        assert(cs@.subrange(0, i + 1).map_values(|c: char| ascii_lower(c)) =~= cs@.subrange(
            0,
            i as int,
        ).map_values(|c: char| ascii_lower(c)).push(ascii_lower(c)));
        i = i + 1;
    }
    assert(cs@.subrange(0, cs@.len() as int) =~= cs@);
    out
}

/// Bounds of `cs` without its leading and trailing whitespace, as
/// `str::trim` cuts them.
pub fn trim_chars(cs: &Vec<char>) -> (r: (usize, usize))
    ensures
        r.0 <= r.1 <= cs.len(),
        cs@.subrange(r.0 as int, r.1 as int) == trimmed(cs@),
{
    let mut a: usize = 0;
    while a < cs.len() && is_ws_exec(cs[a])
        invariant
            a <= cs.len(),
            forall|j: int| 0 <= j < a ==> is_ws(#[trigger] cs@[j]),
        decreases cs.len() - a,
    {
        a = a + 1;
    }
    assert(ws_prefix_end(cs@, a as int));
    let ghost a0 = choose|a2: int| ws_prefix_end(cs@, a2);
    assert(a0 == a) by {
        if a0 < a {
            assert(is_ws(cs@[a0]));
        } else if a0 > a {
            assert(is_ws(cs@[a as int]));
        }
    }
    let mut b: usize = cs.len();
    while b > a && is_ws_exec(cs[b - 1])
        invariant
            a <= b <= cs.len(),
            forall|j: int| b <= j < cs.len() ==> is_ws(#[trigger] cs@[j]),
        decreases b,
    {
        b = b - 1;
    }
    assert(ws_suffix_start(cs@, a as int, b as int));
    let ghost b0 = choose|b2: int| ws_suffix_start(cs@, a as int, b2);
    assert(b0 == b) by {
        if b0 < b {
            assert(is_ws(cs@[b - 1]));
        } else if b0 > b {
            assert(is_ws(cs@[b0 - 1]));
        }
    }
    (a, b)
}


/// `k` is where `a` and `b` first differ (or where the shorter one ends).
pub open spec fn first_diff(a: Seq<char>, b: Seq<char>, k: int) -> bool {
    &&& 0 <= k <= a.len()
    &&& k <= b.len()
    &&& forall|j: int| 0 <= j < k ==> #[trigger] a[j] == b[j]
    &&& (k == a.len() || k == b.len() || a[k] != b[k])
}

/// Lexicographic order on chars (the order `String`'s `Ord` gives, since
/// UTF-8 preserves code point order).
pub open spec fn lex_lt(a: Seq<char>, b: Seq<char>) -> bool {
    exists|k: int|
        #[trigger] first_diff(a, b, k) && ((k == a.len() && k < b.len()) || (k < a.len() && k
            < b.len() && a[k] < b[k]))
}

pub proof fn lemma_first_diff_unique(a: Seq<char>, b: Seq<char>, k1: int, k2: int)
    requires
        first_diff(a, b, k1),
        first_diff(a, b, k2),
    ensures
        k1 == k2,
{
    if k1 < k2 {
        assert(a[k1] == b[k1]);
    } else if k2 < k1 {
        assert(a[k2] == b[k2]);
    }
}

/// `lex_lt` is asymmetric.
pub proof fn lemma_lex_lt_asym(a: Seq<char>, b: Seq<char>)
    ensures
        lex_lt(a, b) ==> !lex_lt(b, a),
{
    if lex_lt(a, b) && lex_lt(b, a) {
        let k1 = choose|k: int|
            #[trigger] first_diff(a, b, k) && ((k == a.len() && k < b.len()) || (k < a.len() && k
                < b.len() && a[k] < b[k]));
        let k2 = choose|k: int|
            #[trigger] first_diff(b, a, k) && ((k == b.len() && k < a.len()) || (k < b.len() && k
                < a.len() && b[k] < a[k]));
        assert(first_diff(a, b, k2));
        lemma_first_diff_unique(a, b, k1, k2);
    }
}

/// Is `a` before `b` lexicographically?
pub fn lex_lt_exec(a: &Vec<char>, b: &Vec<char>) -> (r: bool)
    ensures
        r == lex_lt(a@, b@),
{
    let mut i: usize = 0;
    while i < a.len() && i < b.len() && a[i] == b[i]
        invariant
            i <= a.len(),
            i <= b.len(),
            forall|j: int| 0 <= j < i ==> #[trigger] a@[j] == b@[j],
        decreases a.len() - i,
    {
        i = i + 1;
    }
    assert(first_diff(a@, b@, i as int));
    let r = if i == a.len() {
        i < b.len()
    } else if i == b.len() {
        false
    } else {
        a[i] < b[i]
    };
    assert(r == lex_lt(a@, b@)) by {
        if lex_lt(a@, b@) {
            let k = choose|k: int|
                #[trigger] first_diff(a@, b@, k) && ((k == a@.len() && k < b@.len()) || (k
                    < a@.len() && k < b@.len() && a@[k] < b@[k]));
            lemma_first_diff_unique(a@, b@, k, i as int);
        }
    }
    r
}

} // verus!
