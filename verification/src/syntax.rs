//! Lightweight LaTeX syntax highlighting.
//!
//! A per-line tokenizer that colours the constructs that matter for
//! readability:
//!   * `\commands` and control symbols — accent
//!   * `% comments` — subtle, italic, to the end of the line
//!   * `$…$` inline math (and its contents) — accent_alt
//!   * `{ } [ ]` grouping — dim
//!
//! It is stateless per line: inline `$…$` is tracked within the line only.
//! The spans cover the line exactly, so columns map to screen cells 1:1.
use vstd::prelude::*;

use crate::strings::{ascii_lower, ascii_lowercase, chars_of, ends_with_seq, eq_chars, string_of_range};
use crate::theme::{fg_only, StyleSpec, Theme};

verus! {

/// What a span of a line is.
#[derive(Clone, Copy, Debug, PartialEq, Eq, Structural)]
pub enum SpanKind {
    Normal,
    Command,
    Comment,
    Math,
    Brace,
}

/// A run of a line with the style it is drawn in.
#[derive(Clone, Debug)]
pub struct StyledSpan {
    pub content: String,
    pub style: StyleSpec,
}

pub open spec fn is_ascii_alpha(c: char) -> bool {
    ('a' <= c && c <= 'z') || ('A' <= c && c <= 'Z')
}

pub open spec fn is_brace(c: char) -> bool {
    c == '{' || c == '}' || c == '[' || c == ']'
}

/// Chars that end a run of plain text.
pub open spec fn is_special(c: char) -> bool {
    c == '%' || c == '\\' || c == '$' || is_brace(c)
}

/// End of the run of ASCII letters starting at `j`.
pub open spec fn alpha_run_end(s: Seq<char>, j: int) -> int
    decreases s.len() - j,
{
    if 0 <= j < s.len() && is_ascii_alpha(s[j]) {
        alpha_run_end(s, j + 1)
    } else {
        j
    }
}

/// End of the control sequence whose backslash is at `i`: `\` and a run of
/// letters, or `\` and one other char, or a lone `\` at the end of the line.
pub open spec fn command_end(s: Seq<char>, i: int) -> int {
    if i + 1 < s.len() && is_ascii_alpha(s[i + 1]) {
        alpha_run_end(s, i + 1)
    } else if i + 1 < s.len() {
        i + 2
    } else {
        i + 1
    }
}

/// End of the plain text starting at `i`: the next special char or the end.
pub open spec fn text_end(s: Seq<char>, i: int) -> int
    decreases s.len() - i,
{
    if 0 <= i < s.len() && !is_special(s[i]) {
        text_end(s, i + 1)
    } else {
        i
    }
}

/// The spans of `s` from index `i`, with `in_math` telling whether an odd
/// number of `$` came before.
pub open spec fn spans_from(s: Seq<char>, i: int, in_math: bool) -> Seq<(Seq<char>, SpanKind)>
    decreases s.len() - i,
{
    if i < 0 || i >= s.len() {
        Seq::empty()
    } else if s[i] == '%' {
        seq![(s.subrange(i, s.len() as int), SpanKind::Comment)]
    } else if s[i] == '\\' {
        let j = command_end(s, i);
        if i < j <= s.len() {
            seq![(s.subrange(i, j), SpanKind::Command)] + spans_from(s, j, in_math)
        } else {
            Seq::empty()
        }
    } else if s[i] == '$' {
        seq![(seq!['$'], SpanKind::Math)] + spans_from(s, i + 1, !in_math)
    } else if is_brace(s[i]) {
        seq![(seq![s[i]], SpanKind::Brace)] + spans_from(s, i + 1, in_math)
    } else {
        let j = text_end(s, i);
        if i < j <= s.len() {
            seq![
                (s.subrange(i, j), if in_math {
                    SpanKind::Math
                } else {
                    SpanKind::Normal
                }),
            ] + spans_from(s, j, in_math)
        } else {
            Seq::empty()
        }
    }
}

/// The tokens of a whole line.
pub open spec fn tokens(s: Seq<char>) -> Seq<(Seq<char>, SpanKind)> {
    spans_from(s, 0, false)
}

/// The style each kind of span is drawn in.
pub open spec fn kind_style(theme: Theme, k: SpanKind) -> StyleSpec {
    match k {
        SpanKind::Normal => theme.normal_style(),
        SpanKind::Command => fg_only(theme.accent),
        SpanKind::Comment => StyleSpec { italic: true, ..fg_only(theme.fg_subtle) },
        SpanKind::Math => fg_only(theme.accent_alt),
        SpanKind::Brace => fg_only(theme.fg_dim),
    }
}

/// The contents of a run of spans, joined.
pub open spec fn joined(sp: Seq<(Seq<char>, SpanKind)>) -> Seq<char>
    decreases sp.len(),
{
    if sp.len() == 0 {
        Seq::empty()
    } else {
        sp[0].0 + joined(sp.drop_first())
    }
}

pub proof fn lemma_alpha_run_end(s: Seq<char>, j: int)
    requires
        0 <= j <= s.len(),
    ensures
        j <= alpha_run_end(s, j) <= s.len(),
    decreases s.len() - j,
{
    if j < s.len() && is_ascii_alpha(s[j]) {
        lemma_alpha_run_end(s, j + 1);
    }
}

pub proof fn lemma_text_end(s: Seq<char>, i: int)
    requires
        0 <= i <= s.len(),
    ensures
        i <= text_end(s, i) <= s.len(),
        forall|k: int| i <= k < text_end(s, i) ==> !is_special(#[trigger] s[k]),
        text_end(s, i) < s.len() ==> is_special(s[text_end(s, i)]),
    decreases s.len() - i,
{
    if i < s.len() && !is_special(s[i]) {
        lemma_text_end(s, i + 1);
    }
}

pub proof fn lemma_command_end(s: Seq<char>, i: int)
    requires
        0 <= i < s.len(),
    ensures
        i < command_end(s, i) <= s.len(),
{
    if i + 1 < s.len() && is_ascii_alpha(s[i + 1]) {
        lemma_alpha_run_end(s, i + 1);
    }
}

/// The spans from `i` cover exactly the rest of the line.
pub proof fn lemma_spans_cover(s: Seq<char>, i: int, in_math: bool)
    requires
        0 <= i <= s.len(),
    ensures
        joined(spans_from(s, i, in_math)) == s.subrange(i, s.len() as int),
    decreases s.len() - i,
{
    if i == s.len() {
        assert(s.subrange(i, s.len() as int) =~= Seq::<char>::empty());
    } else if s[i] == '%' {
        let sp = spans_from(s, i, in_math);
        assert(sp.drop_first() =~= Seq::<(Seq<char>, SpanKind)>::empty());
        assert(joined(sp.drop_first()) == Seq::<char>::empty());
        assert(joined(sp) == sp[0].0 + joined(sp.drop_first()));
        assert(joined(sp) =~= s.subrange(i, s.len() as int));
    } else {
        let j = if s[i] == '\\' {
            command_end(s, i)
        } else if s[i] == '$' || is_brace(s[i]) {
            i + 1
        } else {
            text_end(s, i)
        };
        let m2 = if s[i] == '$' {
            !in_math
        } else {
            in_math
        };
        if s[i] == '\\' {
            lemma_command_end(s, i);
        } else if !(s[i] == '$' || is_brace(s[i])) {
            lemma_text_end(s, i);
        }
        lemma_spans_cover(s, j, m2);
        let sp = spans_from(s, i, in_math);
        assert(sp.drop_first() =~= spans_from(s, j, m2));
        assert(sp[0].0 =~= s.subrange(i, j));
        assert(joined(sp) =~= s.subrange(i, j) + s.subrange(j, s.len() as int));
        assert(s.subrange(i, j) + s.subrange(j, s.len() as int) =~= s.subrange(i, s.len() as int));
    }
}

/// The highlighted spans of a line put back together are the line itself;
/// in particular the character count is preserved.
pub proof fn law_spans_cover_line(s: Seq<char>)
    ensures
        joined(tokens(s)) == s,
{
    lemma_spans_cover(s, 0, false);
    assert(s.subrange(0, s.len() as int) =~= s);
}

/// Number of spans among `sp` that are a lone `$`.
pub open spec fn dollar_spans(sp: Seq<(Seq<char>, SpanKind)>) -> nat
    decreases sp.len(),
{
    if sp.len() == 0 {
        0
    } else {
        (if sp[0].0 == seq!['$'] {
            1nat
        } else {
            0nat
        }) + dollar_spans(sp.drop_first())
    }
}

/// A span of plain text: it starts with a char that is not `%`, `\`, `$`
/// or a brace.
pub open spec fn is_text_span(t: Seq<char>) -> bool {
    t.len() > 0 && !is_special(t[0])
}

proof fn lemma_math_parity(s: Seq<char>, i: int, in_math: bool)
    requires
        0 <= i <= s.len(),
    ensures
        forall|k: int|
            0 <= k < spans_from(s, i, in_math).len() && #[trigger] is_text_span(
                spans_from(s, i, in_math)[k].0,
            ) ==> (spans_from(s, i, in_math)[k].1 == SpanKind::Math <==> (in_math != (dollar_spans(
                spans_from(s, i, in_math).take(k),
            ) % 2 == 1))),
    decreases s.len() - i,
{
    let sp = spans_from(s, i, in_math);
    if i < s.len() && s[i] != '%' {
        let j = if s[i] == '\\' {
            command_end(s, i)
        } else if s[i] == '$' || is_brace(s[i]) {
            i + 1
        } else {
            text_end(s, i)
        };
        let m2 = if s[i] == '$' {
            !in_math
        } else {
            in_math
        };
        if s[i] == '\\' {
            lemma_command_end(s, i);
        } else if !(s[i] == '$' || is_brace(s[i])) {
            lemma_text_end(s, i);
        }
        lemma_math_parity(s, j, m2);
        let rest = spans_from(s, j, m2);
        assert(sp.drop_first() =~= rest);
        assert(sp[0].0 =~= s.subrange(i, j));
        assert(sp[0].0[0] == s[i]);
        assert forall|k: int|
            0 <= k < sp.len() && #[trigger] is_text_span(sp[k].0) implies (sp[k].1 == SpanKind::Math
            <==> (in_math != (dollar_spans(sp.take(k)) % 2 == 1))) by {
            if k == 0 {
                assert(sp.take(0) =~= Seq::<(Seq<char>, SpanKind)>::empty());
            } else {
                assert(sp.take(k).drop_first() =~= rest.take(k - 1));
                assert(sp.take(k)[0] == sp[0]);
                assert(sp[k] == rest[k - 1]);
                assert(s[i] == '$' <==> sp[0].0 == seq!['$']) by {
                    if sp[0].0 == seq!['$'] {
                        assert(sp[0].0[0] == '$');
                    }
                    if s[i] == '$' {
                        assert(sp[0].0 =~= seq!['$']);
                    }
                }
            }
        }
    }
}

/// Inline math is delimited by `$` alone: a plain-text span is drawn as math
/// exactly when an odd number of `$` spans come before it on the line. A
/// control sequence (even `\$`), a brace or a comment never opens or closes
/// math.
pub proof fn law_math_between_dollars(s: Seq<char>, k: int)
    requires
        0 <= k < tokens(s).len(),
        is_text_span(tokens(s)[k].0),
    ensures
        tokens(s)[k].1 == SpanKind::Math <==> dollar_spans(tokens(s).take(k)) % 2 == 1,
        tokens(s)[k].1 != SpanKind::Math <==> tokens(s)[k].1 == SpanKind::Normal,
{
    lemma_math_parity(s, 0, false);
    lemma_text_kind(s, 0, false, k);
}

/// A plain-text span is drawn as normal text or as math.
proof fn lemma_text_kind(s: Seq<char>, i: int, in_math: bool, k: int)
    requires
        0 <= i <= s.len(),
        0 <= k < spans_from(s, i, in_math).len(),
        is_text_span(spans_from(s, i, in_math)[k].0),
    ensures
        spans_from(s, i, in_math)[k].1 == SpanKind::Math || spans_from(s, i, in_math)[k].1
            == SpanKind::Normal,
    decreases s.len() - i,
{
    let sp = spans_from(s, i, in_math);
    if s[i] != '%' {
        let j = if s[i] == '\\' {
            command_end(s, i)
        } else if s[i] == '$' || is_brace(s[i]) {
            i + 1
        } else {
            text_end(s, i)
        };
        let m2 = if s[i] == '$' {
            !in_math
        } else {
            in_math
        };
        if s[i] == '\\' {
            lemma_command_end(s, i);
        } else if !(s[i] == '$' || is_brace(s[i])) {
            lemma_text_end(s, i);
        }
        assert(sp.drop_first() =~= spans_from(s, j, m2));
        assert(sp[0].0 =~= s.subrange(i, j));
        assert(sp[0].0[0] == s[i]);
        if k > 0 {
            assert(sp[k] == spans_from(s, j, m2)[k - 1]);
            lemma_text_kind(s, j, m2, k - 1);
        }
    } else {
        assert(sp[0].0 =~= s.subrange(i, s.len() as int));
        assert(sp[0].0[0] == s[i]);
    }
}

/// A comment span is always the last one and runs to the end of the line.
pub proof fn law_comment_is_last(s: Seq<char>, i: int, in_math: bool, k: int)
    requires
        0 <= i <= s.len(),
        0 <= k < spans_from(s, i, in_math).len(),
        spans_from(s, i, in_math)[k].1 == SpanKind::Comment,
    ensures
        k == spans_from(s, i, in_math).len() - 1,
        ends_with_seq(s, spans_from(s, i, in_math)[k].0),
    decreases s.len() - i,
{
    if s[i] == '%' {
    } else {
        let j = if s[i] == '\\' {
            command_end(s, i)
        } else if s[i] == '$' || is_brace(s[i]) {
            i + 1
        } else {
            text_end(s, i)
        };
        let m2 = if s[i] == '$' {
            !in_math
        } else {
            in_math
        };
        if s[i] == '\\' {
            lemma_command_end(s, i);
        } else if !(s[i] == '$' || is_brace(s[i])) {
            lemma_text_end(s, i);
        }
        let sp = spans_from(s, i, in_math);
        assert(sp.drop_first() =~= spans_from(s, j, m2));
        assert(k > 0);
        assert(sp[k] == spans_from(s, j, m2)[k - 1]);
        law_comment_is_last(s, j, m2, k - 1);
    }
}

/// Does this file extension get LaTeX highlighting?
pub open spec fn is_tex_ext(e: Seq<char>) -> bool {
    let l = e.map_values(|c: char| ascii_lower(c));
    l == "tex"@ || l == "latex"@ || l == "sty"@ || l == "cls"@ || l == "bib"@ || l == "dtx"@
}

/// Does this file extension get LaTeX highlighting?
pub fn is_tex(ext: Option<&str>) -> (r: bool)
    ensures
        r == match ext {
            Some(e) => is_tex_ext(e@),
            None => false,
        },
{
    match ext {
        None => false,
        Some(e) => {
            let l = ascii_lowercase(e);
            eq_chars(&l, "tex") || eq_chars(&l, "latex") || eq_chars(&l, "sty") || eq_chars(&l, "cls")
                || eq_chars(&l, "bib") || eq_chars(&l, "dtx")
        },
    }
}

fn is_ascii_alpha_exec(c: char) -> (r: bool)
    ensures
        r == is_ascii_alpha(c),
{
    ('a' <= c && c <= 'z') || ('A' <= c && c <= 'Z')
}

fn is_brace_exec(c: char) -> (r: bool)
    ensures
        r == is_brace(c),
{
    c == '{' || c == '}' || c == '[' || c == ']'
}

fn command_end_exec(s: &Vec<char>, i: usize) -> (j: usize)
    requires
        i < s.len(),
    ensures
        j == command_end(s@, i as int),
{
    let n = s.len();
    if i + 1 < n && is_ascii_alpha_exec(s[i + 1]) {
        let mut j = i + 1;
        while j < n && is_ascii_alpha_exec(s[j])
            invariant
                i + 1 <= j <= n,
                n == s@.len(),
                alpha_run_end(s@, j as int) == alpha_run_end(s@, i + 1),
            decreases n - j,
        {
            j = j + 1;
        }
        j
    } else if i + 1 < n {
        i + 2
    } else {
        i + 1
    }
}

fn text_end_exec(s: &Vec<char>, i: usize) -> (j: usize)
    requires
        i <= s.len(),
    ensures
        j == text_end(s@, i as int),
{
    let n = s.len();
    let mut j = i;
    while j < n && !(s[j] == '%' || s[j] == '\\' || s[j] == '$' || is_brace_exec(s[j]))
        invariant
            i <= j <= n,
            n == s@.len(),
            text_end(s@, j as int) == text_end(s@, i as int),
        decreases n - j,
    {
        j = j + 1;
    }
    j
}

/// Tokenize one line into styled spans, in order; together they cover the
/// line exactly.
pub fn highlight_line(line: &str, theme: &Theme) -> (r: Vec<StyledSpan>)
    ensures
        r.len() == tokens(line@).len(),
        forall|k: int|
            0 <= k < r.len() ==> (#[trigger] r[k]).content@ == tokens(line@)[k].0 && r[k].style
                == kind_style(*theme, tokens(line@)[k].1),
{
    let normal = theme.s_normal();
    let cmd_style = StyleSpec::plain().fg(theme.accent);
    let comment_style = StyleSpec::plain().fg(theme.fg_subtle).italic();
    let math_style = StyleSpec::plain().fg(theme.accent_alt);
    let brace_style = StyleSpec::plain().fg(theme.fg_dim);

    let chars = chars_of(line);
    let n = chars.len();
    let ghost s = line@;
    let ghost all = tokens(s);
    let mut spans: Vec<StyledSpan> = Vec::new();
    let mut in_math = false;
    let mut i: usize = 0;
    while i < n
        invariant
            chars@ == s,
            n == s.len(),
            i <= n,
            spans.len() <= all.len(),
            spans_from(s, i as int, in_math) == all.subrange(spans.len() as int, all.len() as int),
            forall|k: int|
                0 <= k < spans.len() ==> (#[trigger] spans[k]).content@ == all[k].0
                    && spans[k].style == kind_style(*theme, all[k].1),
            normal == kind_style(*theme, SpanKind::Normal),
            cmd_style == kind_style(*theme, SpanKind::Command),
            comment_style == kind_style(*theme, SpanKind::Comment),
            math_style == kind_style(*theme, SpanKind::Math),
            brace_style == kind_style(*theme, SpanKind::Brace),
        decreases n - i,
    {
        let ghost rest = spans_from(s, i as int, in_math);
        let ghost k0 = spans.len() as int;
        let c = chars[i];
        let j: usize;
        let content: String;
        let style: StyleSpec;
        if c == '%' {
            j = n;
            content = string_of_range(&chars, i, n);
            style = comment_style;
        } else if c == '\\' {
            j = command_end_exec(&chars, i);
            proof {
                lemma_command_end(s, i as int);
            }
            content = string_of_range(&chars, i, j);
            style = cmd_style;
        } else if c == '$' {
            j = i + 1;
            content = string_of_range(&chars, i, j);
            style = math_style;
        } else if is_brace_exec(c) {
            j = i + 1;
            content = string_of_range(&chars, i, j);
            style = brace_style;
        } else {
            j = text_end_exec(&chars, i);
            proof {
                lemma_text_end(s, i as int);
            }
            content = string_of_range(&chars, i, j);
            style = if in_math {
                math_style
            } else {
                normal
            };
        }
        let ghost new_math = if c == '$' {
            !in_math
        } else {
            in_math
        };
        proof {
            assert(j > i);
            assert(rest.len() > 0);
            assert(content@ == s.subrange(i as int, j as int));
            assert(rest[0].0 == s.subrange(i as int, j as int));
            assert(style == kind_style(*theme, rest[0].1));
            assert(all.subrange(k0, all.len() as int)[0] == all[k0]);
            assert(rest[0] == all[k0]);
            if c == '$' {
                assert(s.subrange(i as int, j as int) =~= seq!['$']);
            } else if is_brace(c) {
                assert(s.subrange(i as int, j as int) =~= seq![c]);
            }
            if c == '%' {
                assert(rest.len() == 1);
                assert(spans_from(s, j as int, new_math) =~= all.subrange(k0 + 1, all.len() as int));
            } else {
                assert(rest.drop_first() == spans_from(s, j as int, new_math));
                assert(all.subrange(k0 + 1, all.len() as int) =~= all.subrange(
                    k0,
                    all.len() as int,
                ).drop_first());
            }
        }
        spans.push(StyledSpan { content, style });
        if c == '$' {
            in_math = !in_math;
        }
        i = j;
    }
    proof {
        assert(spans_from(s, i as int, in_math).len() == 0);
        assert(spans.len() == all.len());
    }
    spans
}

} // verus!
