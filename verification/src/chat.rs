//! Chat with a local assistant over the Ollama HTTP API (loopback, no auth):
//! the request body, the endpoint, and the framing of the streamed reply.
//!
//! The reply is newline-delimited JSON, one object per line; each line's
//! content delta is surfaced as it arrives, and the stream ends with `Done`
//! or an `Error`.
use vstd::prelude::*;

use crate::strings::{chars_of, string_of_range, trim_chars, trimmed};

verus! {

/// One chat turn.
#[derive(Debug, Clone)]
pub struct ChatMessage {
    pub role: String,
    pub content: String,
}

impl ChatMessage {
    pub fn user(content: &str) -> (m: Self)
        ensures
            m.role@ == "user"@,
            m.content@ == content@,
    {
        Self { role: String::from_str("user"), content: String::from_str(content) }
    }

    pub fn assistant(content: &str) -> (m: Self)
        ensures
            m.role@ == "assistant"@,
            m.content@ == content@,
    {
        Self { role: String::from_str("assistant"), content: String::from_str(content) }
    }

    pub fn system(content: &str) -> (m: Self)
        ensures
            m.role@ == "system"@,
            m.content@ == content@,
    {
        Self { role: String::from_str("system"), content: String::from_str(content) }
    }
}

/// Events streamed from a chat request up to the app loop.
#[derive(Debug)]
pub enum AiEvent {
    /// A chunk of assistant text.
    Delta(String),
    /// The response finished.
    Done,
    /// Something went wrong (connection, HTTP status, …).
    Error(String),
}

/// A hex digit, lowercase.
pub open spec fn hex_digit(n: int) -> char {
    seq!['0', '1', '2', '3', '4', '5', '6', '7', '8', '9', 'a', 'b', 'c', 'd', 'e', 'f'][n]
}

/// How `serde_json` writes one char inside a string: `"` and `\` and the
/// control chars below U+0020 are escaped (the usual short forms where JSON
/// has one, `\u00XX` otherwise); every other char is written as is.
pub open spec fn json_escape(c: char) -> Seq<char> {
    if c == '"' {
        seq!['\\', '"']
    } else if c == '\\' {
        seq!['\\', '\\']
    } else if c == '\u{0008}' {
        seq!['\\', 'b']
    } else if c == '\t' {
        seq!['\\', 't']
    } else if c == '\n' {
        seq!['\\', 'n']
    } else if c == '\u{000C}' {
        seq!['\\', 'f']
    } else if c == '\r' {
        seq!['\\', 'r']
    } else if (c as int) < 0x20 {
        seq!['\\', 'u', '0', '0', hex_digit((c as int) / 16), hex_digit((c as int) % 16)]
    } else {
        seq![c]
    }
}

pub open spec fn json_escape_all(s: Seq<char>) -> Seq<char>
    decreases s.len(),
{
    if s.len() == 0 {
        Seq::empty()
    } else {
        json_escape_all(s.drop_last()) + json_escape(s.last())
    }
}

/// The JSON text of a string value: quoted, with its chars escaped.
pub open spec fn json_string_of(s: Seq<char>) -> Seq<char> {
    seq!['"'] + json_escape_all(s) + seq!['"']
}

/// `serde_json::to_string` on a `str`: the string quoted, each char escaped
/// by the table in `json_escape`. Serializing into a `Vec` cannot fail (the
/// writer never errors), so the `Err` arm is never taken.
#[verifier::external_body]
fn json_string(s: &str) -> (r: String)
    ensures
        r@ == json_string_of(s@),
{
    serde_json::to_string(s).unwrap_or_default()
}

pub open spec fn message_json(m: ChatMessage) -> Seq<char> {
    "{\"role\":"@ + json_string_of(m.role@) + ",\"content\":"@ + json_string_of(m.content@) + "}"@
}

/// The messages as JSON array items, comma-separated.
pub open spec fn messages_json(ms: Seq<ChatMessage>) -> Seq<char>
    decreases ms.len(),
{
    if ms.len() == 0 {
        Seq::empty()
    } else if ms.len() == 1 {
        message_json(ms[0])
    } else {
        messages_json(ms.drop_last()) + ","@ + message_json(ms.last())
    }
}

/// The items of `xs` written one after another with a single `,` between
/// neighbours (the body of a JSON array).
pub open spec fn comma_separated(xs: Seq<Seq<char>>) -> Seq<char>
    decreases xs.len(),
{
    if xs.len() == 0 {
        Seq::empty()
    } else if xs.len() == 1 {
        xs[0]
    } else {
        xs[0] + ","@ + comma_separated(xs.drop_first())
    }
}

proof fn lemma_comma_separated_push(xs: Seq<Seq<char>>, x: Seq<char>)
    requires
        xs.len() > 0,
    ensures
        comma_separated(xs.push(x)) == comma_separated(xs) + ","@ + x,
    decreases xs.len(),
{
    let ys = xs.push(x);
    assert(ys[0] == xs[0]);
    if xs.len() == 1 {
        assert(ys.drop_first() =~= seq![x]);
        assert(comma_separated(seq![x]) == x);
        assert(comma_separated(xs) == xs[0]);
    } else {
        lemma_comma_separated_push(xs.drop_first(), x);
        assert(ys.drop_first() =~= xs.drop_first().push(x));
        let c = comma_separated(xs.drop_first());
        assert(xs[0] + ","@ + (c + ","@ + x) =~= (xs[0] + ","@ + c) + ","@ + x);
    }
}

/// The messages of a request are the JSON objects of the messages, in
/// order, separated by exactly one comma: a well-formed JSON array body with
/// one element per message.
pub proof fn law_messages_comma_separated(ms: Seq<ChatMessage>)
    ensures
        messages_json(ms) == comma_separated(ms.map_values(|m: ChatMessage| message_json(m))),
    decreases ms.len(),
{
    if ms.len() > 1 {
        let d = ms.drop_last();
        law_messages_comma_separated(d);
        let xs = d.map_values(|m: ChatMessage| message_json(m));
        assert(ms.map_values(|m: ChatMessage| message_json(m)) =~= xs.push(message_json(ms.last())));
        assert(xs.len() > 0);
        lemma_comma_separated_push(xs, message_json(ms.last()));
        assert(messages_json(ms) == messages_json(d) + ","@ + message_json(ms.last()));
    } else if ms.len() == 1 {
        assert(ms.map_values(|m: ChatMessage| message_json(m)) =~= seq![message_json(ms[0])]);
        assert(comma_separated(seq![message_json(ms[0])]) == message_json(ms[0]));
    } else {
        assert(ms.map_values(|m: ChatMessage| message_json(m)) =~= Seq::<Seq<char>>::empty());
    }
}

/// The `/api/chat` request body: `model`, `messages` (role and content of
/// each), `stream`, in that order, compact.
pub open spec fn chat_body_text(model: Seq<char>, ms: Seq<ChatMessage>, stream: bool) -> Seq<char> {
    "{\"model\":"@ + json_string_of(model) + ",\"messages\":["@ + messages_json(ms)
        + "],\"stream\":"@ + (if stream {
        "true"@
    } else {
        "false"@
    }) + "}"@
}

/// JSON body for an `/api/chat` request.
pub fn chat_body(model: &str, messages: &[ChatMessage], stream: bool) -> (r: String)
    ensures
        r@ == chat_body_text(model@, messages@, stream),
{
    let mut out = String::from_str("{\"model\":");
    let jm = json_string(model);
    out.append(jm.as_str());
    out.append(",\"messages\":[");
    let ghost prefix = out@;
    let mut i: usize = 0;
    while i < messages.len()
        invariant
            i <= messages@.len(),
            out@ == prefix + messages_json(messages@.take(i as int)),
        decreases messages.len() - i,
    {
        let ghost before = out@;
        if i > 0 {
            out.append(",");
        }
        out.append("{\"role\":");
        let jr = json_string(messages[i].role.as_str());
        out.append(jr.as_str());
        out.append(",\"content\":");
        let jc = json_string(messages[i].content.as_str());
        out.append(jc.as_str());
        out.append("}");
        proof {
            let t = messages@.take(i + 1);
            assert(t.drop_last() =~= messages@.take(i as int));
            assert(t.last() == messages@[i as int]);
            if i == 0 {
                assert(messages@.take(0) =~= Seq::<ChatMessage>::empty());
                assert(out@ =~= prefix + messages_json(t));
            } else {
                assert(out@ =~= prefix + messages_json(t));
            }
        }
        i = i + 1;
    }
    proof {
        assert(messages@.take(messages@.len() as int) =~= messages@);
    }
    out.append("],\"stream\":");
    if stream {
        out.append("true");
    } else {
        out.append("false");
    }
    out.append("}");
    proof {
        assert(out@ =~= chat_body_text(model@, messages@, stream));
    }
    out
}

/// `s` without trailing `/` characters.
pub open spec fn trim_trailing_slashes(s: Seq<char>) -> Seq<char>
    decreases s.len(),
{
    if s.len() > 0 && s.last() == '/' {
        trim_trailing_slashes(s.drop_last())
    } else {
        s
    }
}

/// The chat endpoint of an Ollama host: `<host>/api/chat`, without doubled
/// slashes from a host given with a trailing `/`.
pub fn chat_url(host: &str) -> (r: String)
    ensures
        r@ == trim_trailing_slashes(host@) + "/api/chat"@,
{
    let cs = chars_of(host);
    let mut n = cs.len();
    assert(cs@.subrange(0, cs@.len() as int) =~= cs@);
    while n > 0 && cs[n - 1] == '/'
        invariant
            n <= cs.len(),
            trim_trailing_slashes(cs@.subrange(0, n as int)) == trim_trailing_slashes(cs@),
        decreases n,
    {
        assert(cs@.subrange(0, n as int).drop_last() =~= cs@.subrange(0, n - 1));
        n = n - 1;
    }
    proof {
        assert(cs@.subrange(0, cs@.len() as int) =~= cs@);
    }
    let mut s = string_of_range(&cs, 0, n);
    s.append("/api/chat");
    s
}

// ─── Streamed reply ─────────────────────────────────────────────────────

/// `i` is the first newline of `s`.
pub open spec fn is_first_newline(s: Seq<char>, i: int) -> bool {
    0 <= i < s.len() && s[i] == '\n' && forall|j: int| 0 <= j < i ==> #[trigger] s[j] != '\n'
}

pub open spec fn has_newline(s: Seq<char>) -> bool {
    exists|i: int| #[trigger] is_first_newline(s, i)
}

pub open spec fn first_newline(s: Seq<char>) -> int {
    choose|i: int| #[trigger] is_first_newline(s, i)
}

/// The complete lines of `s` (each up to its newline), trimmed, without the
/// empty ones.
pub open spec fn complete_lines(s: Seq<char>) -> Seq<Seq<char>>
    decreases s.len(),
{
    if has_newline(s) {
        let i = first_newline(s);
        let line = trimmed(s.subrange(0, i + 1));
        let rest = complete_lines(s.subrange(i + 1, s.len() as int));
        if line.len() == 0 {
            rest
        } else {
            seq![line] + rest
        }
    } else {
        Seq::empty()
    }
}

/// What is left of `s` after its last newline (an incomplete line).
pub open spec fn incomplete_tail(s: Seq<char>) -> Seq<char>
    decreases s.len(),
{
    if has_newline(s) {
        let i = first_newline(s);
        incomplete_tail(s.subrange(i + 1, s.len() as int))
    } else {
        s
    }
}

/// Take every complete line out of the receive buffer: returns them trimmed
/// (empty ones skipped) and leaves the incomplete tail in the buffer.
pub fn take_lines(buf: &mut String) -> (lines: Vec<String>)
    ensures
        lines@.len() == complete_lines(old(buf)@).len(),
        forall|k: int| 0 <= k < lines@.len() ==> (#[trigger] lines@[k])@ == complete_lines(old(buf)@)[k],
        final(buf)@ == incomplete_tail(old(buf)@),
{
    let cs = chars_of(buf.as_str());
    let ghost s = cs@;
    let n = cs.len();
    let mut out: Vec<String> = Vec::new();
    let mut start: usize = 0;
    let mut i: usize = 0;
    assert(s.subrange(0, n as int) =~= s);
    while i < n
        invariant
            cs@ == s,
            n == s.len(),
            start <= i <= n,
            forall|j: int| start <= j < i ==> #[trigger] s[j] != '\n',
            out@.len() + complete_lines(s.subrange(start as int, n as int)).len() == complete_lines(s).len(),
            forall|k: int| 0 <= k < out@.len() ==> (#[trigger] out@[k])@ == complete_lines(s)[k],
            forall|k: int|
                0 <= k < complete_lines(s.subrange(start as int, n as int)).len() ==> complete_lines(
                    s,
                )[out@.len() + k] == #[trigger] complete_lines(s.subrange(start as int, n as int))[k],
            incomplete_tail(s.subrange(start as int, n as int)) == incomplete_tail(s),
        decreases n - i,
    {
        if cs[i] == '\n' {
            let ghost t = s.subrange(start as int, n as int);
            let ghost fi = (i - start) as int;
            proof {
                assert(is_first_newline(t, fi));
                let f = first_newline(t);
                if f < fi {
                    assert(t[f] == s[start + f]);
                } else if f > fi {
                    assert(t[fi] == '\n');
                }
                assert(f == fi);
                assert(t.subrange(fi + 1, t.len() as int) =~= s.subrange(i + 1, n as int));
                assert(t.subrange(0, fi + 1) =~= s.subrange(start as int, i + 1));
            }
            let mut line_chars: Vec<char> = Vec::new();
            let mut j = start;
            while j <= i
                invariant
                    start <= j <= i + 1,
                    i < n,
                    n == s.len(),
                    cs@ == s,
                    line_chars@ == s.subrange(start as int, j as int),
                decreases i + 1 - j,
            {
                line_chars.push(cs[j]);
                assert(s.subrange(start as int, j + 1) =~= s.subrange(start as int, j as int).push(
                    s[j as int],
                ));
                j = j + 1;
            }
            let (a, b) = trim_chars(&line_chars);
            let ghost rest = complete_lines(s.subrange(i + 1, n as int));
            if a < b {
                let line = string_of_range(&line_chars, a, b);
                let ghost before = out@;
                out.push(line);
                proof {
                    assert(complete_lines(t) == seq![trimmed(s.subrange(start as int, i + 1))] + rest);
                    assert forall|k: int| 0 <= k < rest.len() implies complete_lines(s)[out@.len() + k]
                        == #[trigger] rest[k] by {
                        assert(complete_lines(t)[k + 1] == rest[k]);
                        assert(complete_lines(s)[before.len() as int + (k + 1)] == complete_lines(t)[k + 1]);
                    }
                    assert(complete_lines(s)[before.len() as int] == complete_lines(t)[0]);
                }
            } else {
                proof {
                    assert(complete_lines(t) == rest);
                }
            }
            start = i + 1;
        }
        i = i + 1;
    }
    proof {
        let t = s.subrange(start as int, n as int);
        assert(!has_newline(t)) by {
            if has_newline(t) {
                let f = first_newline(t);
                assert(s[start + f] == '\n');
            }
        }
        assert(complete_lines(t).len() == 0);
    }
    *buf = string_of_range(&cs, start, n);
    out
}

/// A first newline of `s` is also the first newline of `s + t`, and there
/// is only one.
proof fn lemma_first_newline_extends(s: Seq<char>, t: Seq<char>)
    requires
        has_newline(s),
    ensures
        has_newline(s + t),
        first_newline(s + t) == first_newline(s),
        is_first_newline(s, first_newline(s)),
{
    let i = first_newline(s);
    let u = s + t;
    assert(is_first_newline(u, i)) by {
        assert forall|j: int| 0 <= j < i implies #[trigger] u[j] != '\n' by {
            assert(u[j] == s[j]);
        }
    }
    let f = first_newline(u);
    if f < i {
        assert(u[f] == s[f]);
    } else if f > i {
        assert(u[i] == '\n');
    }
}

/// Splitting the reply stream anywhere gives the same lines: the lines of
/// `s + t` are the lines of `s` followed by those of what `s` left over
/// plus `t`, and the same tail remains. So the lines taken from a buffer fed
/// chunk by chunk do not depend on where the chunks were cut.
pub proof fn law_lines_split_anywhere(s: Seq<char>, t: Seq<char>)
    ensures
        complete_lines(s + t) == complete_lines(s) + complete_lines(incomplete_tail(s) + t),
        incomplete_tail(s + t) == incomplete_tail(incomplete_tail(s) + t),
    decreases s.len(),
{
    if has_newline(s) {
        lemma_first_newline_extends(s, t);
        let i = first_newline(s);
        let rest = s.subrange(i + 1, s.len() as int);
        let u = s + t;
        assert(u.subrange(i + 1, u.len() as int) =~= rest + t);
        assert(u.subrange(0, i + 1) =~= s.subrange(0, i + 1));
        law_lines_split_anywhere(rest, t);
        let line = trimmed(s.subrange(0, i + 1));
        if line.len() == 0 {
        } else {
            assert(seq![line] + complete_lines(rest + t) =~= seq![line] + complete_lines(rest)
                + complete_lines(incomplete_tail(rest) + t));
        }
    } else {
        assert(complete_lines(s) =~= Seq::<Seq<char>>::empty());
        assert(complete_lines(s) + complete_lines(s + t) =~= complete_lines(s + t));
    }
}

/// The events one parsed reply line gives (`None`: a line that did not
/// parse): its text delta when non-empty, then `Done` if it says so.
/// Returns whether the reply is finished.
pub fn chunk_events(parsed: Option<(String, bool)>) -> (r: (Vec<AiEvent>, bool))
    ensures
        match parsed {
            None => r.0@.len() == 0 && !r.1,
            Some((delta, done)) => {
                &&& r.1 == done
                &&& r.0@.len() == (if delta@.len() > 0 {
                    1int
                } else {
                    0int
                }) + (if done {
                    1int
                } else {
                    0int
                })
                &&& delta@.len() > 0 ==> (r.0@[0] matches AiEvent::Delta(d) && d@ == delta@)
                &&& done ==> r.0@.last() is Done
            },
        },
{
    let mut events: Vec<AiEvent> = Vec::new();
    match parsed {
        None => (events, false),
        Some((delta, done)) => {
            let ghost d = delta@;
            if !delta.as_str().is_empty() {
                events.push(AiEvent::Delta(delta));
            }
            if done {
                events.push(AiEvent::Done);
            }
            (events, done)
        },
    }
}

/// What the reply stream handed over next.
pub enum StreamNext {
    /// A chunk of bytes.
    Bytes,
    /// The stream failed, with this error.
    Failed(String),
    /// The stream ended.
    Ended,
}

/// How the stream loop goes on after its next item: `None` to frame the
/// chunk's lines; otherwise the last event to send, after which the loop
/// stops. The end of the stream, or a cancel, finishes the reply with
/// `Done`; a failure ends it with the error alone.
pub fn stream_control(cancelled: bool, next: StreamNext) -> (r: Option<AiEvent>)
    ensures
        match next {
            StreamNext::Ended => r matches Some(AiEvent::Done),
            StreamNext::Failed(e) => if cancelled {
                r matches Some(AiEvent::Done)
            } else {
                r matches Some(AiEvent::Error(m)) && m@ == "stream error: "@ + e@
            },
            StreamNext::Bytes => if cancelled {
                r matches Some(AiEvent::Done)
            } else {
                r is None
            },
        },
{
    match next {
        StreamNext::Ended => Some(AiEvent::Done),
        StreamNext::Failed(e) => if cancelled {
            Some(AiEvent::Done)
        } else {
            Some(stream_error(e.as_str()))
        },
        StreamNext::Bytes => if cancelled {
            Some(AiEvent::Done)
        } else {
            None
        },
    }
}

/// The error for a reply with a non-success HTTP status.
pub fn status_error(status: &str) -> (e: AiEvent)
    ensures
        e matches AiEvent::Error(m) && m@ == "Ollama returned "@ + status@,
{
    let mut m = String::from_str("Ollama returned ");
    m.append(status);
    AiEvent::Error(m)
}

/// The error for a host that could not be reached.
pub fn unreachable_error(host: &str, err: &str) -> (e: AiEvent)
    ensures
        e matches AiEvent::Error(m) && m@ == "can't reach Ollama at "@ + host@
            + " — is it running? ("@ + err@ + ")"@,
{
    let mut m = String::from_str("can't reach Ollama at ");
    m.append(host);
    m.append(" — is it running? (");
    m.append(err);
    m.append(")");
    AiEvent::Error(m)
}

/// The error for a reply stream that broke off.
pub fn stream_error(err: &str) -> (e: AiEvent)
    ensures
        e matches AiEvent::Error(m) && m@ == "stream error: "@ + err@,
{
    let mut m = String::from_str("stream error: ");
    m.append(err);
    AiEvent::Error(m)
}

} // verus!
