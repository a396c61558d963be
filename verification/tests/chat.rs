use canopy::chat::{
    chat_body, chat_url, chunk_events, status_error, stream_control, stream_error, take_lines,
    unreachable_error, AiEvent, ChatMessage, StreamNext,
};

#[test]
fn builds_chat_body() {
    let msgs = vec![ChatMessage::system("be terse"), ChatMessage::user("hi")];
    let body = chat_body("gemma4:12b-it-qat", &msgs, true);
    assert!(body.contains("\"model\":\"gemma4:12b-it-qat\""));
    assert!(body.contains("\"stream\":true"));
    assert!(body.contains("\"role\":\"system\"") && body.contains("\"role\":\"user\""));
}

#[test]
fn chat_body_exact_and_escaped() {
    let msgs = vec![ChatMessage::assistant("say \"hi\"\n")];
    let body = chat_body("m", &msgs, false);
    assert_eq!(
        body,
        "{\"model\":\"m\",\"messages\":[{\"role\":\"assistant\",\"content\":\"say \\\"hi\\\"\\n\"}],\"stream\":false}"
    );
    assert_eq!(chat_body("m", &[], true), "{\"model\":\"m\",\"messages\":[],\"stream\":true}");
}

#[test]
fn chat_url_strips_trailing_slashes() {
    assert_eq!(chat_url("http://127.0.0.1:11434"), "http://127.0.0.1:11434/api/chat");
    assert_eq!(chat_url("http://h//"), "http://h/api/chat");
}

#[test]
fn ndjson_framing() {
    let mut buf = String::from("{\"a\":1}\n\n  {\"b\":2}  \n{\"c\"");
    let lines = take_lines(&mut buf);
    assert_eq!(lines, vec!["{\"a\":1}".to_string(), "{\"b\":2}".to_string()]);
    assert_eq!(buf, "{\"c\"");
    buf.push_str(":3}\n");
    assert_eq!(take_lines(&mut buf), vec!["{\"c\":3}".to_string()]);
    assert_eq!(buf, "");
}

#[test]
fn chunk_to_events() {
    let (ev, done) = chunk_events(Some(("Hi".to_string(), false)));
    assert!(!done);
    assert_eq!(ev.len(), 1);
    assert!(matches!(&ev[0], AiEvent::Delta(d) if d == "Hi"));
    let (ev, done) = chunk_events(Some((String::new(), true)));
    assert!(done);
    assert!(matches!(ev.as_slice(), [AiEvent::Done]));
    let (ev, done) = chunk_events(None);
    assert!(!done && ev.is_empty());
}

#[test]
fn error_events() {
    assert!(matches!(status_error("404 Not Found"), AiEvent::Error(m) if m == "Ollama returned 404 Not Found"));
    assert!(matches!(stream_error("eof"), AiEvent::Error(m) if m == "stream error: eof"));
    assert!(matches!(
        unreachable_error("http://h", "refused"),
        AiEvent::Error(m) if m == "can't reach Ollama at http://h — is it running? (refused)"
    ));
}

#[test]
fn message_roles() {
    let m = ChatMessage::user("q");
    assert_eq!((m.role.as_str(), m.content.as_str()), ("user", "q"));
    assert_eq!(ChatMessage::assistant("a").role, "assistant");
    assert_eq!(ChatMessage::system("s").role, "system");
}

#[test]
fn lines_do_not_depend_on_chunking() {
    let stream = "{\"a\":1}\n{\"b\":2}\n\n{\"c\":3}\n{\"d\"";
    let mut whole = String::from(stream);
    let all = take_lines(&mut whole);
    for cut in 0..=stream.len() {
        if !stream.is_char_boundary(cut) {
            continue;
        }
        let mut buf = String::from(&stream[..cut]);
        let mut lines = take_lines(&mut buf);
        buf.push_str(&stream[cut..]);
        lines.extend(take_lines(&mut buf));
        assert_eq!(lines, all);
        assert_eq!(buf, whole);
    }
}

#[test]
fn control_chars_are_escaped() {
    let msgs = vec![ChatMessage::user("\u{1f}\u{8}\u{c}\t\\é\u{7f}")];
    assert_eq!(
        chat_body("m", &msgs, true),
        r#"{"model":"m","messages":[{"role":"user","content":"\u001f\b\f\t\\é"#.to_string()
            + "\u{7f}"
            + r#""}],"stream":true}"#
    );
}

#[test]
fn stream_control_ends_the_reply() {
    assert!(matches!(stream_control(false, StreamNext::Ended), Some(AiEvent::Done)));
    assert!(matches!(stream_control(true, StreamNext::Bytes), Some(AiEvent::Done)));
    assert!(stream_control(false, StreamNext::Bytes).is_none());
    assert!(matches!(
        stream_control(false, StreamNext::Failed("reset".to_string())),
        Some(AiEvent::Error(m)) if m == "stream error: reset"
    ));
    assert!(matches!(stream_control(true, StreamNext::Failed("x".to_string())), Some(AiEvent::Done)));
}
