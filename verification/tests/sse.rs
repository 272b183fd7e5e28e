use moly_kit::sse::{messages, rsplit_once_terminator, SseParser};

#[test]
fn test_rsplit_once_terminator() {
    let buffer = b"data: 1\n\ndata: 2\n\ndata: incomplete mes";
    let (completed, incomplete) = rsplit_once_terminator(buffer).unwrap();
    assert_eq!(completed, b"data: 1\n\ndata: 2");
    assert_eq!(incomplete, b"data: incomplete mes");
}

#[test]
fn rsplit_without_terminator_is_none() {
    assert!(rsplit_once_terminator(b"data: 1\ndata: 2").is_none());
    assert!(rsplit_once_terminator(b"").is_none());
    assert!(rsplit_once_terminator(b"\n").is_none());
}

#[test]
fn rsplit_at_the_very_end() {
    let (completed, incomplete) = rsplit_once_terminator(b"data: 1\n\n").unwrap();
    assert_eq!(completed, b"data: 1");
    assert_eq!(incomplete, b"");
}

#[test]
fn messages_skip_comments_and_done() {
    let (msgs, stopped) = messages("data: {\"a\":1}\n\n: keep-alive\n\ndata: [DONE]");
    assert_eq!(msgs, vec![" {\"a\":1}".to_string()]);
    assert!(!stopped);
}

#[test]
fn messages_take_text_between_data_fields() {
    let (msgs, stopped) = messages("  data:one data:two\n\ndata:three");
    assert_eq!(msgs, vec!["one ".to_string(), "three".to_string()]);
    assert!(!stopped);
}

#[test]
fn messages_stop_at_event_without_data() {
    let (msgs, stopped) = messages("data: 1\n\nevent: x\n\ndata: 2");
    assert_eq!(msgs, vec![" 1".to_string()]);
    assert!(stopped);
}

#[test]
fn messages_of_empty_text_stop() {
    let (msgs, stopped) = messages("");
    assert!(msgs.is_empty());
    assert!(stopped);
}

#[test]
fn parser_keeps_incomplete_event() {
    let mut parser = SseParser::new();
    let (msgs, stopped) = parser.feed(b"data: hel");
    assert!(msgs.is_empty());
    assert!(!stopped);
    let (msgs, stopped) = parser.feed(b"lo\n\ndata: wor");
    assert_eq!(msgs, vec![" hello".to_string()]);
    assert!(!stopped);
    let (msgs, _) = parser.feed(b"ld\n\n");
    assert_eq!(msgs, vec![" world".to_string()]);
}

#[test]
fn parser_replaces_invalid_utf8() {
    let mut parser = SseParser::new();
    let (msgs, _) = parser.feed(b"data: a\xffb\n\n");
    assert_eq!(msgs, vec![" a\u{fffd}b".to_string()]);
}
