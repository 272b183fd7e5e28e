use moly_kit::amortized_string::{AmortizedString, Amortizer, CHUNK_SIZE};

#[test]
fn yields_in_chunks_until_done() {
    let mut s = AmortizedString::default();
    assert_eq!(s.next(), None);
    s.update("Hello world!".to_string());
    assert_eq!(s.next(), Some("Hello".to_string()));
    assert_eq!(s.current(), "Hello");
    assert_eq!(s.next(), Some("Hello worl".to_string()));
    assert_eq!(s.next(), Some("Hello world!".to_string()));
    assert_eq!(s.next(), None);
    assert_eq!(CHUNK_SIZE, 5);
}

#[test]
fn chunks_end_on_char_boundaries() {
    let mut s = AmortizedString::new();
    // Each of these takes three bytes.
    s.update("日本語の".to_string());
    assert_eq!(s.next(), Some("日本".to_string()));
    assert_eq!(s.next(), Some("日本語の".to_string()));
    assert_eq!(s.next(), None);
}

#[test]
fn appended_text_continues_where_it_was() {
    let mut s = AmortizedString::new();
    s.update("abcdefgh".to_string());
    assert_eq!(s.next(), Some("abcde".to_string()));
    s.update("abcdefghijkl".to_string());
    assert_eq!(s.next(), Some("abcdefghij".to_string()));
}

#[test]
fn changed_text_is_yielded_whole() {
    let mut s = AmortizedString::new();
    s.update("abcdefgh".to_string());
    assert_eq!(s.next(), Some("abcde".to_string()));
    s.update("xyz and more text".to_string());
    assert_eq!(s.next(), Some("xyz and more text".to_string()));
    assert_eq!(s.next(), None);
}

#[test]
fn update_always_yields_once_more() {
    let mut s = AmortizedString::new();
    s.update("ab".to_string());
    assert_eq!(s.next(), Some("ab".to_string()));
    assert_eq!(s.next(), None);
    s.update("ab".to_string());
    assert_eq!(s.next(), Some("ab".to_string()));
    assert_eq!(s.next(), None);
}

#[test]
fn amortizer_yields_reasoning_then_text() {
    let mut a = Amortizer::new();
    let steps = a.step("Hello world".to_string(), "Think".to_string());
    let expected: Vec<(String, String)> = vec![
        ("".into(), "Think".into()),
        ("Hello".into(), "Think".into()),
        ("Hello worl".into(), "Think".into()),
        ("Hello world".into(), "Think".into()),
    ];
    assert_eq!(steps, expected);
    let steps = a.step("Hello world!".to_string(), "Think".to_string());
    let expected: Vec<(String, String)> = vec![
        ("Hello world".into(), "Think".into()),
        ("Hello world!".into(), "Think".into()),
    ];
    assert_eq!(steps, expected);
}
