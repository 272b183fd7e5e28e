use moly_kit::deep_inquire::{
    Message, MessageBlockContent, MessageContent, MessageDelta, MessageDeltaFactory, MessageStage,
};

fn block(s: &str) -> Option<MessageBlockContent> {
    Some(MessageBlockContent { content: s.into() })
}

fn stage(id: usize, thinking: Option<&str>, completed: Option<&str>) -> MessageStage {
    MessageStage { id, thinking: thinking.and_then(block), writing: None, completed: completed.and_then(block) }
}

#[test]
fn plain_text_deltas_append_and_merge_citations() {
    let mut m = Message {
        content: MessageContent::PlainText { text: "Hello".into(), citations: vec!["a".into()] },
        is_writing: true,
    };
    m.apply_delta(MessageDelta::text_delta(" world".into(), vec!["a".into(), "b".into(), "b".into()]));
    assert_eq!(m.visible_text(), "Hello world");
    assert_eq!(m.sources(), vec!["a".to_string(), "b".to_string()]);
    assert!(!m.has_stages());
    assert!(m.is_writing);
}

#[test]
fn stage_deltas_merge_by_id_and_complete() {
    let mut m = Message {
        content: MessageContent::PlainText { text: "".into(), citations: vec![] },
        is_writing: true,
    };
    m.apply_delta(MessageDelta::stage_delta("t".into(), stage(1, Some("thinking"), None), vec![]));
    assert!(m.has_stages());
    assert!(m.is_writing);
    m.apply_delta(MessageDelta::stage_delta("".into(), stage(1, None, Some("done")), vec![]));
    let stages = m.get_stages();
    assert_eq!(stages.len(), 1);
    assert_eq!(stages[0].thinking, block("thinking"));
    assert_eq!(stages[0].completed, block("done"));
    assert!(stages[0].is_completed());
    assert_eq!(stages[0].latest_content(), Some("done"));
    assert!(!m.is_writing);
}

#[test]
fn new_stage_is_appended() {
    let mut m = Message {
        content: MessageContent::MultiStage { text: "".into(), stages: vec![stage(1, Some("x"), None)], citations: vec![] },
        is_writing: true,
    };
    m.apply_delta(MessageDelta::stage_delta("".into(), stage(2, Some("y"), None), vec![]));
    let stages = m.get_stages();
    assert_eq!(stages.iter().map(|s| s.id).collect::<Vec<_>>(), vec![1, 2]);
    assert_eq!(stages[1].latest_content(), Some("y"));
    assert!(!stages[1].is_completed());
    assert!(m.is_writing);
}
