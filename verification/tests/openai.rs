use moly_kit::openai::{
    needs_empty_properties, role_of, split_reasoning_tag, Choice, Completion, Content, ContentPart, File, ImageUrlDetail,
    IncomingMessage, Role, StreamedContent,
};
use moly_kit::protocol::{BotId, EntityId};

#[test]
fn split_reasoning_closed_tag() {
    assert_eq!(split_reasoning_tag("<think>hmm</think>Answer"), ("hmm", "Answer"));
}

#[test]
fn split_reasoning_leading_space_and_unclosed() {
    assert_eq!(split_reasoning_tag("  \n<think>still thinking"), ("still thinking", ""));
}

#[test]
fn split_reasoning_without_tag() {
    assert_eq!(split_reasoning_tag("Hello <think>x</think>"), ("", "Hello <think>x</think>"));
    assert_eq!(split_reasoning_tag(""), ("", ""));
}

#[test]
fn content_text_joins_text_parts() {
    let c = Content::Parts(vec![
        ContentPart::Text { text: "a".into() },
        ContentPart::ImageUrl { image_url: ImageUrlDetail { url: "u".into() } },
        ContentPart::Text { text: "b".into() },
        ContentPart::File { file: File { filename: "f".into(), file_data: "d".into() } },
    ]);
    assert_eq!(c.text(), "a b");
    assert_eq!(Content::Text("plain".into()).text(), "plain");
    assert_eq!(Content::default().text(), "");
    assert_eq!(Content::Parts(vec![]).text(), "");
}

fn chunk(text: &str, reasoning: &str, citations: &[&str]) -> Completion {
    Completion {
        choices: vec![Choice {
            delta: IncomingMessage {
                content: Content::Text(text.into()),
                reasoning: reasoning.into(),
            },
        }],
        citations: citations.iter().map(|c| c.to_string()).collect(),
    }
}

#[test]
fn streamed_reasoning_given_apart() {
    let mut s = StreamedContent::new();
    s.apply_completion(&chunk("", "Let me", &["a"]));
    s.apply_completion(&chunk("Hi", " think", &["a", "b"]));
    assert_eq!(s.text, "Hi");
    assert_eq!(s.reasoning, "Let me think");
    assert_eq!(s.citations, vec!["a".to_string(), "b".to_string()]);
}

#[test]
fn streamed_reasoning_inlined() {
    let mut s = StreamedContent::new();
    s.apply_completion(&chunk("<think>ab", "", &[]));
    assert_eq!(s.text, "");
    assert_eq!(s.reasoning, "ab");
    s.apply_completion(&chunk("c</think>Done", "", &[]));
    assert_eq!(s.text, "Done");
    assert_eq!(s.reasoning, "abc");
    assert_eq!(s.full_text, "<think>abc</think>Done");
}

#[test]
fn roles_of_senders() {
    assert_eq!(role_of(&EntityId::User), Some(Role::User));
    assert_eq!(role_of(&EntityId::System), Some(Role::System));
    assert_eq!(role_of(&EntityId::Bot(BotId::new("m", "p"))), Some(Role::Assistant));
    assert_eq!(role_of(&EntityId::App), None);
    assert_eq!(role_of(&EntityId::Tool), None);
}

#[test]
fn object_schemas_get_properties() {
    assert!(needs_empty_properties(Some("object"), false));
    assert!(!needs_empty_properties(Some("object"), true));
    assert!(!needs_empty_properties(Some("array"), false));
    assert!(!needs_empty_properties(None, false));
}

fn message(from: EntityId, text: &str) -> moly_kit::protocol::Message {
    let mut content = moly_kit::protocol::MessageContent::default();
    content.text = text.to_string();
    moly_kit::protocol::Message { from, metadata: moly_kit::protocol::MessageMetadata::new(0), content }
}

#[test]
fn conversations_are_sent_with_roles() {
    let messages = vec![
        message(EntityId::System, "be brief"),
        message(EntityId::User, "hi"),
        message(EntityId::Bot(BotId::new("m", "p")), "hello"),
    ];
    let out = moly_kit::openai::outgoing_messages(&messages).unwrap();
    assert_eq!(
        out,
        vec![
            (Role::System, "be brief".to_string()),
            (Role::User, "hi".to_string()),
            (Role::Assistant, "hello".to_string()),
        ]
    );
}

#[test]
fn app_messages_cannot_be_sent() {
    let messages = vec![message(EntityId::User, "hi"), message(EntityId::App, "error")];
    let e = moly_kit::openai::outgoing_messages(&messages).unwrap_err();
    assert_eq!(e.kind(), moly_kit::protocol::ClientErrorKind::Format);
    assert_eq!(e.message(), "Could not convert message to outgoing format.");
}
