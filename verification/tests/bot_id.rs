use moly_kit::protocol::BotId;

#[test]
fn test_bot_id() {
    // Simple
    let id = BotId::new("123", "example.com");
    assert_eq!(id.as_str(), "3;123@example.com");
    assert_eq!(id.id(), "123");
    assert_eq!(id.provider(), "example.com");

    // Dirty
    let id = BotId::new("a;b@c", "https://ex@a@m;ple.co@m");
    assert_eq!(id.as_str(), "5;a;b@c@https://ex@a@m;ple.co@m");
    assert_eq!(id.id(), "a;b@c");
    assert_eq!(id.provider(), "https://ex@a@m;ple.co@m");

    // Similar yet different
    let id1 = BotId::new("a@", "b");
    let id2 = BotId::new("a", "@b");
    assert_ne!(id1.as_str(), id2.as_str());
    assert_ne!(id1, id2);
}
