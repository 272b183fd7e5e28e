use moly_kit::bots::{bots_from_model_ids, client_for_bot, merge_bot_results};
use moly_kit::protocol::{Bot, BotCapabilities, BotCapability, BotId, ClientError, ClientErrorKind, ClientResult, Picture};

fn bot(id: &str) -> Bot {
    Bot {
        id: BotId::new(id, "p"),
        name: id.to_string(),
        avatar: Picture::Grapheme("X".into()),
        capabilities: BotCapabilities::new(),
    }
}

#[test]
fn model_ids_become_sorted_chat_bots() {
    let ids: Vec<String> = ["gpt-4o", "dall-e-3", "llama", "gpt-image-1", "Zeta", "éclair"]
        .iter()
        .map(|s| s.to_string())
        .collect();
    let bots = bots_from_model_ids("https://api.example.com/v1", &ids);
    let names: Vec<&str> = bots.iter().map(|b| b.name.as_str()).collect();
    assert_eq!(names, vec!["Zeta", "gpt-4o", "llama", "éclair"]);
    assert_eq!(bots[2].id, BotId::new("llama", "https://api.example.com/v1"));
    match &bots[3].avatar {
        Picture::Grapheme(g) => assert_eq!(g, "É"),
        other => panic!("unexpected {:?}", other),
    }
    match &bots[1].avatar {
        Picture::Grapheme(g) => assert_eq!(g, "G"),
        other => panic!("unexpected {:?}", other),
    }
    assert!(bots[0].capabilities.supports_attachments());
    assert!(!bots[0].capabilities.supports_realtime());
}

#[test]
fn duplicates_are_kept_in_order() {
    let ids: Vec<String> = vec!["b".into(), "a".into(), "b".into()];
    let names: Vec<String> = bots_from_model_ids("p", &ids).into_iter().map(|b| b.name).collect();
    assert_eq!(names, vec!["a", "b", "b"]);
}

#[test]
fn merging_results_without_errors() {
    let results = vec![
        ClientResult::new_ok(vec![bot("a"), bot("b")]),
        ClientResult::new_ok(vec![bot("c")]),
    ];
    let (zipped, merged) = merge_bot_results(results);
    assert_eq!(zipped.len(), 2);
    assert_eq!(zipped[0].len(), 2);
    assert_eq!(zipped[1][0].name, "c");
    assert!(!merged.has_errors());
    let names: Vec<String> = merged.into_value().unwrap().into_iter().map(|b| b.name).collect();
    assert_eq!(names, vec!["a", "b", "c"]);
}

#[test]
fn merging_results_with_errors() {
    let err = || ClientError::new(ClientErrorKind::Network, "down".into());
    let (zipped, merged) = merge_bot_results(vec![
        ClientResult::new_err(vec![err()]),
        ClientResult::new_ok(vec![bot("c")]),
    ]);
    assert!(zipped[0].is_empty());
    assert!(merged.has_value() && merged.has_errors());
    let (_, merged) = merge_bot_results(vec![ClientResult::<Vec<Bot>>::new_err(vec![err(), err()])]);
    assert!(!merged.has_value());
    assert_eq!(merged.errors().len(), 2);
}

#[test]
fn finds_the_client_of_a_bot() {
    let clients = vec![vec![bot("a")], vec![bot("b"), bot("c")], vec![bot("c")]];
    assert_eq!(client_for_bot(&clients, &BotId::new("c", "p")), Some(1));
    assert_eq!(client_for_bot(&clients, &BotId::new("a", "p")), Some(0));
    assert_eq!(client_for_bot(&clients, &BotId::new("z", "p")), None);
}

#[test]
fn image_bots_are_listed() {
    let bots = moly_kit::bots::image_bots("https://api.openai.com/v1");
    let names: Vec<&str> = bots.iter().map(|b| b.name.as_str()).collect();
    assert_eq!(names, vec!["dall-e-2", "dall-e-3", "gpt-image-1", "gpt-image-1-mini"]);
    assert_eq!(bots[0].id, BotId::new("dall-e-2", "https://api.openai.com/v1"));
    assert!(bots.iter().all(|b| b.capabilities.iter().is_empty()));
    match &bots[3].avatar {
        Picture::Grapheme(g) => assert_eq!(g, "I"),
        other => panic!("unexpected {:?}", other),
    }
}
