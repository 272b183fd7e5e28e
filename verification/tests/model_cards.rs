use moly_kit::model_cards::{
    add_local_file, add_to_index, featured_models, has_file, local_card_id, local_model_index,
    local_remote_file, search, ModelIndex,
};

fn index(id: &str, name: &str, model_type: &str, featured: bool) -> ModelIndex {
    ModelIndex {
        id: id.into(),
        name: name.into(),
        architecture: "llama".into(),
        model_type: model_type.into(),
        summary: "A model".into(),
        featured,
        like_count: 0,
        download_count: 0,
    }
}

fn ids(v: &[ModelIndex]) -> Vec<&str> {
    v.iter().map(|m| m.id.as_str()).collect()
}

#[test]
fn search_matches_case_insensitively_and_trims() {
    let all = vec![
        index("org/Qwen-7B", "Qwen", "chat", false),
        index("org/Phi", "Phi", "instruct", false),
        index("org/Embed", "QwenEmbed", "embedding", false),
    ];
    assert_eq!(ids(&search(&all, "  QWEN ", 10, 0)), vec!["org/Qwen-7B"]);
    assert_eq!(ids(&search(&all, "LLAMA", 10, 0)), vec!["org/Qwen-7B", "org/Phi"]);
    assert_eq!(ids(&search(&all, "nothing", 10, 0)), Vec::<&str>::new());
}

#[test]
fn search_pages_results() {
    let all: Vec<ModelIndex> = (0..5).map(|i| index(&format!("m{}", i), "x", "chat", false)).collect();
    assert_eq!(ids(&search(&all, "", 2, 1)), vec!["m1", "m2"]);
    assert_eq!(ids(&search(&all, "", 10, 4)), vec!["m4"]);
    assert_eq!(ids(&search(&all, "", 10, 9)), Vec::<&str>::new());
    assert_eq!(ids(&search(&all, "", 0, 0)), Vec::<&str>::new());
}

#[test]
fn featured_only_chat_models() {
    let all = vec![
        index("a", "a", "chat", true),
        index("b", "b", "chat", false),
        index("c", "c", "embedding", true),
        index("d", "d", "instruct", true),
    ];
    assert_eq!(ids(&featured_models(&all, 10, 0)), vec!["a", "d"]);
    assert_eq!(ids(&featured_models(&all, 1, 1)), vec!["d"]);
}

#[test]
fn shared_model_files_get_p2p_entries() {
    let id = local_card_id("peer", "Qwen-Q2_K");
    assert_eq!(id, "peer/Qwen-Q2_K");
    let file = local_remote_file("Qwen-Q2_K", 1234, "abcd", "peer");
    assert_eq!(file.name, "Qwen-Q2_K");
    assert_eq!(file.size, "1234");
    assert_eq!(file.quantization, "");
    assert!(file.tags.is_empty());
    assert_eq!(file.sha256.as_deref(), Some("abcd"));
    assert_eq!(file.download.default, "p2p://peer/sha256/abcd");
}

#[test]
fn shared_model_files_are_added_once() {
    let mut files = Vec::new();
    assert!(!has_file(&files, "m"));
    assert!(add_local_file(&mut files, local_remote_file("m", 1, "h", "p")));
    assert!(has_file(&files, "m"));
    assert!(!add_local_file(&mut files, local_remote_file("m", 2, "h2", "p")));
    assert_eq!(files.len(), 1);
    assert_eq!(files[0].size, "1");
}

#[test]
fn shared_model_cards_are_indexed_once() {
    let mut index = Vec::new();
    let entry = local_model_index("peer/m", "m", "llama", "a model");
    assert_eq!(entry.model_type, "instruct");
    assert!(entry.featured);
    assert_eq!((entry.like_count, entry.download_count), (0, 0));
    assert!(add_to_index(&mut index, entry));
    assert!(!add_to_index(&mut index, local_model_index("peer/m", "other", "", "")));
    assert_eq!(index.len(), 1);
    assert_eq!(index[0].name, "m");
}
