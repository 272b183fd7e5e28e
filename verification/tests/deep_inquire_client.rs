use moly_kit::deep_inquire::Article;
use moly_kit::deep_inquire_client::{
    apply_response_to_content, get_human_readable_stage_name, DeepInquireContent, DeepInquireResponse, DeltaChoice, DeltaContent,
};

fn delta(content: &str, urls: &[&str], stage_type: Option<&str>, id: usize) -> DeltaChoice {
    DeltaChoice {
        delta: DeltaContent {
            content: content.into(),
            articles: urls.iter().map(|u| Article { title: "t".into(), url: u.to_string() }).collect(),
            stage_type: stage_type.map(|t| t.to_string()),
            id,
        },
    }
}

fn empty() -> DeepInquireContent {
    DeepInquireContent { text: String::new(), citations: vec![], data: None }
}

#[test]
fn plain_delta_replaces_text_and_citations() {
    let mut c = empty();
    apply_response_to_content(DeepInquireResponse { choices: vec![delta("Hello", &["a"], None, 0)] }, &mut c);
    apply_response_to_content(DeepInquireResponse { choices: vec![delta("Bye", &["b", "c"], None, 0)] }, &mut c);
    assert_eq!(c.text, "Bye");
    assert_eq!(c.citations, vec!["b".to_string(), "c".to_string()]);
    assert!(c.data.is_none());
}

#[test]
fn stage_deltas_fill_phases_by_id() {
    let mut c = empty();
    apply_response_to_content(
        DeepInquireResponse {
            choices: vec![
                delta("thinking 1", &[], Some("thinking"), 1),
                delta("writing 1", &["u"], Some("content"), 1),
                delta("thinking 2", &[], Some("thinking"), 2),
                delta("done 1", &[], Some("completion"), 1),
                delta("ignored", &[], Some("unknown"), 3),
            ],
        },
        &mut c,
    );
    let stages = &c.data.as_ref().unwrap().stages;
    assert_eq!(stages.len(), 2);
    assert_eq!(stages[0].id, 1);
    assert_eq!(stages[0].thinking.as_ref().unwrap().text, "thinking 1");
    assert_eq!(stages[0].writing.as_ref().unwrap().citations, vec!["u".to_string()]);
    assert_eq!(stages[0].completed.as_ref().unwrap().text, "done 1");
    assert_eq!(stages[1].id, 2);
    assert!(stages[1].writing.is_none());
    assert_eq!(c.text, "");
}

#[test]
fn plain_delta_keeps_stages() {
    let mut c = empty();
    apply_response_to_content(DeepInquireResponse { choices: vec![delta("x", &[], Some("thinking"), 7)] }, &mut c);
    apply_response_to_content(DeepInquireResponse { choices: vec![delta("final", &[], None, 0)] }, &mut c);
    assert_eq!(c.text, "final");
    assert_eq!(c.data.unwrap().stages[0].id, 7);
}

#[test]
fn stage_names_are_shown_capitalized() {
    assert_eq!(get_human_readable_stage_name("deep_search"), "Deep Search");
    assert_eq!(get_human_readable_stage_name("writing"), "Writing");
    assert_eq!(get_human_readable_stage_name("a__b"), "A  B");
    assert_eq!(get_human_readable_stage_name(""), "");
    assert_eq!(get_human_readable_stage_name("ébauche_finale"), "Ébauche Finale");
}
