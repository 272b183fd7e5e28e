use moly_kit::protocol::{ToolCall, ToolCallPermissionStatus, ToolResult};
use moly_kit::tool_execution::{
    create_tool_output_summary, cut_for_display, executing_text, results_text, summary_of,
    tool_results_text, JsonOutput,
};

fn call(id: &str, name: &str) -> ToolCall {
    ToolCall {
        id: id.into(),
        name: name.into(),
        arguments: "{}".into(),
        permission_status: ToolCallPermissionStatus::Approved,
    }
}

fn result(id: &str, content: &str, is_error: bool) -> ToolResult {
    ToolResult { tool_call_id: id.into(), content: content.into(), is_error }
}

#[test]
fn executing_texts() {
    assert_eq!(executing_text(&[call("1", "fs__read")]), "Executing tool 'fs: read'...");
    assert_eq!(executing_text(&[call("1", "a__b"), call("2", "c__d")]), "Executing 2 tools...");
    assert_eq!(executing_text(&[]), "Executing 0 tools...");
}

#[test]
fn short_outputs_are_kept() {
    assert_eq!(cut_for_display("hello"), Some("hello".to_string()));
    let exact = "x".repeat(500);
    assert_eq!(cut_for_display(&exact), Some(exact.clone()));
}

#[test]
fn long_outputs_are_cut() {
    let long = "y".repeat(600);
    assert_eq!(cut_for_display(&long), Some(format!("{}...", "y".repeat(500))));
    // A two-byte character straddles byte 500.
    let straddling = format!("{}é{}", "z".repeat(499), "z".repeat(10));
    assert_eq!(cut_for_display(&straddling), None);
}

#[test]
fn summaries_of_json_outputs() {
    assert_eq!(create_tool_output_summary("t", "{\"summary\":\"All good\",\"n\":1}"), Some("All good".to_string()));
    assert_eq!(create_tool_output_summary("t", "{\"a\":1}"), Some("{\n  \"a\": 1\n}".to_string()));
    assert_eq!(create_tool_output_summary("t", "[1,2]"), Some("[1,2]".to_string()));
    assert_eq!(create_tool_output_summary("t", "plain text"), Some("plain text".to_string()));
}

#[test]
fn summary_from_parsed_output() {
    let json = Some(JsonOutput { summary: None, pretty: Some("pretty".into()) });
    assert_eq!(summary_of(json, "raw"), Some("pretty".to_string()));
    let json = Some(JsonOutput { summary: Some("s".into()), pretty: Some("pretty".into()) });
    assert_eq!(summary_of(json, "raw"), Some("s".to_string()));
    assert_eq!(summary_of(None, "raw"), Some("raw".to_string()));
}

#[test]
fn single_result_texts() {
    let calls = [call("1", "fs__read")];
    assert_eq!(
        results_text(&calls, &[result("1", "out", false)], &["sum".to_string()]),
        "🔧 Tool 'fs: read' executed successfully:\n`sum`"
    );
    assert_eq!(
        results_text(&calls, &[result("1", "boom", true)], &["".to_string()]),
        "🔧 Tool 'fs: read' failed:\nboom"
    );
    assert_eq!(
        results_text(&calls, &[result("9", "boom", true)], &["".to_string()]),
        "🔧 Tool 'unknown' failed:\nboom"
    );
}

#[test]
fn several_results_text() {
    let calls = [call("1", "fs__read"), call("2", "web__fetch")];
    let results = [result("1", "{\"summary\":\"read it\"}", false), result("2", "timeout", true)];
    assert_eq!(
        tool_results_text(&calls, &results),
        Some("🔧 Executed 2 tools:\n\n**fs: read** ✅: `read it`\n\n**web: fetch** ❌: timeout\n\n".to_string())
    );
}

#[test]
fn failed_calls_always_give_a_text() {
    let calls = [call("1", "fs__read")];
    assert_eq!(
        tool_results_text(&calls, &[result("1", &"é".repeat(400), true)]),
        Some(format!("🔧 Tool 'fs: read' failed:\n{}", "é".repeat(400)))
    );
    assert_eq!(tool_results_text(&calls, &[]), Some("🔧 Executed 0 tools:\n\n".to_string()));
}

#[test]
fn summaries_ignore_non_string_summary_fields() {
    assert_eq!(
        create_tool_output_summary("t", "{\"summary\":3}"),
        Some("{\n  \"summary\": 3\n}".to_string())
    );
    assert_eq!(create_tool_output_summary("t", "\"just a string\""), Some("\"just a string\"".to_string()));
}
