use moly_kit::mcp::{display_name_from_namespaced, parse_namespaced_tool_name, ToolRegistry};
use moly_kit::protocol::Tool;

fn tool(name: &str) -> Tool {
    Tool { name: name.into(), description: Some(format!("does {}", name)), input_schema: "{}".into() }
}

#[test]
fn parses_namespaced_names() {
    assert_eq!(
        parse_namespaced_tool_name("filesystem__read_file"),
        Ok(("filesystem".to_string(), "read_file".to_string()))
    );
    assert_eq!(
        parse_namespaced_tool_name("a__b__c"),
        Ok(("a".to_string(), "b__c".to_string()))
    );
}

#[test]
fn refuses_names_without_separator() {
    assert_eq!(
        parse_namespaced_tool_name("read_file"),
        Err("Invalid namespaced tool name: 'read_file'. Expected format 'server_id__tool_name'".to_string())
    );
}

#[test]
fn display_names() {
    assert_eq!(display_name_from_namespaced("filesystem__read_file"), "filesystem: read_file");
    assert_eq!(display_name_from_namespaced("plain"), "plain");
}

#[test]
fn registry_add_lookup_remove() {
    let mut registry = ToolRegistry::new();
    registry.add_server_tools("my-fs", vec![tool("read"), tool("write")]);
    registry.add_server_tools("web", vec![tool("fetch")]);

    let entry = registry.get_tool_entry("my_fs__read").expect("registered");
    assert_eq!(entry.server_id, "my-fs");
    assert_eq!(entry.original_name, "read");

    let mut names: Vec<String> = registry.get_all_tools().into_iter().map(|t| t.name).collect();
    names.sort();
    assert_eq!(names, vec!["my_fs__read", "my_fs__write", "web__fetch"]);

    registry.remove_server("my-fs");
    assert!(registry.get_tool_entry("my_fs__read").is_none());
    assert!(registry.get_tool_entry("web__fetch").is_some());
    assert_eq!(registry.get_all_tools().len(), 1);
}
