use cast_client::chat::mcp::McpServerTool;
use cast_client::chat::ExecMode;
use cast_client::chat::tools::{
    agent_tool_specs, agent_tools, enabled_builtin_tool_specs, get_builtin_tool_defs, get_enabled_builtin_tools, list_directory_result, plan_tool_call,
    read_file_result, web_fetch_result, write_file_result, FetchOutcome, ToolAction, ToolPreferences, FETCH_LIMIT,
};
use cast_client::json::JsonValue;
use cast_client::types::ToolCall;

fn call(name: &str, args: &str) -> ToolCall {
    ToolCall { call_id: "1".to_string(), fn_name: name.to_string(), fn_arguments: JsonValue::parse(args).unwrap() }
}

#[test]
fn four_builtin_tools_enabled_by_default() {
    let defs = get_builtin_tool_defs();
    let names: Vec<&str> = defs.iter().map(|d| d.name).collect();
    assert_eq!(names, vec!["read_file", "write_file", "list_directory", "web_fetch"]);
    assert!(defs.iter().all(|d| d.enabled_by_default));
    let schema: serde_json::Value = serde_json::from_str(&defs[0].schema.to_text()).unwrap();
    let expected: serde_json::Value = serde_json::from_str(
        r#"{"type":"object","properties":{"path":{"type":"string","description":"Relative or absolute file path"}},"required":["path"]}"#,
    )
    .unwrap();
    assert_eq!(schema, expected);
}

#[test]
fn preferences_store_the_last_value() {
    let mut p = ToolPreferences::new();
    assert_eq!(p.get("web_fetch"), None);
    p.insert("web_fetch".to_string(), false);
    p.insert("read_file".to_string(), true);
    p.insert("web_fetch".to_string(), true);
    p.insert("web_fetch".to_string(), false);
    assert_eq!(p.get("web_fetch"), Some(false));
    assert_eq!(p.get("read_file"), Some(true));
    assert_eq!(p.entries().len(), 2);
}

#[test]
fn disabled_tools_are_not_offered() {
    let mut p = ToolPreferences::new();
    p.insert("write_file".to_string(), false);
    p.insert("unknown".to_string(), false);
    let specs = enabled_builtin_tool_specs(&p);
    let names: Vec<&str> = specs.iter().map(|s| s.name.as_str()).collect();
    assert_eq!(names, vec!["read_file", "list_directory", "web_fetch"]);
    let tools = get_enabled_builtin_tools(&p);
    assert_eq!(tools.len(), 3);
    assert_eq!(tools[1].description.as_deref(), Some("List files and subdirectories inside a directory path"));
}

#[test]
fn mcp_tools_are_offered_under_their_full_name() {
    let t = McpServerTool {
        server_id: "s1".to_string(),
        name: "search".to_string(),
        description: None,
        input_schema: JsonValue::parse(r#"{"type":"object"}"#).unwrap(),
    };
    let spec = t.tool_spec();
    assert_eq!(spec.name, "mcp__s1__search");
    assert_eq!(spec.description, "");
    let g = t.to_genai_tool();
    assert_eq!(g.description.as_deref(), Some(""));
}

#[test]
fn plans_for_each_tool() {
    assert!(matches!(plan_tool_call(&call("read_file", r#"{"path":"/a"}"#)), Ok(ToolAction::ReadFile { path }) if path == "/a"));
    assert!(matches!(
        plan_tool_call(&call("write_file", r#"{"path":"/a","content":"x"}"#)),
        Ok(ToolAction::WriteFile { path, content }) if path == "/a" && content == "x"
    ));
    assert!(matches!(plan_tool_call(&call("list_directory", "{}")), Ok(ToolAction::ListDirectory { path }) if path == "."));
    assert!(matches!(plan_tool_call(&call("web_fetch", r#"{"url":"https://x"}"#)), Ok(ToolAction::WebFetch { url }) if url == "https://x"));
}

#[test]
fn plan_errors() {
    assert_eq!(plan_tool_call(&call("read_file", "{}")).unwrap_err(), "Missing required 'path' argument");
    assert_eq!(plan_tool_call(&call("write_file", r#"{"path":"/a"}"#)).unwrap_err(), "Missing required 'content' argument");
    assert_eq!(plan_tool_call(&call("web_fetch", r#"{"url":3}"#)).unwrap_err(), "Missing required 'url' argument");
    assert_eq!(plan_tool_call(&call("delete_all", "{}")).unwrap_err(), "Unknown tool: delete_all");
}

#[test]
fn file_results() {
    assert_eq!(read_file_result("/a", Ok("text".to_string())), Ok("text".to_string()));
    assert_eq!(
        read_file_result("/a", Err("not found".to_string())),
        Err("Failed to read '/a': not found".to_string())
    );
    assert_eq!(
        write_file_result("/a", "héllo", Ok(())),
        Ok("Successfully wrote 6 bytes to '/a'".to_string())
    );
    assert_eq!(
        write_file_result("/a", "x", Err("denied".to_string())),
        Err("Failed to write to '/a': denied".to_string())
    );
}

#[test]
fn directory_listings() {
    let listed = list_directory_result("/d", Ok(vec![("src".to_string(), true), ("a.txt".to_string(), false)]));
    assert_eq!(listed, Ok("\u{1F4C1} src/\n\u{1F4C4} a.txt".to_string()));
    assert_eq!(list_directory_result("/e", Ok(vec![])), Ok("Directory '/e' is empty.".to_string()));
    assert_eq!(
        list_directory_result("/x", Err("gone".to_string())),
        Err("Failed to read directory '/x': gone".to_string())
    );
}

#[test]
fn fetched_pages_are_cut_at_the_limit() {
    let short = web_fetch_result(FetchOutcome::Body("ok".to_string()));
    assert_eq!(short, Ok("ok".to_string()));
    let long = "a".repeat(FETCH_LIMIT + 5);
    let cut = web_fetch_result(FetchOutcome::Body(long)).unwrap();
    assert_eq!(cut, format!("{}...\n\n[Content truncated at 8000 characters]", "a".repeat(FETCH_LIMIT)));
    assert_eq!(
        web_fetch_result(FetchOutcome::RequestFailed("dns".to_string())),
        Err("HTTP request failed: dns".to_string())
    );
    assert_eq!(
        web_fetch_result(FetchOutcome::BodyFailed("eof".to_string())),
        Err("Failed to read body: eof".to_string())
    );
}

#[test]
fn json_values_print_compactly() {
    let v = JsonValue::Array(vec![JsonValue::Bool(true), JsonValue::Null]);
    assert_eq!(v.to_text(), "[true,null]");
}

#[test]
fn agents_are_offered_builtin_then_mcp_tools() {
    let mut p = ToolPreferences::new();
    p.insert("web_fetch".to_string(), false);
    let mcp = vec![McpServerTool {
        server_id: "s".to_string(),
        name: "t".to_string(),
        description: Some("remote".to_string()),
        input_schema: JsonValue::parse("{}").unwrap(),
    }];
    let specs = agent_tool_specs(ExecMode::Agent, &p, &mcp);
    let names: Vec<&str> = specs.iter().map(|s| s.name.as_str()).collect();
    assert_eq!(names, vec!["read_file", "write_file", "list_directory", "mcp__s__t"]);
    assert_eq!(specs[3].description, "remote");
    assert!(agent_tool_specs(ExecMode::Chat, &p, &mcp).is_empty());
    assert_eq!(agent_tools(ExecMode::Agent, &p, &mcp).len(), 4);
    assert!(agent_tools(ExecMode::Chat, &p, &mcp).is_empty());
}

#[test]
fn a_tool_is_on_by_preference_else_by_default() {
    let defs = get_builtin_tool_defs();
    let mut p = ToolPreferences::new();
    assert!(p.is_enabled(&defs[3]));
    p.insert("web_fetch".to_string(), false);
    p.insert("unknown".to_string(), true);
    assert!(!p.is_enabled(&defs[3]));
    assert!(p.is_enabled(&defs[0]));
    let names: Vec<String> = get_enabled_builtin_tools(&p).iter().map(|t| t.name.to_string()).collect();
    assert_eq!(names, vec!["read_file", "write_file", "list_directory"]);
}
