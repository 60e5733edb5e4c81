use cast_client::chat::mcp::{Headers, McpServerConfig, McpTransport};
use cast_client::chat::tools::ToolPreferences;
use cast_client::json::JsonValue;
use cast_client::storage::{
    load_mcp_servers, load_tool_preferences, preferences_from_json, save_mcp_servers, save_tool_preferences,
    server_from_json, servers_from_json, MCP_SERVERS_FILE, TOOL_PREFERENCES_FILE,
};

#[test]
fn file_names() {
    assert_eq!(TOOL_PREFERENCES_FILE, "tool_preferences.json");
    assert_eq!(MCP_SERVERS_FILE, "mcp_servers.json");
}

#[test]
fn missing_or_malformed_preferences_load_as_none() {
    assert!(load_tool_preferences(None).entries().is_empty());
    assert!(load_tool_preferences(Some("not json")).entries().is_empty());
    assert!(load_tool_preferences(Some(r#"{"read_file": "yes"}"#)).entries().is_empty());
    assert!(load_tool_preferences(Some("[true]")).entries().is_empty());
}

#[test]
fn preferences_load_from_an_object_of_booleans() {
    let p = load_tool_preferences(Some(r#"{"read_file": false, "web_fetch": true}"#));
    assert_eq!(p.get("read_file"), Some(false));
    assert_eq!(p.get("web_fetch"), Some(true));
    assert_eq!(p.get("write_file"), None);
}

#[test]
fn saved_preferences_load_back() {
    let mut p = ToolPreferences::new();
    p.insert("write_file".to_string(), false);
    p.insert("web_fetch".to_string(), true);
    let text = save_tool_preferences(&p);
    assert!(text.contains('\n'));
    let back = load_tool_preferences(Some(&text));
    assert_eq!(back.get("write_file"), Some(false));
    assert_eq!(back.get("web_fetch"), Some(true));
    let doc = JsonValue::parse(&text).unwrap();
    assert!(preferences_from_json(&doc).is_some());
}

#[test]
fn stored_servers_fill_in_defaults() {
    let text = r#"[{"id":"abc","name":"files","transport":"stdio","command":"npx","args":["-y","fs"]},
                   {"name":"remote","transport":"streamablehttp","url":"http://h/mcp","enabled":false,
                    "headers":{"Authorization":"Bearer t"},"tool_filter":["a"]}]"#;
    let servers = load_mcp_servers(Some(text));
    assert_eq!(servers.len(), 2);
    assert_eq!(servers[0].id, "abc");
    assert_eq!(servers[0].transport, McpTransport::Stdio);
    assert_eq!(servers[0].command.as_deref(), Some("npx"));
    assert_eq!(servers[0].args, vec!["-y".to_string(), "fs".to_string()]);
    assert!(servers[0].enabled);
    assert!(servers[0].url.is_none());
    assert_eq!(servers[1].id.len(), 36);
    assert_eq!(servers[1].transport, McpTransport::StreamableHttp);
    assert!(!servers[1].enabled);
    assert_eq!(servers[1].headers.pairs(), &vec![("Authorization".to_string(), "Bearer t".to_string())]);
    assert_eq!(servers[1].tool_filter, Some(vec!["a".to_string()]));
}

#[test]
fn malformed_server_lists_load_as_empty() {
    assert!(load_mcp_servers(None).is_empty());
    assert!(load_mcp_servers(Some("{}")).is_empty());
    assert!(load_mcp_servers(Some(r#"[{"name":"x","transport":"carrier-pigeon"}]"#)).is_empty());
    assert!(load_mcp_servers(Some(r#"[{"transport":"sse"}]"#)).is_empty());
    assert!(load_mcp_servers(Some(r#"[{"name":"x","transport":"sse","enabled":null}]"#)).is_empty());
    assert!(load_mcp_servers(Some(r#"[{"name":"x","transport":"sse","args":null}]"#)).is_empty());
}

#[test]
fn null_optional_members_read_as_missing() {
    let doc = JsonValue::parse(r#"{"id":"i","name":"x","transport":"sse","url":null,"command":null,"tool_filter":null}"#).unwrap();
    let c = server_from_json(&doc, "fresh".to_string()).unwrap();
    assert_eq!(c.id, "i");
    assert!(c.url.is_none());
    assert!(c.tool_filter.is_none());
    let doc = JsonValue::parse(r#"{"name":"x","transport":"sse"}"#).unwrap();
    assert_eq!(server_from_json(&doc, "fresh".to_string()).unwrap().id, "fresh");
}

#[test]
fn saved_servers_load_back() {
    let mut a = McpServerConfig::new_stdio("files".to_string(), "python".to_string(), vec!["srv.py".to_string()]);
    a.tool_filter = Some(vec![]);
    let mut b = McpServerConfig::new_sse("remote".to_string(), "http://h/sse".to_string());
    b.headers = Headers::from_pairs(vec![("X-Key".to_string(), "v".to_string())]);
    b.enabled = false;
    let text = save_mcp_servers(&[a.clone(), b.clone()]);
    let back = load_mcp_servers(Some(&text));
    assert_eq!(back.len(), 2);
    assert_eq!(back[0].id, a.id);
    assert_eq!(back[0].args, a.args);
    assert_eq!(back[0].tool_filter, Some(vec![]));
    assert_eq!(back[1].id, b.id);
    assert_eq!(back[1].headers, b.headers);
    assert!(!back[1].enabled);
    assert_eq!(back[1].url, b.url);
    let doc = JsonValue::parse(&text).unwrap();
    assert_eq!(servers_from_json(&doc).unwrap().len(), 2);
}

#[test]
fn empty_lists_are_left_out_when_saved() {
    let a = McpServerConfig::new_sse("r".to_string(), "http://h".to_string());
    let text = save_mcp_servers(&[a]);
    assert!(!text.contains("args"));
    assert!(!text.contains("headers"));
    assert!(!text.contains("command"));
    assert!(!text.contains("tool_filter"));
    assert!(text.contains("\"transport\": \"sse\""));
}

#[test]
fn servers_stored_as_arrays_read_their_fields_in_order() {
    let text = r#"[["abc","files","stdio","npx",["-y"],null,{"X-Key":"v"},false,["t"]],
                   ["def","remote","sse"]]"#;
    let servers = load_mcp_servers(Some(text));
    assert_eq!(servers.len(), 2);
    assert_eq!(servers[0].id, "abc");
    assert_eq!(servers[0].name, "files");
    assert_eq!(servers[0].command.as_deref(), Some("npx"));
    assert_eq!(servers[0].args, vec!["-y".to_string()]);
    assert!(servers[0].url.is_none());
    assert_eq!(servers[0].headers.pairs(), &vec![("X-Key".to_string(), "v".to_string())]);
    assert!(!servers[0].enabled);
    assert_eq!(servers[0].tool_filter, Some(vec!["t".to_string()]));
    assert_eq!(servers[1].transport, McpTransport::Sse);
    assert!(servers[1].enabled);
    assert!(servers[1].args.is_empty());
    assert!(load_mcp_servers(Some(r#"[["abc","files"]]"#)).is_empty());
    assert!(load_mcp_servers(Some(r#"[["a","b","stdio",null,[],null,{},true,null,1]]"#)).is_empty());
    assert_eq!(load_mcp_servers(Some(r#"[["a","b","stdio",null,[],null,{},true,null]]"#)).len(), 1);
}
