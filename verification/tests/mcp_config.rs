use cast_client::chat::mcp::{default_true, full_tool_name, Headers, McpServerConfig, McpTransport};
use cast_client::chat::mcp_client::parse_tool_name;

fn is_uuid_text(s: &str) -> bool {
    s.len() == 36 && s.chars().all(|c| c.is_ascii_digit() || ('a'..='f').contains(&c) || c == '-')
}

#[test]
fn new_stdio_fills_the_fields() {
    let c = McpServerConfig::new_stdio(
        "files".to_string(),
        "npx".to_string(),
        vec!["-y".to_string(), "server".to_string()],
    );
    assert!(is_uuid_text(&c.id));
    assert_eq!(c.name, "files");
    assert_eq!(c.transport, McpTransport::Stdio);
    assert_eq!(c.command.as_deref(), Some("npx"));
    assert_eq!(c.args, vec!["-y".to_string(), "server".to_string()]);
    assert!(c.url.is_none());
    assert!(c.headers.is_empty());
    assert!(c.enabled);
    assert!(c.tool_filter.is_none());
}

#[test]
fn new_sse_and_streamable_http_take_a_url() {
    let s = McpServerConfig::new_sse("remote".to_string(), "http://localhost:3000/sse".to_string());
    assert_eq!(s.transport, McpTransport::Sse);
    assert_eq!(s.url.as_deref(), Some("http://localhost:3000/sse"));
    assert!(s.command.is_none());
    assert!(s.args.is_empty());
    assert!(s.enabled);
    let h = McpServerConfig::new_streamable_http("api".to_string(), "https://api.example.com/mcp".to_string());
    assert_eq!(h.transport, McpTransport::StreamableHttp);
    assert_eq!(h.url.as_deref(), Some("https://api.example.com/mcp"));
    assert!(is_uuid_text(&h.id));
}

#[test]
fn generated_ids_differ() {
    let a = McpServerConfig::new_sse("a".to_string(), "http://x".to_string());
    let b = McpServerConfig::new_sse("a".to_string(), "http://x".to_string());
    assert_ne!(a.id, b.id);
}

#[test]
fn validate_accepts_complete_configs() {
    let c = McpServerConfig::new_stdio("n".to_string(), "python".to_string(), vec![]);
    assert_eq!(c.validate(), Ok(()));
    let s = McpServerConfig::new_sse("n".to_string(), "http://h".to_string());
    assert_eq!(s.validate(), Ok(()));
}

#[test]
fn validate_rejects_missing_command_or_url() {
    let mut c = McpServerConfig::new_stdio("n".to_string(), String::new(), vec![]);
    assert_eq!(c.validate(), Err("Stdio transport requires a command".to_string()));
    c.command = None;
    assert_eq!(c.validate(), Err("Stdio transport requires a command".to_string()));
    let mut s = McpServerConfig::new_streamable_http("n".to_string(), String::new());
    assert_eq!(s.validate(), Err("SSE/StreamableHTTP transport requires a URL".to_string()));
    s.url = None;
    assert_eq!(s.validate(), Err("SSE/StreamableHTTP transport requires a URL".to_string()));
}

#[test]
fn stored_defaults() {
    assert!(default_true());
    assert_eq!(McpTransport::default(), McpTransport::Stdio);
}

#[test]
fn clone_keeps_every_field() {
    let mut c = McpServerConfig::new_sse("r".to_string(), "http://h/sse".to_string());
    c.headers = Headers::from_pairs(vec![("Authorization".to_string(), "Bearer t".to_string())]);
    c.tool_filter = Some(vec!["read".to_string()]);
    let d = c.clone();
    assert_eq!(d.id, c.id);
    assert_eq!(d.headers, c.headers);
    assert_eq!(d.tool_filter, c.tool_filter);
    assert_eq!(d.url, c.url);
}

#[test]
fn tool_names_round_trip() {
    let full = full_tool_name("abc-123", "read_file");
    assert_eq!(full, "mcp__abc-123__read_file");
    assert_eq!(parse_tool_name(&full), Ok(("abc-123".to_string(), "read_file".to_string())));
}

#[test]
fn tool_name_errors() {
    assert_eq!(parse_tool_name("read_file"), Err("Not an MCP tool: read_file".to_string()));
    assert_eq!(parse_tool_name("mcp__server"), Err("Malformed MCP tool name: mcp__server".to_string()));
}

#[test]
fn tool_name_splits_at_the_first_separator() {
    assert_eq!(
        parse_tool_name("mcp__srv__tool__x"),
        Ok(("srv".to_string(), "tool__x".to_string()))
    );
}

#[test]
fn headers_keep_one_value_per_name() {
    let mut h = Headers::new();
    assert!(h.is_empty());
    h.insert("A".to_string(), "1".to_string());
    h.insert("B".to_string(), "2".to_string());
    h.insert("A".to_string(), "3".to_string());
    assert_eq!(h.len(), 2);
    assert_eq!(
        h.pairs(),
        &vec![("A".to_string(), "3".to_string()), ("B".to_string(), "2".to_string())]
    );
    let g = Headers::from_pairs(vec![
        ("X".to_string(), "a".to_string()),
        ("Y".to_string(), "b".to_string()),
        ("X".to_string(), "c".to_string()),
    ]);
    assert_eq!(g.pairs(), &vec![("X".to_string(), "c".to_string()), ("Y".to_string(), "b".to_string())]);
}

#[test]
fn generated_ids_have_the_v4_layout() {
    let c = McpServerConfig::new_sse("s".to_string(), "http://h".to_string());
    let id: Vec<char> = c.id.chars().collect();
    assert_eq!(id.len(), 36);
    for (i, ch) in id.iter().enumerate() {
        if i == 8 || i == 13 || i == 18 || i == 23 {
            assert_eq!(*ch, '-');
        } else {
            assert!(ch.is_ascii_digit() || ('a'..='f').contains(ch));
        }
    }
    assert_eq!(id[14], '4');
    assert!(['8', '9', 'a', 'b'].contains(&id[19]));
}
