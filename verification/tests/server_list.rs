use cast_client::chat::mcp::McpServerConfig;
use cast_client::chat::mcp_client::{
    add_server_tools, find_config, remove_server, remove_server_tools, servers_to_connect, stdio_launch, update_server_config,
    ConnectionChange,
};
use cast_client::chat::mcp::McpServerTool;
use cast_client::json::JsonValue;

fn server(id: &str, enabled: bool) -> McpServerConfig {
    let mut c = McpServerConfig::new_sse(format!("srv {id}"), "http://h".to_string());
    c.id = id.to_string();
    c.enabled = enabled;
    c
}

#[test]
fn storing_a_configuration_says_how_to_connect() {
    let mut configs = vec![server("a", true), server("b", false)];
    assert_eq!(update_server_config(&mut configs, server("a", false)), ConnectionChange::Disconnect);
    assert_eq!(update_server_config(&mut configs, server("b", true)), ConnectionChange::Connect);
    assert_eq!(update_server_config(&mut configs, server("b", true)), ConnectionChange::Reconnect);
    assert_eq!(update_server_config(&mut configs, server("c", false)), ConnectionChange::Keep);
    assert_eq!(configs.len(), 3);
    let i = find_config(&configs, "b").unwrap();
    assert!(configs[i].enabled);
    assert_eq!(find_config(&configs, "zzz"), None);
}

#[test]
fn removing_drops_every_configuration_with_the_id() {
    let mut configs = vec![server("a", true), server("b", true), server("a", false)];
    remove_server(&mut configs, "a");
    assert_eq!(configs.len(), 1);
    assert_eq!(configs[0].id, "b");
    assert_eq!(find_config(&configs, "a"), None);
    remove_server(&mut configs, "a");
    assert_eq!(configs.len(), 1);
    assert_eq!(configs[0].id, "b");
}

#[test]
fn only_enabled_servers_connect_at_start() {
    let configs = vec![server("a", false), server("b", true), server("c", true)];
    assert_eq!(servers_to_connect(&configs), vec![1, 2]);
}

#[test]
fn disconnecting_drops_the_server_tools() {
    let tool = |s: &str, n: &str| McpServerTool {
        server_id: s.to_string(),
        name: n.to_string(),
        description: None,
        input_schema: JsonValue::Null,
    };
    let mut tools = vec![tool("a", "x"), tool("b", "y"), tool("a", "z")];
    remove_server_tools(&mut tools, "a");
    assert_eq!(tools.len(), 1);
    assert_eq!(tools[0].name, "y");
}

#[test]
fn npx_servers_start_through_cmd() {
    let (program, args) = stdio_launch("npx", &vec!["-y".to_string(), "@scope/server".to_string()]);
    assert_eq!(program, "cmd.exe");
    assert_eq!(args, vec!["/c".to_string(), "npx -y @scope/server".to_string()]);
    let (program, args) = stdio_launch("python", &vec!["srv.py".to_string()]);
    assert_eq!(program, "python");
    assert_eq!(args, vec!["srv.py".to_string()]);
}

#[test]
fn reconnecting_leaves_only_the_new_tools() {
    let tool = |s: &str, n: &str| McpServerTool {
        server_id: s.to_string(),
        name: n.to_string(),
        description: None,
        input_schema: JsonValue::Null,
    };
    let mut configs = vec![server("a", true)];
    let mut tools = vec![tool("a", "old"), tool("b", "y")];
    let change = update_server_config(&mut configs, server("a", true));
    assert_eq!(change, ConnectionChange::Reconnect);
    remove_server_tools(&mut tools, "a");
    add_server_tools(&mut tools, vec![tool("a", "new")]);
    let names: Vec<&str> = tools.iter().map(|t| t.name.as_str()).collect();
    assert_eq!(names, vec!["y", "new"]);
}
