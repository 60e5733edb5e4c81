use cast_client::chat::mcp_client::{
    call_tool_outcome, frame_message, init_error, initialize_request, initialized_notification,
    jsonrpc_result_to_call_tool_result,
    line_from_stdout, parse_jsonrpc, parse_tools_list, request_id, resolve_endpoint, rpc_error, sse_response,
    tool_call_request, tools_list_request, IdAllocator, handshake_step, start_handshake, HandshakeAction,
    HandshakePhase,
};
use cast_client::json::JsonValue;

fn doc(text: &str) -> JsonValue {
    JsonValue::parse(text).expect("test documents are JSON")
}

fn compact(v: &JsonValue) -> serde_json::Value {
    serde_json::from_str(&v.to_text()).unwrap()
}

#[test]
fn initialize_request_has_id_one() {
    let v = compact(&initialize_request());
    assert_eq!(
        v,
        serde_json::from_str::<serde_json::Value>(
            r#"{"jsonrpc":"2.0","id":1,"method":"initialize","params":{"protocolVersion":"2024-11-05","capabilities":{},"clientInfo":{"name":"Cast Client","version":"0.2.0"}}}"#
        )
        .unwrap()
    );
}

#[test]
fn handshake_messages() {
    assert_eq!(
        compact(&initialized_notification()),
        serde_json::from_str::<serde_json::Value>(r#"{"jsonrpc":"2.0","method":"notifications/initialized","params":{}}"#).unwrap()
    );
    assert_eq!(
        compact(&tools_list_request()),
        serde_json::from_str::<serde_json::Value>(r#"{"jsonrpc":"2.0","id":2,"method":"tools/list","params":{}}"#).unwrap()
    );
}

#[test]
fn tool_call_request_carries_name_and_arguments() {
    let r = tool_call_request(7, "read", doc(r#"{"path":"/tmp/x"}"#));
    assert_eq!(
        compact(&r),
        serde_json::from_str::<serde_json::Value>(
            r#"{"jsonrpc":"2.0","id":7,"method":"tools/call","params":{"name":"read","arguments":{"path":"/tmp/x"}}}"#
        )
        .unwrap()
    );
    assert_eq!(request_id(&r), Ok(7));
}

#[test]
fn request_without_numeric_id() {
    assert_eq!(request_id(&doc(r#"{"id":"x"}"#)), Err("Request has no numeric id".to_string()));
}

#[test]
fn frame_is_one_line_of_compact_json() {
    let line = frame_message(&doc(r#"{"a": [1, 2]}"#));
    assert_eq!(line, "{\"a\":[1,2]}\n");
}

#[test]
fn ids_count_up_after_the_handshake() {
    let mut ids = IdAllocator::after_handshake();
    assert_eq!(ids.allocate_id(), 3);
    assert_eq!(ids.allocate_id(), 4);
    assert_eq!(ids.next, 5);
}

#[test]
fn stdout_lines() {
    assert_eq!(line_from_stdout(""), Err("Server closed stdout".to_string()));
    assert_eq!(line_from_stdout("  {\"id\":1}\n"), Ok("{\"id\":1}".to_string()));
}

#[test]
fn parse_jsonrpc_reports_the_raw_line() {
    assert!(parse_jsonrpc("{\"id\":1}").is_ok());
    let e = parse_jsonrpc("not json").unwrap_err();
    assert!(e.starts_with("Failed to parse JSON-RPC message: "));
    assert!(e.ends_with(", raw: not json"));
}

#[test]
fn rpc_errors_are_reported() {
    let r = doc(r#"{"jsonrpc":"2.0","id":1,"error":{"code":-32601,"message":"nope"}}"#);
    assert_eq!(
        rpc_error(&r, "initialize"),
        Some("MCP initialize error: {\"code\":-32601,\"message\":\"nope\"}".to_string())
    );
    assert_eq!(rpc_error(&doc(r#"{"result":{}}"#), "initialize"), None);
}

#[test]
fn tools_list_skips_nameless_tools() {
    let r = doc(
        r#"{"result":{"tools":[{"name":"a","description":"first","inputSchema":{"type":"object"}},{"description":"no name"},{"name":"b","inputSchema":3}]}}"#,
    );
    let tools = parse_tools_list("srv", &r, "No tools array in tools/list response").unwrap();
    assert_eq!(tools.len(), 2);
    assert_eq!(tools[0].name, "a");
    assert_eq!(tools[0].server_id, "srv");
    assert_eq!(tools[0].description.as_deref(), Some("first"));
    assert_eq!(tools[0].input_schema.to_text(), "{\"type\":\"object\"}");
    assert_eq!(tools[1].name, "b");
    assert_eq!(tools[1].description.as_deref(), Some(""));
    assert_eq!(tools[1].input_schema.to_text(), "{}");
}

#[test]
fn tools_list_errors() {
    let missing = parse_tools_list("srv", &doc(r#"{"result":{}}"#), "No tools array in tools/list response");
    assert_eq!(missing.unwrap_err(), "No tools array in tools/list response");
    let failed = parse_tools_list("srv", &doc(r#"{"error":"boom"}"#), "x");
    assert_eq!(failed.unwrap_err(), "MCP tools/list error: \"boom\"");
}

#[test]
fn tool_results() {
    let err = jsonrpc_result_to_call_tool_result(&doc(r#"{"error":{"code":1}}"#)).unwrap_err();
    assert_eq!(err, "MCP tool error: {\"code\":1}");
    let none = jsonrpc_result_to_call_tool_result(&doc(r#"{"id":3}"#)).unwrap_err();
    assert_eq!(none, "No result in tool response");
    let ok = jsonrpc_result_to_call_tool_result(&doc(r#"{"result":{"content":[{"type":"text","text":"hi"}]}}"#)).unwrap();
    assert_eq!(ok.content.len(), 1);
    let bad = jsonrpc_result_to_call_tool_result(&doc(r#"{"result":{"content":5}}"#)).unwrap_err();
    assert!(bad.starts_with("Failed to parse CallToolResult: "));
}

#[test]
fn sse_events_route_responses() {
    let (id, v) = sse_response("message", r#"{"jsonrpc":"2.0","id":4,"result":{}}"#).unwrap();
    assert_eq!(id, 4);
    assert_eq!(
        compact(&v),
        serde_json::from_str::<serde_json::Value>(r#"{"jsonrpc":"2.0","id":4,"result":{}}"#).unwrap()
    );
    assert!(sse_response("", r#"{"id":5}"#).is_some());
    assert!(sse_response("endpoint", r#"{"id":5}"#).is_none());
    assert!(sse_response("message", r#"{"method":"ping"}"#).is_none());
    assert!(sse_response("message", "garbage").is_none());
}

#[test]
fn endpoints_resolve_against_the_origin() {
    assert_eq!(
        resolve_endpoint("http://localhost:3000/sse", "/messages?session=1"),
        Ok("http://localhost:3000/messages?session=1".to_string())
    );
    assert_eq!(
        resolve_endpoint("https://api.example.com", "messages"),
        Ok("https://api.example.com/messages".to_string())
    );
    assert_eq!(
        resolve_endpoint("http://a/sse", "  https://b/post  "),
        Ok("https://b/post".to_string())
    );
    assert_eq!(resolve_endpoint("http://a/sse", "   "), Err("Empty endpoint event data".to_string()));
    assert_eq!(
        resolve_endpoint("localhost", "/m"),
        Err("Cannot resolve endpoint '/m' against 'localhost'".to_string())
    );
}

#[test]
fn not_found_errors_get_a_hint() {
    assert_eq!(
        init_error("HTTP status 404"),
        "Failed to initialize StreamableHTTP connection: HTTP status 404. Hint: the server's MCP endpoint is usually at a path like /mcp \u{2014} try http://host:port/mcp"
    );
    assert_eq!(init_error("refused"), "Failed to initialize StreamableHTTP connection: refused");
}

#[test]
fn tool_results_come_from_the_result_member() {
    let ok = jsonrpc_result_to_call_tool_result(&doc(
        r#"{"jsonrpc":"2.0","id":3,"result":{"content":[{"type":"text","text":"from result"}],"isError":true}}"#,
    ))
    .unwrap();
    assert_eq!(ok.content.len(), 1);
    assert_eq!(ok.is_error, Some(true));
    let bad = jsonrpc_result_to_call_tool_result(&doc(r#"{"result":[]}"#)).unwrap_err();
    let detail = serde_json::from_value::<rmcp::model::CallToolResult>(serde_json::Value::Array(vec![]))
        .unwrap_err()
        .to_string();
    assert_eq!(bad, format!("Failed to parse CallToolResult: {detail}"));
}

#[test]
fn parse_failures_are_reported_with_their_detail() {
    let out = call_tool_outcome(Err("missing field `content`".to_string())).unwrap_err();
    assert_eq!(out, "Failed to parse CallToolResult: missing field `content`");
}

#[test]
fn the_handshake_initializes_then_lists_tools() {
    let (phase, action) = start_handshake();
    let HandshakeAction::Request(first) = action else { panic!("the handshake starts with a request") };
    assert_eq!(compact(&first), compact(&initialize_request()));
    let (phase, action) = handshake_step(phase, "s1", &doc(r#"{"jsonrpc":"2.0","id":1,"result":{}}"#), "none");
    let HandshakeAction::NotifyThenRequest(n, q) = action else { panic!("initialized, then tools/list") };
    assert_eq!(compact(&n), compact(&initialized_notification()));
    assert_eq!(compact(&q), compact(&tools_list_request()));
    let (_, action) = handshake_step(
        phase,
        "s1",
        &doc(r#"{"jsonrpc":"2.0","id":2,"result":{"tools":[{"name":"t","description":"d"}]}}"#),
        "none",
    );
    let HandshakeAction::Finished(tools) = action else { panic!("the tools end the handshake") };
    assert_eq!(tools.len(), 1);
    assert_eq!(tools[0].name, "t");
    assert_eq!(tools[0].server_id, "s1");
}

#[test]
fn a_refused_initialize_ends_the_handshake() {
    let (phase, _) = start_handshake();
    let (_, action) = handshake_step(phase, "s1", &doc(r#"{"id":1,"error":{"code":-1}}"#), "none");
    assert!(matches!(action, HandshakeAction::Failed(e) if e == "MCP initialize error: {\"code\":-1}"));
    let (_, action) = handshake_step(HandshakePhase::Listing, "s1", &doc(r#"{"id":2,"result":{}}"#), "none");
    assert!(matches!(action, HandshakeAction::Failed(e) if e == "none"));
}
