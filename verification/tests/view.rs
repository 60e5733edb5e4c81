use cast_client::chat::mcp::{Headers, McpServerConfig, McpTransport};
use cast_client::chat::ExecMode;
use cast_client::json::JsonValue;
use cast_client::net::{check_headers, status_error, status_is_success};
use cast_client::types::{ChatMessage, ChatRole, ContentPart, Message, ToolCall, ToolResponse};
use cast_client::view::{
    bubble_content, client_outdated, executing_tool_label, form_headers, input_hint, is_user_bubble, mode_note, new_line,
    server_detail, split_args, status_label, take_submission, tools_called_note, transport_line, AddMcpForm,
    BubbleContent,
};

#[test]
fn bubbles() {
    let user = Message::new(ChatMessage::user("hi".to_string()));
    assert!(matches!(bubble_content(&user), BubbleContent::Plain(t) if t == "hi"));
    assert!(is_user_bubble(&user));
    let thinking = Message::new(ChatMessage { role: ChatRole::Assistant, content: vec![] });
    assert!(matches!(bubble_content(&thinking), BubbleContent::Thinking));
    assert!(!is_user_bubble(&thinking));
    let mut reply = Message::new(ChatMessage::assistant("**done**".to_string()));
    assert!(matches!(bubble_content(&reply), BubbleContent::Markdown { text, tools_note: None } if text == "**done**"));
    reply.tools_called = 1;
    assert!(matches!(bubble_content(&reply), BubbleContent::Markdown { tools_note: Some(n), .. } if n == "\u{1F527} 1 tool called"));
    let tool = Message::new(ChatMessage {
        role: ChatRole::Tool,
        content: vec![ContentPart::ToolResponse(ToolResponse { call_id: "1".to_string(), content: "x".to_string() })],
    });
    assert!(matches!(bubble_content(&tool), BubbleContent::Hidden));
    let asking = Message::new(ChatMessage {
        role: ChatRole::Assistant,
        content: vec![ContentPart::ToolCall(ToolCall { call_id: "1".to_string(), fn_name: "f".to_string(), fn_arguments: JsonValue::Null })],
    });
    assert!(matches!(bubble_content(&asking), BubbleContent::Hidden));
}

#[test]
fn tool_notes() {
    assert_eq!(tools_called_note(3), "\u{1F527} 3 tools called");
    assert_eq!(tools_called_note(12), "\u{1F527} 12 tools called");
    assert_eq!(executing_tool_label("read_file"), "Executing tool `read_file`...");
}

#[test]
fn the_input_line() {
    let mut input = "draft".to_string();
    new_line(&mut input, false);
    assert_eq!(input, "draft\n");
    new_line(&mut input, true);
    assert_eq!(input, "draft\n");
    assert_eq!(take_submission(&mut input, true, true), None);
    assert_eq!(take_submission(&mut input, false, false), None);
    assert_eq!(take_submission(&mut input, false, true), Some("draft\n".to_string()));
    assert_eq!(input, "");
    let mut blank = "  ".to_string();
    assert_eq!(take_submission(&mut blank, false, true), None);
    assert_eq!(blank, "  ");
    assert_eq!(input_hint(true), "Waiting for response...");
    assert_eq!(input_hint(false), "Message...");
    assert_eq!(mode_note(ExecMode::Chat), "Tools disabled");
    assert_eq!(mode_note(ExecMode::Agent), "Tools active");
}

#[test]
fn server_entries() {
    let c = McpServerConfig::new_stdio("fs".to_string(), "npx".to_string(), vec!["-y".to_string(), "fs".to_string()]);
    assert_eq!(server_detail(&c).as_deref(), Some("Command: npx -y fs"));
    let s = McpServerConfig::new_sse("r".to_string(), "http://h/sse".to_string());
    assert_eq!(server_detail(&s).as_deref(), Some("URL: http://h/sse"));
    assert_eq!(transport_line(McpTransport::StreamableHttp), "Transport: StreamableHTTP");
    assert_eq!(transport_line(McpTransport::Sse), "Transport: SSE");
    assert_eq!(status_label(true), "\u{1F7E2} Enabled");
    assert_eq!(status_label(false), "\u{1F534} Disabled");
}

#[test]
fn arguments_split_at_whitespace() {
    assert_eq!(split_args("  -y  @scope/pkg\t/tmp \n"), vec!["-y", "@scope/pkg", "/tmp"]);
    assert!(split_args("   ").is_empty());
    assert_eq!(split_args("a\u{3000}b"), vec!["a", "b"]);
}

#[test]
fn typed_headers() {
    assert_eq!(
        form_headers(r#"{"Authorization": "Bearer t"}"#),
        vec![("Authorization".to_string(), "Bearer t".to_string())]
    );
    assert!(form_headers("   ").is_empty());
    assert!(form_headers("{bad").is_empty());
    assert!(form_headers(r#"{"n": 1}"#).is_empty());
}

#[test]
fn the_add_server_form() {
    let mut f = AddMcpForm::default();
    assert!(!f.can_save());
    f.name = "fs".to_string();
    assert!(!f.can_save());
    f.command = "python".to_string();
    f.args = "server.py --port 1".to_string();
    assert!(f.can_save());
    let c = f.to_server().unwrap();
    assert_eq!(c.name, "fs");
    assert_eq!(c.command.as_deref(), Some("python"));
    assert_eq!(c.args, vec!["server.py", "--port", "1"]);
    assert!(c.url.is_none());
    assert_eq!(c.id.len(), 36);
    f.transport = McpTransport::Sse;
    assert!(!f.can_save());
    assert_eq!(f.to_server().unwrap_err(), "SSE/StreamableHTTP transport requires a URL");
    f.url = "http://h/sse".to_string();
    f.headers = r#"{"X": "y"}"#.to_string();
    let c = f.to_server().unwrap();
    assert!(c.command.is_none());
    assert!(c.args.is_empty());
    assert_eq!(c.headers.pairs(), &vec![("X".to_string(), "y".to_string())]);
}

#[test]
fn header_checks() {
    assert_eq!(check_headers(&Headers::from_pairs(vec![("Authorization".to_string(), "Bearer t".to_string())])), Ok(()));
    assert_eq!(
        check_headers(&Headers::from_pairs(vec![("Bad Name".to_string(), "v".to_string())])),
        Err("Invalid header name 'Bad Name': invalid HTTP header name".to_string())
    );
    assert_eq!(
        check_headers(&Headers::from_pairs(vec![("X-Key".to_string(), "a\nb".to_string())])),
        Err("Invalid header value for 'x-key': failed to parse header value".to_string())
    );
    assert_eq!(
        check_headers(&Headers::from_pairs(vec![("Content-Type".to_string(), "a\u{7f}".to_string())])),
        Err("Invalid header value for 'content-type': failed to parse header value".to_string())
    );
}

#[test]
fn statuses() {
    assert!(status_is_success(204));
    assert!(!status_is_success(302));
    assert_eq!(status_error("SSE endpoint returned", 500), "SSE endpoint returned 500 Internal Server Error");
}

#[test]
fn the_client_is_rebuilt_when_adapter_or_key_change() {
    assert!(!client_outdated("OpenRouter", "OpenRouter", "k", "k"));
    assert!(client_outdated("OpenRouter", "Gemini", "k", "k"));
    assert!(client_outdated("OpenRouter", "OpenRouter", "k", "k2"));
}
