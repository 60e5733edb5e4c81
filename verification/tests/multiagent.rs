use cast_client::json::JsonValue;
use cast_client::multiagent::types::{get_system_prompt, CompletionRequest, DEFAULT_MODEL, DEFAULT_PROMPT};
use cast_client::multiagent::{
    completions_endpoint, http_error_message, reply_events_from_body, stream_event_step, AIConfig, CompletionEvent,
};
use cast_client::types::{ChatMessage, Message};

#[test]
fn builder_defaults() {
    let r = CompletionRequest::new().build();
    assert!(r.is_streaming());
    let body: serde_json::Value = serde_json::from_str(&r.to_json().to_text()).unwrap();
    assert_eq!(body["model"], DEFAULT_MODEL);
    assert_eq!(body["stream"], true);
    assert_eq!(body["reasoning_effort"], "low");
    assert_eq!(body["messages"][0]["role"], "system");
    assert_eq!(body["messages"][0]["content"], DEFAULT_PROMPT);
    assert_eq!(body["messages"].as_array().unwrap().len(), 1);
}

#[test]
fn builder_settings_reach_the_body() {
    let r = CompletionRequest::new()
        .model("gpt-4o".to_string())
        .streaming(false)
        .system_prompt(Some("Be terse.".to_string()))
        .messages(vec![
            Message::new(ChatMessage::user("hi".to_string())),
            Message::new(ChatMessage::assistant("hello".to_string())),
        ])
        .build();
    assert!(!r.is_streaming());
    let body: serde_json::Value = serde_json::from_str(&r.to_json().to_text()).unwrap();
    assert_eq!(body["model"], "gpt-4o");
    assert_eq!(body["stream"], false);
    assert_eq!(body["messages"][0]["content"], "Be terse.");
    assert_eq!(body["messages"][1]["role"], "user");
    assert_eq!(body["messages"][1]["content"], "hi");
    assert_eq!(body["messages"][2]["role"], "assistant");
    assert_eq!(body["messages"][2]["content"], "hello");
}

#[test]
fn blank_system_prompts_fall_back_to_the_default() {
    assert_eq!(get_system_prompt(&None), DEFAULT_PROMPT);
    assert_eq!(get_system_prompt(&Some("  \n".to_string())), DEFAULT_PROMPT);
    assert_eq!(get_system_prompt(&Some(" x ".to_string())), " x ");
}

#[test]
fn endpoint_drops_trailing_slashes() {
    assert_eq!(completions_endpoint("https://api.openai.com/v1/"), "https://api.openai.com/v1/chat/completions");
    assert_eq!(completions_endpoint("https://h/v1//"), "https://h/v1/chat/completions");
    assert_eq!(completions_endpoint("https://h/v1"), "https://h/v1/chat/completions");
}

#[test]
fn failing_status_message() {
    assert_eq!(http_error_message(404, "missing"), "HTTP 404 Not Found: missing");
    assert_eq!(http_error_message(599, ""), "HTTP 599 <unknown status code>: ");
}

#[test]
fn whole_replies() {
    let doc = JsonValue::parse(r#"{"choices":[{"message":{"content":"Hi!"}}]}"#).unwrap();
    let ev = reply_events_from_body(Ok(doc));
    assert!(matches!(&ev[..], [CompletionEvent::Chunk(t), CompletionEvent::Finished] if t == "Hi!"));
    let doc = JsonValue::parse(r#"{"choices":[]}"#).unwrap();
    let ev = reply_events_from_body(Ok(doc));
    assert!(matches!(&ev[..], [CompletionEvent::Finished]));
    let ev = reply_events_from_body(Err("error decoding response body".to_string()));
    assert!(matches!(&ev[..], [CompletionEvent::Error(e)] if e == "error decoding response body"));
}

#[test]
fn streamed_events() {
    let s = stream_event_step(r#"{"choices":[{"delta":{"content":"par"},"finish_reason":null}]}"#);
    assert_eq!(s.chunk.as_deref(), Some("par"));
    assert!(!s.stop);
    let s = stream_event_step(r#"{"choices":[{"delta":{},"finish_reason":"stop"}]}"#);
    assert!(s.chunk.is_none());
    assert!(s.stop);
    let s = stream_event_step(r#"{"choices":[{"delta":{},"finish_reason":""}]}"#);
    assert!(!s.stop);
    let s = stream_event_step("[DONE]");
    assert!(s.stop && s.chunk.is_none());
    let s = stream_event_step(": keep-alive");
    assert!(!s.stop && s.chunk.is_none());
}

#[test]
fn config_clones() {
    let c = AIConfig { base_url: "https://h".to_string(), api_key: "k".to_string() };
    let d = c.clone();
    assert_eq!(d.base_url, "https://h");
    assert_eq!(d.api_key, "k");
}
