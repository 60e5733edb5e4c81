use cast_client::chat::agent::{tool_calls, AgentAction, AgentInput, AgentLoop, AgentPhase, MAX_TOOL_CALLS, MAX_TOOL_TURNS};
use cast_client::json::JsonValue;
use cast_client::types::{ChatMessage, ChatRole, CompletionEvent, ContentPart, ToolCall};

fn call(id: &str, name: &str) -> ToolCall {
    ToolCall { call_id: id.to_string(), fn_name: name.to_string(), fn_arguments: JsonValue::Null }
}

fn asking(calls: Vec<ToolCall>) -> ChatMessage {
    ChatMessage { role: ChatRole::Assistant, content: calls.into_iter().map(ContentPart::ToolCall).collect() }
}

#[test]
fn a_plain_reply_streams_then_finishes() {
    let (mut l, first) = AgentLoop::new(vec![ChatMessage::user("hi".to_string())]);
    assert!(matches!(first, AgentAction::CallModel));
    let s = l.step(AgentInput::Chunk("Hel".to_string()));
    assert!(matches!(s.action, AgentAction::ReadStream));
    assert!(matches!(&s.events[..], [CompletionEvent::Chunk(t)] if t == "Hel"));
    let s = l.step(AgentInput::Chunk(String::new()));
    assert!(s.events.is_empty());
    let s = l.step(AgentInput::StreamEnded(None));
    assert!(matches!(&s.events[..], [CompletionEvent::Finished]));
    assert!(matches!(s.action, AgentAction::Stop));
    assert_eq!(l.phase, AgentPhase::Done);
    let s = l.step(AgentInput::Chunk("late".to_string()));
    assert!(s.events.is_empty() && matches!(s.action, AgentAction::Stop));
}

#[test]
fn cancellation_and_failures_stop_the_loop() {
    let (mut l, _) = AgentLoop::new(vec![]);
    let s = l.step(AgentInput::Cancelled);
    assert!(matches!(&s.events[..], [CompletionEvent::Cancelled]));
    let (mut l, _) = AgentLoop::new(vec![]);
    let s = l.step(AgentInput::Failed("no network".to_string()));
    assert!(matches!(&s.events[..], [CompletionEvent::Error(e)] if e == "no network"));
    let (mut l, _) = AgentLoop::new(vec![]);
    let s = l.step(AgentInput::StreamClosed);
    assert!(matches!(&s.events[..], [CompletionEvent::Error(e)] if e == "Stream ended without a terminal event."));
}

#[test]
fn a_tool_turn_runs_each_call_then_calls_the_model_again() {
    let (mut l, _) = AgentLoop::new(vec![ChatMessage::user("list".to_string())]);
    let s = l.step(AgentInput::StreamEnded(Some(asking(vec![call("c1", "read_file"), call("c2", "web_fetch")]))));
    assert!(s.events.is_empty());
    assert!(matches!(s.action, AgentAction::PrepareTool));
    let s = l.step(AgentInput::ToolReady);
    assert!(matches!(&s.events[..], [CompletionEvent::ToolCallStarted { tool_name }] if tool_name == "read_file"));
    assert!(matches!(&s.action, AgentAction::RunTool(c) if c.call_id == "c1"));
    let s = l.step(AgentInput::ToolDone(Ok("contents".to_string())));
    assert!(matches!(s.action, AgentAction::PrepareTool));
    let s = l.step(AgentInput::ToolReady);
    assert!(matches!(&s.action, AgentAction::RunTool(c) if c.fn_name == "web_fetch"));
    let s = l.step(AgentInput::ToolDone(Err("timeout".to_string())));
    assert!(matches!(s.action, AgentAction::CallModel));
    assert!(matches!(&s.events[..], [CompletionEvent::ToolTurnCompleted { tool_calls }]
        if tool_calls.len() == 2 && tool_calls[0].call_id == "c1" && tool_calls[1].fn_name == "web_fetch"));
    assert_eq!(l.turn, 1);
    assert_eq!(l.request_messages.len(), 3);
    let answers = &l.request_messages[2];
    assert_eq!(answers.role, ChatRole::Tool);
    assert!(matches!(&answers.content[0], ContentPart::ToolResponse(r) if r.call_id == "c1" && r.content == "contents"));
    assert!(matches!(&answers.content[1], ContentPart::ToolResponse(r) if r.content == "Tool execution error: timeout"));
}

#[test]
fn too_many_calls_in_one_turn() {
    let (mut l, _) = AgentLoop::new(vec![]);
    let calls: Vec<ToolCall> = (0..MAX_TOOL_CALLS + 1).map(|i| call(&i.to_string(), "read_file")).collect();
    let s = l.step(AgentInput::StreamEnded(Some(asking(calls))));
    assert!(matches!(&s.events[..], [CompletionEvent::Error(e)] if e == "Agent requested 9 tools in one turn."));
    assert!(matches!(s.action, AgentAction::Stop));
}

#[test]
fn the_loop_stops_after_the_last_turn() {
    let (mut l, _) = AgentLoop::new(vec![]);
    let mut last = None;
    for _ in 0..MAX_TOOL_TURNS {
        l.step(AgentInput::StreamEnded(Some(asking(vec![call("c", "read_file")]))));
        l.step(AgentInput::ToolReady);
        last = Some(l.step(AgentInput::ToolDone(Ok("x".to_string()))));
    }
    let s = last.unwrap();
    assert!(matches!(s.action, AgentAction::Stop));
    assert!(matches!(
        &s.events[..],
        [CompletionEvent::ToolTurnCompleted { .. }, CompletionEvent::Error(e)]
            if e == "Agent stopped after reaching the maximum number of tool turns."
    ));
    assert_eq!(l.turn, MAX_TOOL_TURNS);
}

#[test]
fn tool_calls_are_read_in_order() {
    let m = ChatMessage {
        role: ChatRole::Assistant,
        content: vec![ContentPart::Text("x".to_string()), ContentPart::ToolCall(call("a", "f")), ContentPart::ToolCall(call("b", "g"))],
    };
    let calls = tool_calls(&m);
    assert_eq!(calls.len(), 2);
    assert_eq!(calls[0].call_id, "a");
    assert_eq!(calls[1].fn_name, "g");
}

fn is_terminal(e: &CompletionEvent) -> bool {
    matches!(e, CompletionEvent::Finished | CompletionEvent::Cancelled | CompletionEvent::Error(_))
}

#[test]
fn a_whole_run_reports_one_terminal_event_last() {
    let (mut l, _) = AgentLoop::new(vec![ChatMessage::user("go".to_string())]);
    let inputs = vec![
        AgentInput::Chunk("a".to_string()),
        AgentInput::Chunk(String::new()),
        AgentInput::StreamEnded(Some(asking(vec![call("c1", "read_file")]))),
        AgentInput::ToolReady,
        AgentInput::ToolDone(Ok("x".to_string())),
        AgentInput::Chunk("b".to_string()),
        AgentInput::StreamEnded(None),
        AgentInput::Chunk("late".to_string()),
        AgentInput::Cancelled,
    ];
    let mut all = Vec::new();
    for input in inputs {
        all.extend(l.step(input).events);
    }
    assert!(!all.iter().any(|e| matches!(e, CompletionEvent::Chunk(t) if t.is_empty())));
    assert_eq!(all.iter().filter(|e| is_terminal(e)).count(), 1);
    assert!(matches!(all.last(), Some(CompletionEvent::Finished)));
}

#[test]
fn a_tool_turn_is_reported_after_the_starts_of_its_calls() {
    let (mut l, mut action) = AgentLoop::new(vec![ChatMessage::user("go".to_string())]);
    let mut all = Vec::new();
    let mut model_calls = 0;
    loop {
        let input = match &action {
            AgentAction::CallModel | AgentAction::ReadStream => {
                model_calls += 1;
                if model_calls == 1 {
                    AgentInput::StreamEnded(Some(asking(vec![call("c1", "read_file"), call("c2", "list_directory")])))
                } else {
                    AgentInput::StreamEnded(None)
                }
            }
            AgentAction::PrepareTool => AgentInput::ToolReady,
            AgentAction::RunTool(c) => AgentInput::ToolDone(Ok(format!("ran {}", c.fn_name))),
            AgentAction::Stop => break,
        };
        let s = l.step(input);
        all.extend(s.events);
        action = s.action;
    }
    assert_eq!(all.len(), 4);
    assert!(matches!(&all[0], CompletionEvent::ToolCallStarted { tool_name } if tool_name == "read_file"));
    assert!(matches!(&all[1], CompletionEvent::ToolCallStarted { tool_name } if tool_name == "list_directory"));
    assert!(matches!(&all[2], CompletionEvent::ToolTurnCompleted { tool_calls }
        if tool_calls.iter().map(|c| c.fn_name.as_str()).collect::<Vec<_>>() == vec!["read_file", "list_directory"]));
    assert!(matches!(&all[3], CompletionEvent::Finished));
}
