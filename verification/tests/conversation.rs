use cast_client::chat::completion::{
    apply_event, create_request, delete_conversation, send_message, PollOutcome, DEFAULT_SYSTEM_PROMPT,
    MAX_CONVERSATIONS, MAX_MESSAGES,
};
use cast_client::chat::ExecMode;
use cast_client::types::{
    ChatMessage, ChatRole, CompletionEvent, ContentPart, Conversation, GenerationPhase, GenerationState, Message,
    Selected, ToolCall,
};
use cast_client::json::JsonValue;

fn text_of(m: &ChatMessage) -> String {
    m.text()
}

fn convo(title: &str, n: usize) -> Conversation {
    let mut messages = Vec::new();
    for i in 0..n {
        messages.push(Message::new(ChatMessage::user(format!("m{i}"))));
    }
    Conversation { title: title.to_string(), messages }
}

fn active(idx: usize) -> GenerationState {
    GenerationState::Active { convo_idx: idx, phase: GenerationPhase::Thinking }
}

#[test]
fn blank_text_sends_nothing() {
    let mut convos = vec![convo("a", 1)];
    let mut sel = Selected::Index(0);
    assert!(send_message(None, &mut convos, &mut sel).is_none());
    assert!(send_message(Some("  \n\t".to_string()), &mut convos, &mut sel).is_none());
    assert_eq!(convos[0].messages.len(), 1);
    assert_eq!(sel, Selected::Index(0));
}

#[test]
fn first_message_starts_and_names_a_conversation() {
    let mut convos = Vec::new();
    let mut sel = Selected::New;
    let (idx, request) = send_message(Some("Hello there".to_string()), &mut convos, &mut sel).unwrap();
    assert_eq!(idx, 0);
    assert_eq!(sel, Selected::Index(0));
    assert_eq!(convos.len(), 1);
    assert_eq!(convos[0].title, "Hello there");
    assert_eq!(request.len(), 1);
    assert_eq!(request[0].role, ChatRole::User);
    assert_eq!(text_of(&request[0]), "Hello there");
}

#[test]
fn titles_take_the_first_fifty_characters() {
    let mut convos = Vec::new();
    let mut sel = Selected::New;
    let long: String = "é".repeat(60);
    send_message(Some(long), &mut convos, &mut sel).unwrap();
    assert_eq!(convos[0].title.chars().count(), 50);
    assert_eq!(convos[0].title, "é".repeat(50));
}

#[test]
fn named_conversations_keep_their_title() {
    let mut convos = vec![convo("Trip plans", 0)];
    let mut sel = Selected::Index(0);
    send_message(Some("next".to_string()), &mut convos, &mut sel).unwrap();
    assert_eq!(convos[0].title, "Trip plans");
}

#[test]
fn at_most_fifty_conversations_are_kept() {
    let mut convos: Vec<Conversation> = (0..MAX_CONVERSATIONS).map(|i| convo(&format!("c{i}"), 0)).collect();
    let mut sel = Selected::New;
    let (idx, _) = send_message(Some("new".to_string()), &mut convos, &mut sel).unwrap();
    assert_eq!(convos.len(), MAX_CONVERSATIONS);
    assert_eq!(idx, MAX_CONVERSATIONS - 1);
    assert_eq!(convos[0].title, "c1");
    assert_eq!(convos[idx].title, "new");
}

#[test]
fn at_most_a_hundred_messages_are_kept() {
    let mut convos = vec![convo("busy", MAX_MESSAGES)];
    let mut sel = Selected::Index(0);
    let (_, request) = send_message(Some("latest".to_string()), &mut convos, &mut sel).unwrap();
    assert_eq!(convos[0].messages.len(), MAX_MESSAGES);
    assert_eq!(text_of(&convos[0].messages[0].message), "m1");
    assert_eq!(text_of(&convos[0].messages[MAX_MESSAGES - 1].message), "latest");
    assert_eq!(request.len(), MAX_MESSAGES);
}

#[test]
fn an_empty_assistant_message_is_not_sent() {
    let mut c = convo("x", 0);
    c.messages.push(Message::new(ChatMessage { role: ChatRole::Assistant, content: vec![] }));
    let mut convos = vec![c];
    let mut sel = Selected::Index(0);
    let (_, request) = send_message(Some("hi".to_string()), &mut convos, &mut sel).unwrap();
    assert_eq!(request.len(), 2);
}

#[test]
fn idle_generation_ignores_events() {
    let mut convos = vec![convo("a", 1)];
    let mut g = GenerationState::Idle;
    assert_eq!(apply_event(&mut convos, &mut g, CompletionEvent::Chunk("x".to_string())), PollOutcome::Ignored);
    assert_eq!(convos[0].messages.len(), 1);
}

#[test]
fn chunks_build_the_reply() {
    let mut convos = vec![convo("a", 1)];
    let mut g = active(0);
    assert_eq!(apply_event(&mut convos, &mut g, CompletionEvent::Chunk("Hel".to_string())), PollOutcome::Continues);
    assert_eq!(apply_event(&mut convos, &mut g, CompletionEvent::Chunk("lo".to_string())), PollOutcome::Continues);
    assert_eq!(convos[0].messages.len(), 2);
    let reply = &convos[0].messages[1];
    assert_eq!(reply.message.role, ChatRole::Assistant);
    assert_eq!(text_of(&reply.message), "Hello");
    assert_eq!(apply_event(&mut convos, &mut g, CompletionEvent::Finished), PollOutcome::Ended);
    assert!(matches!(g, GenerationState::Idle));
}

#[test]
fn tool_events_mark_the_reply() {
    let mut convos = vec![convo("a", 1)];
    let mut g = active(0);
    apply_event(&mut convos, &mut g, CompletionEvent::ToolCallStarted { tool_name: "read_file".to_string() });
    assert!(matches!(&g, GenerationState::Active { convo_idx: 0, phase: GenerationPhase::ExecutingTool { tool_name } } if tool_name == "read_file"));
    assert_eq!(convos[0].messages.len(), 2);
    assert_eq!(convos[0].messages[1].message.role, ChatRole::Assistant);
    let call = ToolCall { call_id: "c1".to_string(), fn_name: "read_file".to_string(), fn_arguments: JsonValue::Null };
    apply_event(&mut convos, &mut g, CompletionEvent::ToolTurnCompleted { tool_calls: vec![call.clone(), call] });
    assert_eq!(convos[0].messages[1].tools_called, 2);
    assert!(matches!(g, GenerationState::Active { convo_idx: 0, phase: GenerationPhase::Thinking }));
}

#[test]
fn errors_end_the_generation_with_a_message() {
    let mut convos = vec![convo("a", 1)];
    let mut g = active(0);
    assert_eq!(apply_event(&mut convos, &mut g, CompletionEvent::Error("timeout".to_string())), PollOutcome::Ended);
    let last = convos[0].messages.last().unwrap();
    assert_eq!(text_of(&last.message), "Error timeout");
    assert!(last.is_error);
    assert!(matches!(g, GenerationState::Idle));
}

#[test]
fn cancelled_ends_the_generation() {
    let mut convos = vec![convo("a", 1)];
    let mut g = active(0);
    assert_eq!(apply_event(&mut convos, &mut g, CompletionEvent::Cancelled), PollOutcome::Ended);
    assert_eq!(convos[0].messages.len(), 1);
}

#[test]
fn deleting_moves_the_selection() {
    let mut convos = vec![convo("a", 0), convo("b", 0), convo("c", 0)];
    let mut sel = Selected::Index(2);
    let mut g = active(1);
    assert!(delete_conversation(&mut convos, &mut sel, &mut g, 1));
    assert_eq!(sel, Selected::Index(1));
    assert!(matches!(g, GenerationState::Idle));
    assert_eq!(convos.len(), 2);
    assert_eq!(convos[1].title, "c");
    let mut sel2 = Selected::Index(0);
    let mut g2 = GenerationState::Idle;
    assert!(!delete_conversation(&mut convos, &mut sel2, &mut g2, 0));
    assert_eq!(sel2, Selected::New);
}

#[test]
fn requests_offer_tools_only_to_the_agent() {
    let plan = create_request(ExecMode::Chat, vec![ChatMessage::user("q".to_string())], None);
    assert!(!plan.with_tools);
    assert_eq!(plan.system, DEFAULT_SYSTEM_PROMPT);
    let plan = create_request(ExecMode::Agent, vec![], Some("Be brief".to_string()));
    assert!(plan.with_tools);
    assert_eq!(plan.system, "Be brief");
}

#[test]
fn message_text_joins_text_parts() {
    let m = ChatMessage {
        role: ChatRole::Assistant,
        content: vec![
            ContentPart::Text("a".to_string()),
            ContentPart::ToolCall(ToolCall { call_id: "1".to_string(), fn_name: "f".to_string(), fn_arguments: JsonValue::Null }),
            ContentPart::Text("b".to_string()),
        ],
    };
    assert_eq!(m.text(), "ab");
}

#[test]
fn blank_text_needs_no_existing_selection() {
    let mut convos = vec![convo("a", 1)];
    let mut sel = Selected::Index(7);
    assert!(send_message(Some("   ".to_string()), &mut convos, &mut sel).is_none());
    assert!(send_message(None, &mut convos, &mut sel).is_none());
    assert_eq!(convos.len(), 1);
    assert_eq!(sel, Selected::Index(7));
}

#[test]
fn a_generation_whose_chat_is_gone_still_ends() {
    let mut convos = vec![convo("a", 1)];
    let mut g = active(5);
    assert_eq!(apply_event(&mut convos, &mut g, CompletionEvent::Finished), PollOutcome::Ended);
    assert!(matches!(g, GenerationState::Idle));
    let mut g = active(5);
    assert_eq!(apply_event(&mut convos, &mut g, CompletionEvent::Cancelled), PollOutcome::Ended);
    assert!(matches!(g, GenerationState::Idle));
    assert_eq!(convos[0].messages.len(), 1);
}
