//! Conversations, messages and the state of a generation.
use vstd::prelude::*;

use crate::json::{Json, JsonValue, json_clone};

verus! {

/// Who wrote a message.
#[derive(Debug, Clone, Copy, PartialEq, Eq, Structural)]
pub enum ChatRole {
    System,
    User,
    Assistant,
    Tool,
}

/// A call of a tool requested by the model.
#[derive(Debug)]
pub struct ToolCall {
    pub call_id: String,
    pub fn_name: String,
    pub fn_arguments: JsonValue,
}

/// The answer to a tool call.
#[derive(Debug)]
pub struct ToolResponse {
    pub call_id: String,
    pub content: String,
}

/// One part of a message's content.
#[derive(Debug)]
pub enum ContentPart {
    Text(String),
    ToolCall(ToolCall),
    ToolResponse(ToolResponse),
}

/// A message as the model sees it.
#[derive(Debug)]
pub struct ChatMessage {
    pub role: ChatRole,
    pub content: Vec<ContentPart>,
}

/// A message of a conversation as the client keeps it.
#[derive(Debug)]
pub struct Message {
    pub message: ChatMessage,
    /// How many tools the assistant called for this message.
    pub tools_called: usize,
    /// Whether this message reports an error to the user.
    pub is_error: bool,
}

/// A titled list of messages.
#[derive(Debug)]
pub struct Conversation {
    pub title: String,
    pub messages: Vec<Message>,
}

/// Which conversation is shown.
#[derive(Debug, Clone, Copy, PartialEq, Eq, Structural)]
pub enum Selected {
    /// None yet: the next message starts a new conversation.
    New,
    Index(usize),
}

/// What a running generation is doing.
#[derive(Debug)]
pub enum GenerationPhase {
    Thinking,
    ExecutingTool { tool_name: String },
}

/// Whether a generation runs, and for which conversation.
#[derive(Debug)]
pub enum GenerationState {
    Idle,
    Active { convo_idx: usize, phase: GenerationPhase },
}

/// What the completion task reports to the interface.
#[derive(Debug)]
pub enum CompletionEvent {
    Chunk(String),
    Finished,
    ToolCallStarted { tool_name: String },
    ToolTurnCompleted { tool_calls: Vec<ToolCall> },
    Error(String),
    Cancelled,
}

/// The content of a `ToolCall`.
pub struct ToolCallModel {
    pub call_id: Seq<char>,
    pub fn_name: Seq<char>,
    pub fn_arguments: Json,
}

/// The content of a `ContentPart`.
pub enum PartModel {
    Text(Seq<char>),
    ToolCall(ToolCallModel),
    ToolResponse(Seq<char>, Seq<char>),
}

/// The content of a `ChatMessage`.
pub struct ChatMessageModel {
    pub role: ChatRole,
    pub content: Seq<PartModel>,
}

/// The content of a `Message`.
pub struct MessageModel {
    pub message: ChatMessageModel,
    pub tools_called: usize,
    pub is_error: bool,
}

/// The content of a `Conversation`.
pub struct ConversationModel {
    pub title: Seq<char>,
    pub messages: Seq<MessageModel>,
}

/// The content of a `GenerationState`.
pub enum GenerationModel {
    Idle,
    Thinking(usize),
    ExecutingTool(usize, Seq<char>),
}

impl View for ToolCall {
    type V = ToolCallModel;

    open spec fn view(&self) -> ToolCallModel {
        ToolCallModel {
            call_id: self.call_id@,
            fn_name: self.fn_name@,
            fn_arguments: self.fn_arguments@,
        }
    }
}

impl View for ContentPart {
    type V = PartModel;

    open spec fn view(&self) -> PartModel {
        match self {
            ContentPart::Text(t) => PartModel::Text(t@),
            ContentPart::ToolCall(c) => PartModel::ToolCall(c@),
            ContentPart::ToolResponse(r) => PartModel::ToolResponse(r.call_id@, r.content@),
        }
    }
}

/// The contents of a sequence of parts.
pub open spec fn parts_view(s: Seq<ContentPart>) -> Seq<PartModel> {
    s.map_values(|p: ContentPart| p@)
}

impl View for ChatMessage {
    type V = ChatMessageModel;

    open spec fn view(&self) -> ChatMessageModel {
        ChatMessageModel { role: self.role, content: parts_view(self.content@) }
    }
}

impl View for Message {
    type V = MessageModel;

    open spec fn view(&self) -> MessageModel {
        MessageModel {
            message: self.message@,
            tools_called: self.tools_called,
            is_error: self.is_error,
        }
    }
}

/// The contents of a sequence of messages.
pub open spec fn messages_view(s: Seq<Message>) -> Seq<MessageModel> {
    s.map_values(|m: Message| m@)
}

impl View for Conversation {
    type V = ConversationModel;

    open spec fn view(&self) -> ConversationModel {
        ConversationModel { title: self.title@, messages: messages_view(self.messages@) }
    }
}

/// The contents of a sequence of conversations.
pub open spec fn convos_view(s: Seq<Conversation>) -> Seq<ConversationModel> {
    s.map_values(|c: Conversation| c@)
}

impl View for GenerationState {
    type V = GenerationModel;

    open spec fn view(&self) -> GenerationModel {
        match self {
            GenerationState::Idle => GenerationModel::Idle,
            GenerationState::Active { convo_idx, phase: GenerationPhase::Thinking } => GenerationModel::Thinking(
                *convo_idx,
            ),
            GenerationState::Active { convo_idx, phase: GenerationPhase::ExecutingTool { tool_name } } =>
                GenerationModel::ExecutingTool(*convo_idx, tool_name@),
        }
    }
}

impl Default for GenerationState {
    fn default() -> (r: Self)
        ensures
            r@ == GenerationModel::Idle,
    {
        GenerationState::Idle
    }
}

impl Clone for ToolCall {
    fn clone(&self) -> (r: Self)
        ensures
            r@ == self@,
    {
        ToolCall {
            call_id: self.call_id.clone(),
            fn_name: self.fn_name.clone(),
            fn_arguments: json_clone(&self.fn_arguments),
        }
    }
}

impl Clone for ToolResponse {
    fn clone(&self) -> (r: Self)
        ensures
            r.call_id@ == self.call_id@,
            r.content@ == self.content@,
    {
        ToolResponse { call_id: self.call_id.clone(), content: self.content.clone() }
    }
}

impl Clone for ContentPart {
    fn clone(&self) -> (r: Self)
        ensures
            r@ == self@,
    {
        match self {
            ContentPart::Text(t) => ContentPart::Text(t.clone()),
            ContentPart::ToolCall(c) => ContentPart::ToolCall(c.clone()),
            ContentPart::ToolResponse(x) => ContentPart::ToolResponse(x.clone()),
        }
    }
}

impl Clone for ChatMessage {
    fn clone(&self) -> (r: Self)
        ensures
            r@ == self@,
    {
        let mut content: Vec<ContentPart> = Vec::new();
        let mut i: usize = 0;
        while i < self.content.len()
            invariant
                i <= self.content.len(),
                parts_view(content@) == parts_view(self.content@.subrange(0, i as int)),
            decreases self.content.len() - i,
        {
            let ghost before = content@;
            content.push(self.content[i].clone());
            assert(parts_view(content@) =~= parts_view(before).push(self.content@[i as int]@));
            assert(parts_view(self.content@.subrange(0, i + 1)) =~= parts_view(
                self.content@.subrange(0, i as int),
            ).push(self.content@[i as int]@));
            i = i + 1;
        }
        assert(self.content@.subrange(0, self.content@.len() as int) =~= self.content@);
        ChatMessage { role: self.role, content }
    }
}

/// The text parts of a message, put together.
pub open spec fn parts_text(parts: Seq<PartModel>) -> Seq<char>
    decreases parts.len(),
{
    if parts.len() == 0 {
        Seq::empty()
    } else {
        parts_text(parts.drop_last()) + match parts.last() {
            PartModel::Text(t) => t,
            _ => Seq::empty(),
        }
    }
}

/// A message of `role` holding the single text `text`.
pub open spec fn text_message(role: ChatRole, text: Seq<char>) -> ChatMessageModel {
    ChatMessageModel { role, content: seq![PartModel::Text(text)] }
}

impl ChatMessage {
    /// The text parts of the message, put together.
    pub fn text(&self) -> (t: String)
        ensures
            t@ == parts_text(self@.content),
    {
        let parts = &self.content;
        let mut out = String::new();
        let mut i: usize = 0;
        while i < parts.len()
            invariant
                i <= parts.len(),
                self@.content == parts_view(parts@),
                out@ == parts_text(parts_view(parts@.subrange(0, i as int))),
            decreases parts.len() - i,
        {
            let ghost sub = parts_view(parts@.subrange(0, i + 1));
            assert(sub.drop_last() =~= parts_view(parts@.subrange(0, i as int)));
            assert(sub.last() == parts@[i as int]@);
            match &parts[i] {
                ContentPart::Text(t) => {
                    out.append(t.as_str());
                },
                _ => {},
            }
            i = i + 1;
        }
        assert(parts@.subrange(0, parts@.len() as int) =~= parts@);
        out
    }

    /// A user message with the text `text`.
    pub fn user(text: String) -> (r: Self)
        ensures
            r@ == text_message(ChatRole::User, text@),
    {
        let mut content: Vec<ContentPart> = Vec::new();
        content.push(ContentPart::Text(text));
        assert(parts_view(content@) =~= seq![PartModel::Text(text@)]);
        ChatMessage { role: ChatRole::User, content }
    }

    /// An assistant message with the text `text`.
    pub fn assistant(text: String) -> (r: Self)
        ensures
            r@ == text_message(ChatRole::Assistant, text@),
    {
        let mut content: Vec<ContentPart> = Vec::new();
        content.push(ContentPart::Text(text));
        assert(parts_view(content@) =~= seq![PartModel::Text(text@)]);
        ChatMessage { role: ChatRole::Assistant, content }
    }
}

impl Message {
    /// An ordinary message.
    pub fn new(message: ChatMessage) -> (r: Self)
        ensures
            r.message == message,
            r.tools_called == 0,
            !r.is_error,
    {
        Message { message, tools_called: 0, is_error: false }
    }

    /// A message that reports an error to the user.
    pub fn error(message: ChatMessage) -> (r: Self)
        ensures
            r.message == message,
            r.tools_called == 0,
            r.is_error,
    {
        Message { message, tools_called: 0, is_error: true }
    }
}

} // verus!
