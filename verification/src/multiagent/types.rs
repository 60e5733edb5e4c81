//! A chat completion request and its builder.
use vstd::prelude::*;

use crate::json::{entry, items_model, lemma_items_model, object2, object4, string_value, Json, JsonValue};
use crate::text::{is_blank, owned, trim};
use crate::types::{ChatRole, Message, MessageModel, messages_view, parts_text};

verus! {

/// The model asked for where the builder names none.
pub const DEFAULT_MODEL: &'static str = "gemini-3.5-flash";

/// The system prompt sent where the request has none, or a blank one.
pub const DEFAULT_PROMPT: &'static str = "You are an assistant running inside Cast Client, a lightweight native chat application. Keep responses concise and well-formatted in markdown.";

/// A request for a chat completion.
pub struct CompletionRequest {
    model: String,
    messages: Vec<Message>,
    streaming: bool,
    system_prompt: Option<String>,
}

/// Gathers the parts of a `CompletionRequest`.
pub struct CompReqBuilder {
    model: Option<String>,
    messages: Vec<Message>,
    streaming: bool,
    system_prompt: Option<String>,
}

/// The content of a `CompletionRequest`.
pub struct RequestModel {
    pub model: Seq<char>,
    pub messages: Seq<MessageModel>,
    pub streaming: bool,
    pub system_prompt: Option<Seq<char>>,
}

/// The content of a `CompReqBuilder`.
pub struct BuilderModel {
    pub model: Option<Seq<char>>,
    pub messages: Seq<MessageModel>,
    pub streaming: bool,
    pub system_prompt: Option<Seq<char>>,
}

/// The text of an optional string.
pub open spec fn text_of(o: Option<String>) -> Option<Seq<char>> {
    match o {
        Some(s) => Some(s@),
        None => None,
    }
}

impl View for CompletionRequest {
    type V = RequestModel;

    closed spec fn view(&self) -> RequestModel {
        RequestModel {
            model: self.model@,
            messages: messages_view(self.messages@),
            streaming: self.streaming,
            system_prompt: text_of(self.system_prompt),
        }
    }
}

impl View for CompReqBuilder {
    type V = BuilderModel;

    closed spec fn view(&self) -> BuilderModel {
        BuilderModel {
            model: text_of(self.model),
            messages: messages_view(self.messages@),
            streaming: self.streaming,
            system_prompt: text_of(self.system_prompt),
        }
    }
}

impl CompReqBuilder {
    /// Names the model.
    pub fn model(self, model: String) -> (r: Self)
        ensures
            r@ == (BuilderModel { model: Some(model@), ..self@ }),
    {
        CompReqBuilder { model: Some(model), ..self }
    }

    /// Sets the conversation to send.
    pub fn messages(self, msgs: Vec<Message>) -> (r: Self)
        ensures
            r@ == (BuilderModel { messages: messages_view(msgs@), ..self@ }),
    {
        CompReqBuilder { messages: msgs, ..self }
    }

    /// Asks for a streamed reply or a whole one.
    pub fn streaming(self, is: bool) -> (r: Self)
        ensures
            r@ == (BuilderModel { streaming: is, ..self@ }),
    {
        CompReqBuilder { streaming: is, ..self }
    }

    /// Sets the system prompt.
    pub fn system_prompt(self, prompt: Option<String>) -> (r: Self)
        ensures
            r@ == (BuilderModel { system_prompt: text_of(prompt), ..self@ }),
    {
        CompReqBuilder { system_prompt: prompt, ..self }
    }

    /// The request, with the default model where none was named.
    pub fn build(self) -> (r: CompletionRequest)
        ensures
            r@ == (RequestModel {
                model: match self@.model {
                    Some(m) => m,
                    None => DEFAULT_MODEL@,
                },
                messages: self@.messages,
                streaming: self@.streaming,
                system_prompt: self@.system_prompt,
            }),
    {
        let model = match self.model {
            Some(m) => m,
            None => owned(DEFAULT_MODEL),
        };
        CompletionRequest {
            model,
            messages: self.messages,
            streaming: self.streaming,
            system_prompt: self.system_prompt,
        }
    }
}

/// The prompt sent as the system message: the request's own, unless it is
/// missing or blank.
pub open spec fn system_prompt_text(prompt: Option<Seq<char>>) -> Seq<char> {
    match prompt {
        Some(s) => if trim(s).len() > 0 {
            s
        } else {
            DEFAULT_PROMPT@
        },
        None => DEFAULT_PROMPT@,
    }
}

/// How a role is named in the request.
pub open spec fn role_name(r: ChatRole) -> Seq<char> {
    match r {
        ChatRole::System => "system"@,
        ChatRole::User => "user"@,
        ChatRole::Assistant => "assistant"@,
        ChatRole::Tool => "tool"@,
    }
}

/// A message as the endpoint takes it: its role and its text.
pub open spec fn message_document(m: MessageModel) -> Json {
    Json::Object(
        seq![("role"@, Json::Str(role_name(m.message.role))), ("content"@, Json::Str(parts_text(m.message.content)))],
    )
}

/// The body of a request: the model, the system message followed by the
/// conversation, whether to stream, and a low reasoning effort.
pub open spec fn request_document(r: RequestModel) -> Json {
    Json::Object(
        seq![
            ("model"@, Json::Str(r.model)),
            ("messages"@, Json::Array(
                seq![Json::Object(seq![("role"@, Json::Str("system"@)), ("content"@, Json::Str(system_prompt_text(r.system_prompt)))])]
                    + r.messages.map_values(|m: MessageModel| message_document(m)),
            )),
            ("stream"@, Json::Bool(r.streaming)),
            ("reasoning_effort"@, Json::Str("low"@)),
        ],
    )
}

/// The system prompt to send: `prompt`, unless it is missing or blank.
pub fn get_system_prompt<'a>(prompt: &'a Option<String>) -> (r: &'a str)
    ensures
        r@ == system_prompt_text(text_of(*prompt)),
{
    match prompt {
        Some(s) => {
            if !is_blank(s.as_str()) {
                s.as_str()
            } else {
                DEFAULT_PROMPT
            }
        },
        None => DEFAULT_PROMPT,
    }
}

fn role_text(r: ChatRole) -> (t: &'static str)
    ensures
        t@ == role_name(r),
{
    match r {
        ChatRole::System => "system",
        ChatRole::User => "user",
        ChatRole::Assistant => "assistant",
        ChatRole::Tool => "tool",
    }
}

fn message_to_json(m: &Message) -> (r: JsonValue)
    ensures
        r@ == message_document(m@),
{
    object2(entry("role", string_value(role_text(m.message.role))), entry("content", JsonValue::Str(m.message.text())))
}

impl CompletionRequest {
    /// A builder with no model, no messages, streaming on and no system prompt.
    pub fn new() -> (r: CompReqBuilder)
        ensures
            r@ == (BuilderModel {
                model: None,
                messages: Seq::empty(),
                streaming: true,
                system_prompt: None,
            }),
    {
        let r = CompReqBuilder { model: None, messages: Vec::new(), streaming: true, system_prompt: None };
        assert(messages_view(r.messages@) =~= Seq::<MessageModel>::empty());
        r
    }

    /// The JSON body of the request.
    pub fn to_json(&self) -> (r: JsonValue)
        ensures
            r@ == request_document(self@),
    {
        let system = object2(
            entry("role", string_value("system")),
            entry("content", string_value(get_system_prompt(&self.system_prompt))),
        );
        let ghost f = |m: MessageModel| message_document(m);
        let mut msgs: Vec<JsonValue> = Vec::new();
        let ghost sys = system@;
        msgs.push(system);
        proof {
            lemma_items_model(msgs@);
        }
        let ghost head = items_model(msgs@);
        assert(head =~= seq![sys]);
        assert(head =~= seq![Json::Object(seq![("role"@, Json::Str("system"@)), ("content"@, Json::Str(system_prompt_text(self@.system_prompt)))])]);
        let mut i: usize = 0;
        while i < self.messages.len()
            invariant
                i <= self.messages.len(),
                f == (|m: MessageModel| message_document(m)),
                self@.messages == messages_view(self.messages@),
                items_model(msgs@) == head + messages_view(self.messages@.subrange(0, i as int)).map_values(f),
            decreases self.messages.len() - i,
        {
            let item = message_to_json(&self.messages[i]);
            let ghost before = msgs@;
            msgs.push(item);
            assert(msgs@.drop_last() =~= before);
            assert(messages_view(self.messages@.subrange(0, i + 1)).map_values(f) =~= messages_view(
                self.messages@.subrange(0, i as int),
            ).map_values(f).push(f(self.messages@[i as int]@)));
            i = i + 1;
        }
        assert(self.messages@.subrange(0, self.messages@.len() as int) =~= self.messages@);
        object4(
            entry("model", JsonValue::Str(self.model.clone())),
            entry("messages", JsonValue::Array(msgs)),
            entry("stream", JsonValue::Bool(self.streaming)),
            entry("reasoning_effort", string_value("low")),
        )
    }

    /// Whether the reply is to be streamed.
    pub fn is_streaming(&self) -> (r: bool)
        ensures
            r == self@.streaming,
    {
        self.streaming
    }
}

} // verus!
