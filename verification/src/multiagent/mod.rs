//! A client for OpenAI-compatible chat completion endpoints: where requests go,
//! and what each reply, or each streamed event, means. The HTTP exchange itself
//! is the caller's.
use vstd::prelude::*;

use crate::net::{spec_status_line, status_line};
use crate::json::{
    json_as_str, json_field, json_get, json_item, json_parse, spec_json_parse, Json,
    JsonValue,
};
use crate::text::{concat, from_chars, owned, strip_trailing, to_chars};

pub mod types;

verus! {

/// Where and how to reach a completion endpoint.
#[derive(Debug)]
pub struct AIConfig {
    pub base_url: String,
    pub api_key: String,
}

impl Clone for AIConfig {
    fn clone(&self) -> (r: Self)
        ensures
            r.base_url@ == self.base_url@,
            r.api_key@ == self.api_key@,
    {
        AIConfig { base_url: self.base_url.clone(), api_key: self.api_key.clone() }
    }
}

/// What the completion task reports.
#[derive(Debug)]
pub enum CompletionEvent {
    Chunk(String),
    Finished,
    Error(String),
    Cancelled,
}

/// The content of a `CompletionEvent`.
pub enum EventModel {
    Chunk(Seq<char>),
    Finished,
    Error(Seq<char>),
    Cancelled,
}

impl View for CompletionEvent {
    type V = EventModel;

    open spec fn view(&self) -> EventModel {
        match self {
            CompletionEvent::Chunk(t) => EventModel::Chunk(t@),
            CompletionEvent::Finished => EventModel::Finished,
            CompletionEvent::Error(e) => EventModel::Error(e@),
            CompletionEvent::Cancelled => EventModel::Cancelled,
        }
    }
}

/// The contents of a list of events.
pub open spec fn events_view(s: Seq<CompletionEvent>) -> Seq<EventModel> {
    s.map_values(|e: CompletionEvent| e@)
}

/// The address of the chat completions endpoint under `base`: the base without
/// its trailing slashes, then `/chat/completions`.
pub open spec fn completions_url(base: Seq<char>) -> Seq<char> {
    strip_trailing(base, '/') + "/chat/completions"@
}

/// The address of the chat completions endpoint under `base_url`.
pub fn completions_endpoint(base_url: &str) -> (r: String)
    ensures
        r@ == completions_url(base_url@),
{
    let chars = to_chars(base_url);
    let mut n = chars.len();
    assert(chars@.subrange(0, n as int) =~= chars@);
    while n > 0 && chars[n - 1] == '/'
        invariant
            n <= chars@.len(),
            strip_trailing(chars@, '/') == strip_trailing(chars@.subrange(0, n as int), '/'),
        decreases n,
    {
        assert(chars@.subrange(0, n as int).drop_last() =~= chars@.subrange(0, n - 1));
        n = n - 1;
    }
    let mut r = from_chars(&chars, 0, n);
    r.append("/chat/completions");
    r
}

/// The error reported for a reply with a failing status: `HTTP {status}: {body}`.
pub fn http_error_message(code: u16, body: &str) -> (r: String)
    requires
        100 <= code <= 999,
    ensures
        r@ == "HTTP "@ + spec_status_line(code) + ": "@ + body@,
{
    let mut r = concat("HTTP ", status_line(code).as_str());
    r.append(": ");
    r.append(body);
    r
}

/// The text of a whole (not streamed) reply: `choices[0].message.content`.
pub open spec fn reply_text(doc: Json) -> Option<Seq<char>> {
    json_as_str(json_field(json_field(json_item(json_field(doc, "choices"@), 0), "message"@), "content"@))
}

/// The events for a whole reply: its text, where it has one, then the end.
pub open spec fn reply_events_spec(doc: Json) -> Seq<EventModel> {
    match reply_text(doc) {
        Some(t) => seq![EventModel::Chunk(t), EventModel::Finished],
        None => seq![EventModel::Finished],
    }
}

/// The events for a whole reply, read from its document.
pub fn reply_events(doc: &JsonValue) -> (r: Vec<CompletionEvent>)
    ensures
        events_view(r@) == reply_events_spec(doc@),
{
    let mut out: Vec<CompletionEvent> = Vec::new();
    let choice = doc.field("choices");
    let first = match choice.item(0) {
        Some(c) => c.field("message"),
        None => JsonValue::Null,
    };
    let content = first.field("content");
    match content.as_str() {
        Some(t) => out.push(CompletionEvent::Chunk(t.clone())),
        None => {},
    }
    out.push(CompletionEvent::Finished);
    proof {
        reveal_strlit("choices");
    }
    assert(events_view(out@) =~= reply_events_spec(doc@));
    out
}

/// The events for the decoded body of a whole reply: those of its document,
/// or the decoding error.
pub fn reply_events_from_body(body: Result<JsonValue, String>) -> (r: Vec<CompletionEvent>)
    ensures
        body matches Ok(doc) ==> events_view(r@) == reply_events_spec(doc@),
        body matches Err(e) ==> events_view(r@) == seq![EventModel::Error(e@)],
{
    match body {
        Ok(doc) => reply_events(&doc),
        Err(e) => {
            let mut out: Vec<CompletionEvent> = Vec::new();
            let ghost m = e@;
            out.push(CompletionEvent::Error(e));
            assert(events_view(out@) =~= seq![EventModel::Error(m)]);
            out
        },
    }
}

/// What one event of a streamed reply brings: a piece of text to show, and
/// whether the stream is over.
#[derive(Debug)]
pub struct StreamStep {
    pub chunk: Option<String>,
    pub stop: bool,
}

/// The text and the end mark of a streamed event's document:
/// `choices[0].delta.content`, and a non-empty `choices[0].finish_reason`.
pub open spec fn stream_data(doc: Json) -> (Option<Seq<char>>, bool) {
    let choice = json_item(json_field(doc, "choices"@), 0);
    (
        json_as_str(json_field(json_field(choice, "delta"@), "content"@)),
        match json_as_str(json_field(choice, "finish_reason"@)) {
            Some(reason) => reason.len() > 0,
            None => false,
        },
    )
}

/// What a streamed event's data means: `[DONE]` ends the stream, a JSON
/// document brings its text and end mark, and anything else is skipped.
pub open spec fn stream_event(data: Seq<char>) -> (Option<Seq<char>>, bool) {
    if data == "[DONE]"@ {
        (None, true)
    } else {
        match spec_json_parse(data) {
            Some(doc) => stream_data(doc),
            None => (None, false),
        }
    }
}

/// The text of an optional string.
pub open spec fn chunk_text(c: Option<String>) -> Option<Seq<char>> {
    match c {
        Some(t) => Some(t@),
        None => None,
    }
}

/// What a streamed event's document brings.
pub fn stream_data_step(doc: &JsonValue) -> (r: StreamStep)
    ensures
        (chunk_text(r.chunk), r.stop) == stream_data(doc@),
{
    let choice = match doc.field("choices").item(0) {
        Some(c) => c.field("delta"),
        None => JsonValue::Null,
    };
    let chunk = match choice.field("content").as_str() {
        Some(t) => Some(t.clone()),
        None => None,
    };
    let finish = match doc.field("choices").item(0) {
        Some(c) => c.field("finish_reason"),
        None => JsonValue::Null,
    };
    let stop = match finish.as_str() {
        Some(reason) => !reason.as_str().is_empty(),
        None => false,
    };
    StreamStep { chunk, stop }
}

/// What a streamed event's data brings.
pub fn stream_event_step(data: &str) -> (r: StreamStep)
    ensures
        (chunk_text(r.chunk), r.stop) == stream_event(data@),
{
    if owned(data) == owned("[DONE]") {
        return StreamStep { chunk: None, stop: true };
    }
    match json_parse(data) {
        Ok(doc) => stream_data_step(&doc),
        Err(_) => StreamStep { chunk: None, stop: false },
    }
}


/// A streamed event shows the text it carries, `choices[0].delta.content`,
/// whenever that is a string, whatever its `finish_reason`; the stream ends
/// where `finish_reason` is a non-empty string, or on `[DONE]`, which carries
/// no text.
pub proof fn law_streamed_text_is_shown(data: Seq<char>, doc: Json, items: Seq<Json>, delta: Json, t: Seq<char>, reason: Seq<char>)
    ensures
        stream_event("[DONE]"@) == (None::<Seq<char>>, true),
        ({
            let carries_text = json_get(doc, "choices"@) == Some(Json::Array(items)) && items.len() > 0
                && json_get(items[0], "delta"@) == Some(delta) && json_get(delta, "content"@) == Some(Json::Str(t));
            let finishes = json_get(doc, "choices"@) == Some(Json::Array(items)) && items.len() > 0
                && json_get(items[0], "finish_reason"@) == Some(Json::Str(reason)) && reason.len() > 0;
            &&& carries_text ==> stream_data(doc).0 == Some(t)
            &&& finishes ==> stream_data(doc).1
            &&& (data != "[DONE]"@ && spec_json_parse(data) == Some(doc)) ==> stream_event(data) == stream_data(doc)
        }),
{
}

} // verus!
