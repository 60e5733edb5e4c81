//! Sending a message, applying the completion task's events to the
//! conversations, and the decisions of the agent loop.
use vstd::prelude::*;

use crate::chat::ExecMode;
use crate::text::{from_chars, owned, to_chars, trim, is_blank};
use crate::types::{
    ChatMessage, ChatMessageModel, ChatRole, CompletionEvent, ContentPart, Conversation,
    ConversationModel, GenerationModel, GenerationPhase, GenerationState, Message, MessageModel,
    PartModel, Selected, ToolCall, ToolCallModel, convos_view, messages_view, parts_view, text_message,
};

verus! {

/// The system prompt used where the settings give none.
pub const DEFAULT_SYSTEM_PROMPT: &'static str = "You are an Smart AI Assistant Currently interacting with the user
in a native app called Cast Client. 
- Cast gives you tools to use if you think you need them you use them.
- Cast has Markdown Rendering Capabilities So you keep your responses well formatted.
- Cast is lightweight and Token Efficincy is key, you do not repeat what you say.
";

/// At most this many conversations are kept when one is started.
pub const MAX_CONVERSATIONS: usize = 50;

/// At most this many messages are kept in a conversation.
pub const MAX_MESSAGES: usize = 100;

/// The title of a conversation that has not been named yet.
pub open spec fn new_chat_title() -> Seq<char> {
    "New Chat"@
}

/// The last `n` elements of `s` (all of them where there are no more).
pub open spec fn keep_last<T>(s: Seq<T>, n: nat) -> Seq<T> {
    if s.len() > n {
        s.subrange(s.len() - n, s.len() as int)
    } else {
        s
    }
}

/// The first 50 characters of a message, which name a new conversation.
pub open spec fn title_of(text: Seq<char>) -> Seq<char> {
    if text.len() <= 50 {
        text
    } else {
        text.subrange(0, 50)
    }
}

/// A message of the conversation, neither an error nor carrying tool calls.
pub open spec fn plain(m: ChatMessageModel) -> MessageModel {
    MessageModel { message: m, tools_called: 0, is_error: false }
}

/// An assistant message that reports an error to the user.
pub open spec fn error_message(text: Seq<char>) -> MessageModel {
    MessageModel { message: text_message(ChatRole::Assistant, text), tools_called: 0, is_error: true }
}

/// A conversation after the user sent `text`: the message is appended, an
/// unnamed conversation takes its title from the text, and only the last
/// `MAX_MESSAGES` messages are kept.
pub open spec fn with_user_message(c: ConversationModel, text: Seq<char>) -> ConversationModel {
    let msgs = c.messages.push(plain(text_message(ChatRole::User, text)));
    let title = if c.title == new_chat_title() && title_of(text).len() > 0 {
        title_of(text)
    } else {
        c.title
    };
    ConversationModel { title, messages: keep_last(msgs, MAX_MESSAGES as nat) }
}

/// The messages sent to the model: those of the conversation, without a last
/// assistant message that has no content.
pub open spec fn request_messages(msgs: Seq<MessageModel>) -> Seq<ChatMessageModel> {
    let all = msgs.map_values(|m: MessageModel| m.message);
    if all.len() > 0 && all.last().role == ChatRole::Assistant && all.last().content.len() == 0 {
        all.drop_last()
    } else {
        all
    }
}

/// The conversations and the position that receive a message: the selected
/// one, or a new one appended (keeping the last `MAX_CONVERSATIONS`).
pub open spec fn send_target(convos: Seq<ConversationModel>, active: Selected) -> (Seq<ConversationModel>, int) {
    match active {
        Selected::Index(i) => (convos, i as int),
        Selected::New => {
            let all = convos.push(ConversationModel { title: new_chat_title(), messages: Seq::empty() });
            let kept = keep_last(all, MAX_CONVERSATIONS as nat);
            (kept, kept.len() - 1)
        },
    }
}

/// The contents of a list of model messages.
pub open spec fn chat_messages_view(s: Seq<ChatMessage>) -> Seq<ChatMessageModel> {
    s.map_values(|m: ChatMessage| m@)
}

/// The selection is a conversation that exists, or none.
pub open spec fn selection_valid(active: Selected, count: nat) -> bool {
    match active {
        Selected::Index(i) => i < count,
        Selected::New => true,
    }
}

/// The first `n` characters of `s` (all of them where there are fewer).
fn take_chars(s: &str, n: usize) -> (r: String)
    ensures
        r@ == if s@.len() <= n {
            s@
        } else {
            s@.subrange(0, n as int)
        },
{
    let v = to_chars(s);
    let end = if v.len() <= n {
        v.len()
    } else {
        n
    };
    let r = from_chars(&v, 0, end);
    assert(v@.len() <= n ==> v@.subrange(0, end as int) =~= v@);
    r
}

/// Adds the user's message to the selected conversation (starting one where
/// none is selected) and gives the messages to send to the model with the
/// conversation's position; nothing happens for a missing or blank text.
pub fn send_message(text: Option<String>, convos: &mut Vec<Conversation>, active: &mut Selected) -> (r: Option<(usize, Vec<ChatMessage>)>)
    requires
        (text is Some && trim(text->0@).len() != 0) ==> selection_valid(*old(active), old(convos)@.len()),
    ensures
        (text is None || trim(text->0@).len() == 0) ==> {
            &&& r is None
            &&& final(convos)@ == old(convos)@
            &&& *final(active) == *old(active)
        },
        (text is Some && trim(text->0@).len() != 0) ==> {
            let (c1, idx) = send_target(convos_view(old(convos)@), *old(active));
            &&& r matches Some((i, req)) && i == idx && chat_messages_view(req@) == request_messages(
                convos_view(final(convos)@)[idx].messages,
            )
            &&& *final(active) == Selected::Index(idx as usize)
            &&& 0 <= idx < c1.len()
            &&& convos_view(final(convos)@) == c1.update(idx, with_user_message(c1[idx], text->0@))
        },
{
    let val = match text {
        Some(v) => v,
        None => return None,
    };
    if is_blank(val.as_str()) {
        return None;
    }
    let ghost before = convos_view(convos@);
    let idx: usize = match *active {
        Selected::Index(i) => i,
        Selected::New => {
            convos.push(Conversation { title: owned("New Chat"), messages: Vec::new() });
            let ghost pushed = convos@;
            assert(convos_view(pushed) =~= before.push(
                ConversationModel { title: new_chat_title(), messages: Seq::empty() },
            )) by {
                assert(messages_view(pushed.last().messages@) =~= Seq::empty());
            }
            if convos.len() > MAX_CONVERSATIONS {
                let at = convos.len() - MAX_CONVERSATIONS;
                let kept = convos.split_off(at);
                *convos = kept;
                assert(convos_view(convos@) =~= keep_last(convos_view(pushed), MAX_CONVERSATIONS as nat));
            }
            let new_idx = convos.len() - 1;
            *active = Selected::Index(new_idx);
            new_idx
        },
    };
    let ghost c1 = convos_view(convos@);
    assert(c1 == send_target(before, *old(active)).0);
    let mut convo = convos.remove(idx);
    let ghost old_convo = convo@;
    let ghost rest = convos@;
    let user = ChatMessage::user(val.clone());
    let ghost old_msgs = convo.messages@;
    convo.messages.push(Message::new(user));
    assert(messages_view(convo.messages@) =~= messages_view(old_msgs).push(
        plain(text_message(ChatRole::User, val@)),
    ));
    if convo.title == owned("New Chat") {
        let title = take_chars(val.as_str(), 50);
        if !title.as_str().is_empty() {
            convo.title = title;
        }
    }
    let n = convo.messages.len();
    if n > MAX_MESSAGES {
        let ghost all = convo.messages@;
        let kept = convo.messages.split_off(n - MAX_MESSAGES);
        convo.messages = kept;
        assert(messages_view(convo.messages@) =~= keep_last(messages_view(all), MAX_MESSAGES as nat));
    }
    assert(convo@ == with_user_message(old_convo, val@));
    let mut request: Vec<ChatMessage> = Vec::new();
    let mut i: usize = 0;
    while i < convo.messages.len()
        invariant
            i <= convo.messages.len(),
            chat_messages_view(request@) == messages_view(convo.messages@).map_values(
                |m: MessageModel| m.message,
            ).subrange(0, i as int),
        decreases convo.messages.len() - i,
    {
        let ghost prev = request@;
        request.push(convo.messages[i].message.clone());
        assert(chat_messages_view(request@) =~= chat_messages_view(prev).push(convo.messages@[i as int].message@));
        i = i + 1;
    }
    let ghost all_req = messages_view(convo.messages@).map_values(|m: MessageModel| m.message);
    assert(all_req.subrange(0, all_req.len() as int) =~= all_req);
    let k = request.len();
    if k > 0 {
        let drop = match request[k - 1].role {
            ChatRole::Assistant => request[k - 1].content.len() == 0,
            _ => false,
        };
        if drop {
            let ghost full = request@;
            request.pop();
            assert(chat_messages_view(request@) =~= chat_messages_view(full).drop_last());
        }
    }
    convos.insert(idx, convo);
    assert(convos_view(convos@) =~= c1.update(idx as int, with_user_message(c1[idx as int], val@)));
    Some((idx, request))
}


/// The content of a `CompletionEvent`; of a finished tool turn only the number
/// of tool calls matters here.
pub enum EventModel {
    Chunk(Seq<char>),
    Finished,
    ToolCallStarted(Seq<char>),
    ToolTurnCompleted(Seq<ToolCallModel>),
    Error(Seq<char>),
    Cancelled,
}

/// The content of an event.
pub open spec fn event_view(e: CompletionEvent) -> EventModel {
    match e {
        CompletionEvent::Chunk(t) => EventModel::Chunk(t@),
        CompletionEvent::Finished => EventModel::Finished,
        CompletionEvent::ToolCallStarted { tool_name } => EventModel::ToolCallStarted(tool_name@),
        CompletionEvent::ToolTurnCompleted { tool_calls } => EventModel::ToolTurnCompleted(
            tool_calls@.map_values(|c: ToolCall| c@),
        ),
        CompletionEvent::Error(e) => EventModel::Error(e@),
        CompletionEvent::Cancelled => EventModel::Cancelled,
    }
}

/// What became of an event.
#[derive(Debug, Clone, Copy, PartialEq, Eq, Structural)]
pub enum PollOutcome {
    /// No generation runs: the event was dropped.
    Ignored,
    /// The generation goes on.
    Continues,
    /// The generation is over: drop its cancellation token and save.
    Ended,
}

/// The conversation a generation writes to.
pub open spec fn generation_target(g: GenerationModel) -> Option<int> {
    match g {
        GenerationModel::Idle => None,
        GenerationModel::Thinking(i) => Some(i as int),
        GenerationModel::ExecutingTool(i, _) => Some(i as int),
    }
}

/// The last message is the assistant's.
pub open spec fn ends_with_assistant(msgs: Seq<MessageModel>) -> bool {
    msgs.len() > 0 && msgs.last().message.role == ChatRole::Assistant
}

/// A streamed chunk of text: appended to the assistant's last message, or a
/// new assistant message.
pub open spec fn append_chunk(msgs: Seq<MessageModel>, text: Seq<char>) -> Seq<MessageModel> {
    if ends_with_assistant(msgs) {
        let last = msgs.last();
        msgs.update(
            msgs.len() - 1,
            MessageModel {
                message: ChatMessageModel {
                    role: last.message.role,
                    content: last.message.content.push(PartModel::Text(text)),
                },
                ..last
            },
        )
    } else {
        msgs.push(plain(text_message(ChatRole::Assistant, text)))
    }
}

/// A tool starts: an assistant message (empty where needed) ends the conversation.
pub open spec fn ensure_assistant(msgs: Seq<MessageModel>) -> Seq<MessageModel> {
    if ends_with_assistant(msgs) {
        msgs
    } else {
        msgs.push(plain(text_message(ChatRole::Assistant, Seq::empty())))
    }
}

/// A tool turn ends: the assistant's last message records how many tools it called.
pub open spec fn record_tools(msgs: Seq<MessageModel>, n: nat) -> Seq<MessageModel> {
    if ends_with_assistant(msgs) {
        msgs.update(msgs.len() - 1, MessageModel { tools_called: n as usize, ..msgs.last() })
    } else {
        msgs.push(
            MessageModel {
                message: text_message(ChatRole::Assistant, Seq::empty()),
                tools_called: n as usize,
                is_error: false,
            },
        )
    }
}

/// A conversation with other messages.
pub open spec fn with_messages(c: ConversationModel, msgs: Seq<MessageModel>) -> ConversationModel {
    ConversationModel { messages: msgs, ..c }
}

/// What one event does to the conversations and the generation.
pub open spec fn spec_apply(convos: Seq<ConversationModel>, g: GenerationModel, e: EventModel) -> (Seq<ConversationModel>, GenerationModel, PollOutcome) {
    match generation_target(g) {
        None => (convos, g, PollOutcome::Ignored),
        Some(i) => {
            let c = convos[i];
            let msgs = c.messages;
            match e {
                EventModel::Chunk(t) => (
                    convos.update(i, with_messages(c, append_chunk(msgs, t))),
                    GenerationModel::Thinking(i as usize),
                    PollOutcome::Continues,
                ),
                EventModel::ToolCallStarted(name) => (
                    convos.update(i, with_messages(c, ensure_assistant(msgs))),
                    GenerationModel::ExecutingTool(i as usize, name),
                    PollOutcome::Continues,
                ),
                EventModel::ToolTurnCompleted(calls) => (
                    convos.update(i, with_messages(c, record_tools(msgs, calls.len()))),
                    GenerationModel::Thinking(i as usize),
                    PollOutcome::Continues,
                ),
                EventModel::Finished => (convos, GenerationModel::Idle, PollOutcome::Ended),
                EventModel::Cancelled => (convos, GenerationModel::Idle, PollOutcome::Ended),
                EventModel::Error(m) => (
                    convos.update(
                        i,
                        with_messages(c, msgs.push(error_message("Error "@ + m))),
                    ),
                    GenerationModel::Idle,
                    PollOutcome::Ended,
                ),
            }
        },
    }
}

/// The generation writes to a conversation that exists.
pub open spec fn generation_valid(g: GenerationModel, count: nat) -> bool {
    match generation_target(g) {
        Some(i) => 0 <= i < count,
        None => true,
    }
}

/// Applies one event of the completion task to the conversations and the
/// generation state.
pub fn apply_event(convos: &mut Vec<Conversation>, generation: &mut GenerationState, event: CompletionEvent) -> (r: PollOutcome)
    requires
        event is Finished || event is Cancelled || generation_valid(old(generation)@, old(convos)@.len()),
    ensures
        (convos_view(final(convos)@), final(generation)@, r) == spec_apply(
            convos_view(old(convos)@),
            old(generation)@,
            event_view(event),
        ),
{
    let ghost before = convos_view(convos@);
    let idx = match generation {
        GenerationState::Active { convo_idx, .. } => *convo_idx,
        GenerationState::Idle => return PollOutcome::Ignored,
    };
    match event {
        CompletionEvent::Finished | CompletionEvent::Cancelled => {
            *generation = GenerationState::Idle;
            PollOutcome::Ended
        },
        CompletionEvent::Chunk(text) => {
            let mut convo = convos.remove(idx);
            let ghost c0 = convo@;
            let ghost m0 = convo.messages@;
            let n = convo.messages.len();
            let last_is_assistant = n > 0 && match convo.messages[n - 1].message.role {
                ChatRole::Assistant => true,
                _ => false,
            };
            if last_is_assistant {
                let mut last = convo.messages.pop().unwrap();
                let ghost l0 = last@;
                last.message.content.push(ContentPart::Text(text));
                assert(parts_view(last.message.content@) =~= l0.message.content.push(PartModel::Text(text@)));
                convo.messages.push(last);
                assert(messages_view(convo.messages@) =~= append_chunk(messages_view(m0), text@));
            } else {
                let ghost t = text@;
                convo.messages.push(Message::new(ChatMessage::assistant(text)));
                assert(messages_view(convo.messages@) =~= append_chunk(messages_view(m0), t));
            }
            convos.insert(idx, convo);
            *generation = GenerationState::Active { convo_idx: idx, phase: GenerationPhase::Thinking };
            assert(convos_view(convos@) =~= before.update(idx as int, with_messages(c0, append_chunk(c0.messages, text@))));
            PollOutcome::Continues
        },
        CompletionEvent::ToolCallStarted { tool_name } => {
            let mut convo = convos.remove(idx);
            let ghost c0 = convo@;
            let ghost m0 = convo.messages@;
            let n = convo.messages.len();
            let last_is_assistant = n > 0 && match convo.messages[n - 1].message.role {
                ChatRole::Assistant => true,
                _ => false,
            };
            if !last_is_assistant {
                convo.messages.push(Message::new(ChatMessage::assistant(String::new())));
            }
            assert(messages_view(convo.messages@) =~= ensure_assistant(messages_view(m0)));
            convos.insert(idx, convo);
            *generation = GenerationState::Active { convo_idx: idx, phase: GenerationPhase::ExecutingTool { tool_name } };
            assert(convos_view(convos@) =~= before.update(idx as int, with_messages(c0, ensure_assistant(c0.messages))));
            PollOutcome::Continues
        },
        CompletionEvent::ToolTurnCompleted { tool_calls } => {
            let count = tool_calls.len();
            let mut convo = convos.remove(idx);
            let ghost c0 = convo@;
            let ghost m0 = convo.messages@;
            let n = convo.messages.len();
            let last_is_assistant = n > 0 && match convo.messages[n - 1].message.role {
                ChatRole::Assistant => true,
                _ => false,
            };
            if last_is_assistant {
                let mut last = convo.messages.pop().unwrap();
                last.tools_called = count;
                convo.messages.push(last);
            } else {
                convo.messages.push(
                    Message { message: ChatMessage::assistant(String::new()), tools_called: count, is_error: false },
                );
            }
            assert(messages_view(convo.messages@) =~= record_tools(messages_view(m0), count as nat));
            convos.insert(idx, convo);
            *generation = GenerationState::Active { convo_idx: idx, phase: GenerationPhase::Thinking };
            assert(convos_view(convos@) =~= before.update(idx as int, with_messages(c0, record_tools(c0.messages, count as nat))));
            PollOutcome::Continues
        },
        CompletionEvent::Error(e) => {
            let mut convo = convos.remove(idx);
            let ghost c0 = convo@;
            let ghost m0 = convo.messages@;
            let mut text = owned("Error ");
            text.append(e.as_str());
            let ghost t = text@;
            convo.messages.push(Message::error(ChatMessage::assistant(text)));
            assert(messages_view(convo.messages@) =~= messages_view(m0).push(error_message("Error "@ + e@)));
            convos.insert(idx, convo);
            *generation = GenerationState::Idle;
            assert(convos_view(convos@) =~= before.update(
                idx as int,
                with_messages(c0, c0.messages.push(error_message("Error "@ + e@))),
            ));
            PollOutcome::Ended
        },
    }
}


/// While no generation runs, events change nothing.
pub proof fn law_idle_ignores_events(convos: Seq<ConversationModel>, e: EventModel)
    ensures
        spec_apply(convos, GenerationModel::Idle, e) == (convos, GenerationModel::Idle, PollOutcome::Ignored),
{
}

/// An event changes only the conversation being generated; the number of
/// conversations stays, and the generation still points at an existing one.
pub proof fn law_event_touches_only_its_conversation(convos: Seq<ConversationModel>, g: GenerationModel, e: EventModel)
    requires
        generation_valid(g, convos.len()),
    ensures
        ({
            let (after, g2, _) = spec_apply(convos, g, e);
            &&& after.len() == convos.len()
            &&& forall|j: int| 0 <= j < convos.len() && Some(j) != generation_target(g) ==> after[j] == convos[j]
            &&& generation_valid(g2, after.len())
            &&& forall|j: int| 0 <= j < convos.len() ==> after[j].title == convos[j].title
        }),
{
}

/// A finished, cancelled or failed generation is over: the state goes back to
/// idle and the conversations are saved.
pub proof fn law_terminal_events_end_generation(convos: Seq<ConversationModel>, g: GenerationModel, e: EventModel)
    requires
        generation_target(g) is Some,
        e is Finished || e is Cancelled || e is Error,
    ensures
        spec_apply(convos, g, e).1 == GenerationModel::Idle,
        spec_apply(convos, g, e).2 == PollOutcome::Ended,
{
}

/// A streamed chunk ends up as the last text of the assistant's last message,
/// after the texts it already had.
pub proof fn law_chunk_appends_to_reply(convos: Seq<ConversationModel>, g: GenerationModel, t: Seq<char>)
    requires
        generation_valid(g, convos.len()),
        generation_target(g) is Some,
    ensures
        ({
            let i = generation_target(g)->0;
            let msgs = spec_apply(convos, g, EventModel::Chunk(t)).0[i].messages;
            &&& ends_with_assistant(msgs)
            &&& msgs.last().message.content.last() == PartModel::Text(t)
            &&& ends_with_assistant(convos[i].messages) ==> msgs.len() == convos[i].messages.len()
                && msgs.last().message.content.drop_last() == convos[i].messages.last().message.content
        }),
{
    let i = generation_target(g)->0;
    let msgs = spec_apply(convos, g, EventModel::Chunk(t)).0[i].messages;
    if ends_with_assistant(convos[i].messages) {
        assert(msgs.last().message.content.drop_last() =~= convos[i].messages.last().message.content);
    }
}

/// Sending keeps the limits: a new conversation leaves at most
/// `MAX_CONVERSATIONS` of them (given no more before), a conversation holds at
/// most `MAX_MESSAGES` messages, a title taken from a message has at most 50
/// characters, and the selection points at the conversation written to.
pub proof fn law_send_keeps_limits(convos: Seq<ConversationModel>, active: Selected, text: Seq<char>)
    requires
        selection_valid(active, convos.len()),
        active is New ==> convos.len() <= MAX_CONVERSATIONS,
    ensures
        ({
            let (c1, idx) = send_target(convos, active);
            let after = with_user_message(c1[idx], text);
            &&& 0 <= idx < c1.len()
            &&& c1.len() <= if active is New { MAX_CONVERSATIONS as int } else { convos.len() as int }
            &&& after.messages.len() <= MAX_MESSAGES
            &&& after.messages.last() == plain(text_message(ChatRole::User, text))
            &&& c1[idx].title == new_chat_title() && text.len() > 0 ==> after.title.len() <= 50
                && after.title == title_of(text)
        }),
{
}

/// The selection after the conversation at `idx` is deleted: that one is
/// unselected, later ones move down by one.
pub open spec fn selection_after_delete(active: Selected, idx: nat) -> Selected {
    match active {
        Selected::Index(i) => if i == idx {
            Selected::New
        } else if i > idx {
            Selected::Index((i - 1) as usize)
        } else {
            active
        },
        Selected::New => Selected::New,
    }
}

/// Deletes the conversation at `idx`; a generation writing to it is stopped,
/// and the result says whether to cancel it.
pub fn delete_conversation(convos: &mut Vec<Conversation>, active: &mut Selected, generation: &mut GenerationState, idx: usize) -> (cancel: bool)
    requires
        idx < old(convos)@.len(),
    ensures
        cancel == (generation_target(old(generation)@) == Some(idx as int)),
        cancel ==> final(generation)@ == GenerationModel::Idle,
        !cancel ==> final(generation)@ == old(generation)@,
        final(convos)@ == old(convos)@.remove(idx as int),
        *final(active) == selection_after_delete(*old(active), idx as nat),
{
    let cancel = match generation {
        GenerationState::Active { convo_idx, .. } => *convo_idx == idx,
        GenerationState::Idle => false,
    };
    if cancel {
        *generation = GenerationState::Idle;
    }
    convos.remove(idx);
    match *active {
        Selected::Index(i) => {
            if i == idx {
                *active = Selected::New;
            } else if i > idx {
                *active = Selected::Index(i - 1);
            }
        },
        Selected::New => {},
    }
    cancel
}

/// Deleting a conversation keeps the selection on an existing conversation.
pub proof fn law_delete_keeps_selection_valid(active: Selected, count: nat, idx: nat)
    requires
        selection_valid(active, count),
        idx < count,
    ensures
        selection_valid(selection_after_delete(active, idx), (count - 1) as nat),
{
}

/// What the model is asked: the messages, the system prompt (the default one
/// where none is set) and whether tools are offered.
#[derive(Debug)]
pub struct ChatRequestPlan {
    pub messages: Vec<ChatMessage>,
    pub system: String,
    pub with_tools: bool,
}

/// The request for the model: tools only in agent mode; the default system
/// prompt where none is set.
pub fn create_request(mode: ExecMode, messages: Vec<ChatMessage>, system: Option<String>) -> (r: ChatRequestPlan)
    ensures
        r.messages == messages,
        r.with_tools == (mode == ExecMode::Agent),
        r.system@ == match system {
            Some(s) => s@,
            None => DEFAULT_SYSTEM_PROMPT@,
        },
{
    let with_tools = match mode {
        ExecMode::Chat => false,
        ExecMode::Agent => true,
    };
    let system = match system {
        Some(s) => s,
        None => owned(DEFAULT_SYSTEM_PROMPT),
    };
    ChatRequestPlan { messages, system, with_tools }
}


/// When a tool starts, the reply being generated gets a place for it: a
/// conversation whose last message is the assistant's keeps its messages as
/// they are (later chunks and the tool count go to that message); any other
/// gets exactly one new, empty assistant message at the end. No other
/// conversation changes, and the generation goes on executing that tool.
pub proof fn law_tool_start_keeps_the_reply_whole(convos: Seq<ConversationModel>, g: GenerationModel, name: Seq<char>)
    requires
        generation_target(g) matches Some(i) && 0 <= i < convos.len(),
    ensures
        ({
            let i = generation_target(g)->0;
            let msgs = convos[i].messages;
            let (after, g2, out) = spec_apply(convos, g, EventModel::ToolCallStarted(name));
            &&& out == PollOutcome::Continues
            &&& g2 == GenerationModel::ExecutingTool(i as usize, name)
            &&& (msgs.len() > 0 && msgs.last().message.role == ChatRole::Assistant) ==> after == convos
            &&& !(msgs.len() > 0 && msgs.last().message.role == ChatRole::Assistant) ==> {
                &&& after.len() == convos.len()
                &&& forall|j: int| 0 <= j < convos.len() && j != i ==> after[j] == convos[j]
                &&& after[i].title == convos[i].title
                &&& after[i].messages.len() == msgs.len() + 1
                &&& after[i].messages.subrange(0, msgs.len() as int) == msgs
                &&& after[i].messages.last().message.role == ChatRole::Assistant
                &&& after[i].messages.last().message.content == seq![PartModel::Text(Seq::<char>::empty())]
                &&& after[i].messages.last().tools_called == 0
                &&& !after[i].messages.last().is_error
            }
        }),
{
    let i = generation_target(g)->0;
    let msgs = convos[i].messages;
    let after = spec_apply(convos, g, EventModel::ToolCallStarted(name)).0;
    if msgs.len() > 0 && msgs.last().message.role == ChatRole::Assistant {
        assert(after =~= convos);
    } else {
        assert(after[i].messages.subrange(0, msgs.len() as int) =~= msgs);
    }
}


/// A finished tool turn is counted on the reply: where the last message is the
/// assistant's, that message records how many tools were called and keeps its
/// content; otherwise one new, empty assistant message records the count. A
/// failure adds one error message `Error {message}` at the end and ends the
/// generation. No other conversation changes.
pub proof fn law_turns_and_errors_land_on_the_reply(
    convos: Seq<ConversationModel>,
    g: GenerationModel,
    calls: Seq<ToolCallModel>,
    m: Seq<char>,
)
    requires
        generation_target(g) matches Some(i) && 0 <= i < convos.len(),
        calls.len() <= usize::MAX,
    ensures
        ({
            let i = generation_target(g)->0;
            let msgs = convos[i].messages;
            let (after, g2, _) = spec_apply(convos, g, EventModel::ToolTurnCompleted(calls));
            let am = after[i].messages;
            &&& after.len() == convos.len()
            &&& forall|j: int| 0 <= j < convos.len() && j != i ==> after[j] == convos[j]
            &&& g2 == GenerationModel::Thinking(i as usize)
            &&& (msgs.len() > 0 && msgs.last().message.role == ChatRole::Assistant) ==> {
                &&& am.len() == msgs.len()
                &&& am.subrange(0, msgs.len() - 1) == msgs.subrange(0, msgs.len() - 1)
                &&& am.last().message == msgs.last().message
                &&& am.last().tools_called == calls.len()
                &&& am.last().is_error == msgs.last().is_error
            }
            &&& !(msgs.len() > 0 && msgs.last().message.role == ChatRole::Assistant) ==> {
                &&& am.len() == msgs.len() + 1
                &&& am.subrange(0, msgs.len() as int) == msgs
                &&& am.last().message.role == ChatRole::Assistant
                &&& am.last().tools_called == calls.len()
            }
        }),
        ({
            let i = generation_target(g)->0;
            let msgs = convos[i].messages;
            let (after, g2, out) = spec_apply(convos, g, EventModel::Error(m));
            let am = after[i].messages;
            &&& after.len() == convos.len()
            &&& forall|j: int| 0 <= j < convos.len() && j != i ==> after[j] == convos[j]
            &&& g2 == GenerationModel::Idle
            &&& out == PollOutcome::Ended
            &&& am.len() == msgs.len() + 1
            &&& am.subrange(0, msgs.len() as int) == msgs
            &&& am.last().is_error
            &&& am.last().message.role == ChatRole::Assistant
            &&& am.last().message.content == seq![PartModel::Text("Error "@ + m)]
        }),
{
    let i = generation_target(g)->0;
    let msgs = convos[i].messages;
    let am = spec_apply(convos, g, EventModel::ToolTurnCompleted(calls)).0[i].messages;
    if msgs.len() > 0 && msgs.last().message.role == ChatRole::Assistant {
        assert(am.subrange(0, msgs.len() - 1) =~= msgs.subrange(0, msgs.len() - 1));
    } else {
        assert(am.subrange(0, msgs.len() as int) =~= msgs);
    }
    let em = spec_apply(convos, g, EventModel::Error(m)).0[i].messages;
    assert(em.subrange(0, msgs.len() as int) =~= msgs);
}

} // verus!
