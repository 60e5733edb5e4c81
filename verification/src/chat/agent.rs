//! The decisions of the agent loop: stream the model's answer, run the tools it
//! asks for, feed their results back, and stop after a bounded number of turns.
//! The caller performs each action and reports what happened.
use vstd::prelude::*;

use crate::chat::completion::{EventModel, event_view};
use crate::text::{concat, owned, push_char};
use crate::types::{
    ChatMessage, ChatMessageModel, ChatRole, CompletionEvent, ContentPart, PartModel, ToolCall,
    ToolCallModel, ToolResponse, parts_view,
};

verus! {

/// At most this many model calls are made for one message.
pub const MAX_TOOL_TURNS: usize = 8;

/// At most this many tool calls are run in one turn.
pub const MAX_TOOL_CALLS: usize = 8;

/// The character of the decimal digit `d`.
pub open spec fn digit_char(d: nat) -> char {
    if d == 0 {
        '0'
    } else if d == 1 {
        '1'
    } else if d == 2 {
        '2'
    } else if d == 3 {
        '3'
    } else if d == 4 {
        '4'
    } else if d == 5 {
        '5'
    } else if d == 6 {
        '6'
    } else if d == 7 {
        '7'
    } else if d == 8 {
        '8'
    } else {
        '9'
    }
}

/// The decimal digits of `n`.
pub open spec fn decimal(n: nat) -> Seq<char>
    decreases n,
{
    if n < 10 {
        seq![digit_char(n)]
    } else {
        decimal(n / 10).push(digit_char(n % 10))
    }
}

/// `n` in decimal, as `format!("{}", n)` prints it.
pub fn to_decimal(n: usize) -> (r: String)
    ensures
        r@ == decimal(n as nat),
    decreases n,
{
    let d = n % 10;
    let c = if d == 0 {
        '0'
    } else if d == 1 {
        '1'
    } else if d == 2 {
        '2'
    } else if d == 3 {
        '3'
    } else if d == 4 {
        '4'
    } else if d == 5 {
        '5'
    } else if d == 6 {
        '6'
    } else if d == 7 {
        '7'
    } else if d == 8 {
        '8'
    } else {
        '9'
    };
    if n < 10 {
        let mut s = String::new();
        push_char(&mut s, c);
        assert(s@ =~= seq![digit_char(n as nat)]);
        s
    } else {
        let mut s = to_decimal(n / 10);
        push_char(&mut s, c);
        s
    }
}

/// The tool calls among the parts of a message, in order.
pub open spec fn tool_calls_of(parts: Seq<PartModel>) -> Seq<ToolCallModel>
    decreases parts.len(),
{
    if parts.len() == 0 {
        Seq::empty()
    } else {
        match parts.last() {
            PartModel::ToolCall(c) => tool_calls_of(parts.drop_last()).push(c),
            _ => tool_calls_of(parts.drop_last()),
        }
    }
}

/// The contents of a list of tool calls.
pub open spec fn calls_view(s: Seq<ToolCall>) -> Seq<ToolCallModel> {
    s.map_values(|c: ToolCall| c@)
}

/// The tool calls of a message, in order.
pub fn tool_calls(message: &ChatMessage) -> (r: Vec<ToolCall>)
    ensures
        calls_view(r@) == tool_calls_of(message@.content),
{
    let mut out: Vec<ToolCall> = Vec::new();
    let mut i: usize = 0;
    while i < message.content.len()
        invariant
            i <= message.content.len(),
            calls_view(out@) == tool_calls_of(parts_view(message.content@.subrange(0, i as int))),
        decreases message.content.len() - i,
    {
        let ghost before = out@;
        assert(parts_view(message.content@.subrange(0, i + 1)).drop_last() =~= parts_view(
            message.content@.subrange(0, i as int),
        ));
        match &message.content[i] {
            ContentPart::ToolCall(c) => {
                out.push(c.clone());
                assert(calls_view(out@) =~= calls_view(before).push(message.content@[i as int]->ToolCall_0@));
            },
            _ => {},
        }
        i = i + 1;
    }
    assert(message.content@.subrange(0, message.content@.len() as int) =~= message.content@);
    out
}

/// Where the loop stands.
#[derive(Debug, Clone, Copy, PartialEq, Eq, Structural)]
pub enum AgentPhase {
    /// The model is to be called (or is being streamed).
    Model,
    /// The tool calls of the turn are being run.
    Tools,
    /// The loop has stopped.
    Done,
}

/// What the caller reports.
#[derive(Debug)]
pub enum AgentInput {
    /// Cancellation was requested.
    Cancelled,
    /// The model could not be called, or its stream failed.
    Failed(String),
    /// A chunk of the streamed answer.
    Chunk(String),
    /// The stream ran out without its end event.
    StreamClosed,
    /// The stream's end event, with the assistant message that asks for tools, if any.
    StreamEnded(Option<ChatMessage>),
    /// The next tool may run (no cancellation was requested).
    ToolReady,
    /// A tool ran, with its output or error.
    ToolDone(Result<String, String>),
}

/// What the caller does next.
#[derive(Debug)]
pub enum AgentAction {
    /// Call the model with `request_messages` (checking for cancellation first).
    CallModel,
    /// Read the next event of the stream.
    ReadStream,
    /// Check for cancellation before the next tool, then report `ToolReady`.
    PrepareTool,
    /// Run this tool call and report `ToolDone`.
    RunTool(ToolCall),
    /// Nothing more; the loop is over.
    Stop,
}

/// The contents of a list of events.
pub open spec fn events_view(s: Seq<CompletionEvent>) -> Seq<EventModel> {
    s.map_values(|e: CompletionEvent| event_view(e))
}

/// The message reported when a turn asks for too many tools.
pub open spec fn too_many_tools(n: nat) -> Seq<char> {
    "Agent requested "@ + decimal(n) + " tools in one turn."@
}

/// An event that ends a generation: finished, cancelled or failed.
pub open spec fn is_terminal(e: EventModel) -> bool {
    e is Finished || e is Cancelled || e is Error
}

/// A chunk with no text.
pub open spec fn is_empty_chunk(e: EventModel) -> bool {
    e matches EventModel::Chunk(t) && t.len() == 0
}

/// What the events of one step may be, given the phase before and after it:
/// a stopped loop reports nothing and stays stopped; the step that stops the
/// loop reports a terminal event last and none before it; any other step
/// reports no terminal event; and no step reports an empty chunk.
pub open spec fn step_events(before: AgentPhase, after: AgentPhase, ev: Seq<EventModel>) -> bool {
    &&& before == AgentPhase::Done ==> ev.len() == 0 && after == AgentPhase::Done
    &&& (before != AgentPhase::Done && after == AgentPhase::Done) ==> {
        &&& ev.len() > 0
        &&& is_terminal(ev.last())
        &&& forall|i: int| 0 <= i < ev.len() - 1 ==> !is_terminal(#[trigger] ev[i])
    }
    &&& after != AgentPhase::Done ==> forall|i: int| 0 <= i < ev.len() ==> !is_terminal(#[trigger] ev[i])
    &&& forall|i: int| 0 <= i < ev.len() ==> !is_empty_chunk(#[trigger] ev[i])
}

/// The events of a run, step after step.
pub open spec fn run_events(steps: Seq<Seq<EventModel>>) -> Seq<EventModel>
    decreases steps.len(),
{
    if steps.len() == 0 {
        Seq::empty()
    } else {
        run_events(steps.drop_last()) + steps.last()
    }
}

/// Over a whole run of `step` from a loop that has not stopped: no empty chunk
/// is ever reported; while the loop runs no terminal event has been reported;
/// and once it has stopped, exactly one terminal event was reported, the last.
pub proof fn law_run_ends_with_one_terminal_event(phases: Seq<AgentPhase>, steps: Seq<Seq<EventModel>>)
    requires
        phases.len() == steps.len() + 1,
        phases[0] != AgentPhase::Done,
        forall|k: int| 0 <= k < steps.len() ==> step_events(phases[k], phases[k + 1], #[trigger] steps[k]),
    ensures
        ({
            let all = run_events(steps);
            &&& forall|i: int| 0 <= i < all.len() ==> !is_empty_chunk(#[trigger] all[i])
            &&& phases.last() != AgentPhase::Done ==> forall|i: int| 0 <= i < all.len() ==> !is_terminal(#[trigger] all[i])
            &&& phases.last() == AgentPhase::Done ==> {
                &&& all.len() > 0
                &&& is_terminal(all.last())
                &&& forall|i: int| 0 <= i < all.len() - 1 ==> !is_terminal(#[trigger] all[i])
            }
        }),
    decreases steps.len(),
{
    if steps.len() > 0 {
        let n = steps.len() - 1;
        let ph = phases.drop_last();
        let st = steps.drop_last();
        assert forall|k: int| 0 <= k < st.len() implies step_events(ph[k], ph[k + 1], #[trigger] st[k]) by {
            assert(steps[k] == st[k]);
        }
        law_run_ends_with_one_terminal_event(ph, st);
        let prev = run_events(st);
        let e = steps[n];
        assert(step_events(phases[n], phases[n + 1], steps[n]));
        let all = run_events(steps);
        assert(all == prev + e);
        assert forall|i: int| 0 <= i < all.len() implies !is_empty_chunk(#[trigger] all[i]) by {
            if i < prev.len() {
                assert(all[i] == prev[i]);
            } else {
                assert(all[i] == e[i - prev.len()]);
            }
        }
        if phases.last() != AgentPhase::Done {
            assert(ph.last() != AgentPhase::Done);
            assert forall|i: int| 0 <= i < all.len() implies !is_terminal(#[trigger] all[i]) by {
                if i < prev.len() {
                    assert(all[i] == prev[i]);
                } else {
                    assert(all[i] == e[i - prev.len()]);
                }
            }
        } else if ph.last() == AgentPhase::Done {
            assert(e.len() == 0);
            assert(all =~= prev);
        } else {
            assert(all.last() == e.last());
            assert forall|i: int| 0 <= i < all.len() - 1 implies !is_terminal(#[trigger] all[i]) by {
                if i < prev.len() {
                    assert(all[i] == prev[i]);
                } else {
                    assert(all[i] == e[i - prev.len()]);
                }
            }
        }
    }
}

/// The state of the loop.
#[derive(Debug)]
pub struct AgentLoop {
    /// The conversation sent to the model.
    pub request_messages: Vec<ChatMessage>,
    /// How many model calls were made.
    pub turn: usize,
    pub phase: AgentPhase,
    /// The assistant message of the current tool turn.
    pub assistant: Option<ChatMessage>,
    /// The tool calls of the current turn.
    pub calls: Vec<ToolCall>,
    /// The answers to the tool calls run so far.
    pub responses: Vec<ToolResponse>,
}

/// What one step produced: the events to report, and the next action.
#[derive(Debug)]
pub struct AgentStep {
    pub events: Vec<CompletionEvent>,
    pub action: AgentAction,
}

/// What a step of the loop does, from the loop `old` and the caller's report
/// `input` to the loop `new` and the step's events and next action.
pub open spec fn step_result(old: AgentLoop, input: AgentInput, new: AgentLoop, r: AgentStep) -> bool {
    &&& (new.wf())
    &&& (new.turn >= old.turn)
    &&& (r.action is CallModel ==> new.turn == old.turn + 1 && new.phase
        == AgentPhase::Model && new.turn < MAX_TOOL_TURNS)
    &&& (r.action is Stop ==> new.phase == AgentPhase::Done)
    &&& (step_events(old.phase, new.phase, events_view(r.events@)))
    &&& (old.phase == AgentPhase::Done ==> r.events@.len() == 0 && r.action is Stop
        && new.phase == AgentPhase::Done)
    &&& (old.phase != AgentPhase::Done ==> match input {
        AgentInput::Cancelled => events_view(r.events@) == seq![EventModel::Cancelled] && r.action is Stop,
        AgentInput::Failed(e) => events_view(r.events@) == seq![EventModel::Error(e@)] && r.action is Stop,
        AgentInput::Chunk(t) => events_view(r.events@) == (if t@.len() == 0 {
            Seq::<EventModel>::empty()
        } else {
            seq![EventModel::Chunk(t@)]
        }) && r.action is ReadStream && new == old,
        AgentInput::StreamClosed => events_view(r.events@) == seq![
            EventModel::Error("Stream ended without a terminal event."@),
        ] && r.action is Stop,
        AgentInput::StreamEnded(None) => events_view(r.events@) == seq![EventModel::Finished]
            && r.action is Stop,
        AgentInput::StreamEnded(Some(m)) => {
            let calls = tool_calls_of(m@.content);
            if calls.len() == 0 {
                events_view(r.events@) == seq![EventModel::Finished] && r.action is Stop
            } else if calls.len() > MAX_TOOL_CALLS {
                events_view(r.events@) == seq![EventModel::Error(too_many_tools(calls.len()))]
                    && r.action is Stop
            } else if old.phase == AgentPhase::Model {
                &&& r.events@.len() == 0
                &&& r.action is PrepareTool
                &&& new.phase == AgentPhase::Tools
                &&& calls_view(new.calls@) == calls
                &&& new.responses@.len() == 0
                &&& new.assistant == Some(m)
                &&& new.turn == old.turn
                &&& new.request_messages == old.request_messages
            } else {
                r.events@.len() == 0 && r.action is ReadStream && new == old
            }
        },
        AgentInput::ToolReady => if old.phase == AgentPhase::Tools {
            let k = old.responses@.len() as int;
            &&& events_view(r.events@) == seq![EventModel::ToolCallStarted(old.calls@[k].fn_name@)]
            &&& r.action matches AgentAction::RunTool(c) && c@ == old.calls@[k]@
            &&& new == old
        } else {
            r.events@.len() == 0 && r.action is ReadStream && new == old
        },
        AgentInput::ToolDone(res) => if old.phase == AgentPhase::Tools {
            let k = old.responses@.len() as int;
            let out = match res {
                Ok(s) => s@,
                Err(e) => "Tool execution error: "@ + e@,
            };
            if k + 1 < old.calls@.len() {
                &&& r.events@.len() == 0
                &&& r.action is PrepareTool
                &&& new.phase == AgentPhase::Tools
                &&& new.calls == old.calls
                &&& new.responses@.len() == k + 1
                &&& new.responses@.subrange(0, k) == old.responses@
                &&& new.responses@[k].call_id@ == old.calls@[k].call_id@
                &&& new.responses@[k].content@ == out
            } else {
                &&& new.turn == old.turn + 1
                &&& events_view(r.events@)[0] == EventModel::ToolTurnCompleted(calls_view(old.calls@))
                &&& new.request_messages@.len() == old.request_messages@.len() + 2
                &&& new.request_messages@.subrange(0, old.request_messages@.len() as int)
                    == old.request_messages@
                &&& Some(new.request_messages@[old.request_messages@.len() as int])
                    == old.assistant
                &&& new.request_messages@.last().role == ChatRole::Tool
                &&& new.request_messages@.last().content@.len() == old.calls@.len()
                &&& forall|i: int| 0 <= i < k ==> #[trigger] new.request_messages@.last().content@[i]@
                    == PartModel::ToolResponse(old.calls@[i].call_id@, old.responses@[i].content@)
                &&& new.request_messages@.last().content@[k]@ == PartModel::ToolResponse(
                    old.calls@[k].call_id@,
                    out,
                )
                &&& (new.turn < MAX_TOOL_TURNS ==> r.events@.len() == 1 && r.action is CallModel)
                &&& (new.turn >= MAX_TOOL_TURNS ==> events_view(r.events@) == seq![
                    EventModel::ToolTurnCompleted(calls_view(old.calls@)),
                    EventModel::Error("Agent stopped after reaching the maximum number of tool turns."@),
                ] && r.action is Stop)
            }
        } else {
            r.events@.len() == 0 && r.action is ReadStream && new == old
        },
    })
}

/// The clauses a step meets, taken together.
proof fn lemma_step_result(old: AgentLoop, input: AgentInput, new: AgentLoop, r: AgentStep)
    requires
        new.wf(),
        new.turn >= old.turn,
        r.action is CallModel ==> new.turn == old.turn + 1 && new.phase
            == AgentPhase::Model && new.turn < MAX_TOOL_TURNS,
        r.action is Stop ==> new.phase == AgentPhase::Done,
        step_events(old.phase, new.phase, events_view(r.events@)),
        old.phase == AgentPhase::Done ==> r.events@.len() == 0 && r.action is Stop
            && new.phase == AgentPhase::Done,
        old.phase != AgentPhase::Done ==> match input {
            AgentInput::Cancelled => events_view(r.events@) == seq![EventModel::Cancelled] && r.action is Stop,
            AgentInput::Failed(e) => events_view(r.events@) == seq![EventModel::Error(e@)] && r.action is Stop,
            AgentInput::Chunk(t) => events_view(r.events@) == (if t@.len() == 0 {
                Seq::<EventModel>::empty()
            } else {
                seq![EventModel::Chunk(t@)]
            }) && r.action is ReadStream && new == old,
            AgentInput::StreamClosed => events_view(r.events@) == seq![
                EventModel::Error("Stream ended without a terminal event."@),
            ] && r.action is Stop,
            AgentInput::StreamEnded(None) => events_view(r.events@) == seq![EventModel::Finished]
                && r.action is Stop,
            AgentInput::StreamEnded(Some(m)) => {
                let calls = tool_calls_of(m@.content);
                if calls.len() == 0 {
                    events_view(r.events@) == seq![EventModel::Finished] && r.action is Stop
                } else if calls.len() > MAX_TOOL_CALLS {
                    events_view(r.events@) == seq![EventModel::Error(too_many_tools(calls.len()))]
                        && r.action is Stop
                } else if old.phase == AgentPhase::Model {
                    &&& r.events@.len() == 0
                    &&& r.action is PrepareTool
                    &&& new.phase == AgentPhase::Tools
                    &&& calls_view(new.calls@) == calls
                    &&& new.responses@.len() == 0
                    &&& new.assistant == Some(m)
                    &&& new.turn == old.turn
                    &&& new.request_messages == old.request_messages
                } else {
                    r.events@.len() == 0 && r.action is ReadStream && new == old
                }
            },
            AgentInput::ToolReady => if old.phase == AgentPhase::Tools {
                let k = old.responses@.len() as int;
                &&& events_view(r.events@) == seq![EventModel::ToolCallStarted(old.calls@[k].fn_name@)]
                &&& r.action matches AgentAction::RunTool(c) && c@ == old.calls@[k]@
                &&& new == old
            } else {
                r.events@.len() == 0 && r.action is ReadStream && new == old
            },
            AgentInput::ToolDone(res) => if old.phase == AgentPhase::Tools {
                let k = old.responses@.len() as int;
                let out = match res {
                    Ok(s) => s@,
                    Err(e) => "Tool execution error: "@ + e@,
                };
                if k + 1 < old.calls@.len() {
                    &&& r.events@.len() == 0
                    &&& r.action is PrepareTool
                    &&& new.phase == AgentPhase::Tools
                    &&& new.calls == old.calls
                    &&& new.responses@.len() == k + 1
                    &&& new.responses@.subrange(0, k) == old.responses@
                    &&& new.responses@[k].call_id@ == old.calls@[k].call_id@
                    &&& new.responses@[k].content@ == out
                } else {
                    &&& new.turn == old.turn + 1
                    &&& events_view(r.events@)[0] == EventModel::ToolTurnCompleted(calls_view(old.calls@))
                    &&& new.request_messages@.len() == old.request_messages@.len() + 2
                    &&& new.request_messages@.subrange(0, old.request_messages@.len() as int)
                        == old.request_messages@
                    &&& Some(new.request_messages@[old.request_messages@.len() as int])
                        == old.assistant
                    &&& new.request_messages@.last().role == ChatRole::Tool
                    &&& new.request_messages@.last().content@.len() == old.calls@.len()
                    &&& forall|i: int| 0 <= i < k ==> #[trigger] new.request_messages@.last().content@[i]@
                        == PartModel::ToolResponse(old.calls@[i].call_id@, old.responses@[i].content@)
                    &&& new.request_messages@.last().content@[k]@ == PartModel::ToolResponse(
                        old.calls@[k].call_id@,
                        out,
                    )
                    &&& (new.turn < MAX_TOOL_TURNS ==> r.events@.len() == 1 && r.action is CallModel)
                    &&& (new.turn >= MAX_TOOL_TURNS ==> events_view(r.events@) == seq![
                        EventModel::ToolTurnCompleted(calls_view(old.calls@)),
                        EventModel::Error("Agent stopped after reaching the maximum number of tool turns."@),
                    ] && r.action is Stop)
                }
            } else {
                r.events@.len() == 0 && r.action is ReadStream && new == old
            },
        },
    ensures
        step_result(old, input, new, r),
{
}

impl AgentLoop {
    /// The loop's invariant: model calls stay within `MAX_TOOL_TURNS`, and a
    /// tool turn runs at most `MAX_TOOL_CALLS` calls, one response per call run.
    pub open spec fn wf(&self) -> bool {
        &&& self.turn <= MAX_TOOL_TURNS
        &&& self.phase == AgentPhase::Model ==> self.turn < MAX_TOOL_TURNS
        &&& self.phase == AgentPhase::Tools ==> {
            &&& 0 < self.calls@.len() <= MAX_TOOL_CALLS
            &&& self.responses@.len() < self.calls@.len()
            &&& forall|i: int| 0 <= i < self.responses@.len() ==> #[trigger] self.responses@[i].call_id@ == self.calls@[i].call_id@
            &&& self.assistant is Some
            &&& self.turn < MAX_TOOL_TURNS
        }
    }

    /// A loop about to make its first model call.
    pub fn new(request_messages: Vec<ChatMessage>) -> (r: (Self, AgentAction))
        ensures
            r.0.wf(),
            r.0.request_messages == request_messages,
            r.0.turn == 0,
            r.0.phase == AgentPhase::Model,
            r.1 is CallModel,
    {
        (
            AgentLoop {
                request_messages,
                turn: 0,
                phase: AgentPhase::Model,
                assistant: None,
                calls: Vec::new(),
                responses: Vec::new(),
            },
            AgentAction::CallModel,
        )
    }

    fn stop_with(&mut self, event: CompletionEvent) -> (r: AgentStep)
        requires
            old(self).wf(),
        ensures
            final(self).wf(),
            final(self).phase == AgentPhase::Done,
            final(self).turn == old(self).turn,
            r.events@ == seq![event],
            events_view(r.events@) == seq![event_view(event)],
            r.action is Stop,
    {
        self.phase = AgentPhase::Done;
        let mut events: Vec<CompletionEvent> = Vec::new();
        let ghost ev = event;
        events.push(event);
        assert(events@ =~= seq![ev]);
        assert(events_view(events@) =~= seq![event_view(ev)]);
        AgentStep { events, action: AgentAction::Stop }
    }

    /// The next tool call to announce and run.
    fn start_tool(&mut self) -> (r: AgentStep)
        requires
            old(self).wf(),
            old(self).phase == AgentPhase::Tools,
        ensures
            *final(self) == *old(self),
            events_view(r.events@) == seq![
                EventModel::ToolCallStarted(old(self).calls@[old(self).responses@.len() as int].fn_name@),
            ],
            r.action matches AgentAction::RunTool(c) && c@ == old(self).calls@[old(self).responses@.len() as int]@,
    {
        let i = self.responses.len();
        let call = self.calls[i].clone();
        let mut events: Vec<CompletionEvent> = Vec::new();
        events.push(CompletionEvent::ToolCallStarted { tool_name: call.fn_name.clone() });
        assert(events_view(events@) =~= seq![EventModel::ToolCallStarted(call.fn_name@)]);
        AgentStep { events, action: AgentAction::RunTool(call) }
    }

    /// Takes in what the caller reports and decides what comes next.
    pub fn step(&mut self, input: AgentInput) -> (r: AgentStep)
        requires
            old(self).wf(),
        ensures
            step_result(*old(self), input, *final(self), r),
    {
        let ghost before = *self;
        let ghost reported = input;
        let r = self.advance(input);
        proof {
            lemma_step_result(before, reported, *self, r);
        }
        r
    }

    /// The step itself, with its clauses one by one.
    fn advance(&mut self, input: AgentInput) -> (r: AgentStep)
        requires
            old(self).wf(),
        ensures
            final(self).wf(),
            final(self).turn >= old(self).turn,
            r.action is CallModel ==> final(self).turn == old(self).turn + 1 && final(self).phase
                == AgentPhase::Model && final(self).turn < MAX_TOOL_TURNS,
            r.action is Stop ==> final(self).phase == AgentPhase::Done,
            step_events(old(self).phase, final(self).phase, events_view(r.events@)),
            old(self).phase == AgentPhase::Done ==> r.events@.len() == 0 && r.action is Stop
                && final(self).phase == AgentPhase::Done,
            old(self).phase != AgentPhase::Done ==> match input {
                AgentInput::Cancelled => events_view(r.events@) == seq![EventModel::Cancelled] && r.action is Stop,
                AgentInput::Failed(e) => events_view(r.events@) == seq![EventModel::Error(e@)] && r.action is Stop,
                AgentInput::Chunk(t) => events_view(r.events@) == (if t@.len() == 0 {
                    Seq::<EventModel>::empty()
                } else {
                    seq![EventModel::Chunk(t@)]
                }) && r.action is ReadStream && *final(self) == *old(self),
                AgentInput::StreamClosed => events_view(r.events@) == seq![
                    EventModel::Error("Stream ended without a terminal event."@),
                ] && r.action is Stop,
                AgentInput::StreamEnded(None) => events_view(r.events@) == seq![EventModel::Finished]
                    && r.action is Stop,
                AgentInput::StreamEnded(Some(m)) => {
                    let calls = tool_calls_of(m@.content);
                    if calls.len() == 0 {
                        events_view(r.events@) == seq![EventModel::Finished] && r.action is Stop
                    } else if calls.len() > MAX_TOOL_CALLS {
                        events_view(r.events@) == seq![EventModel::Error(too_many_tools(calls.len()))]
                            && r.action is Stop
                    } else if old(self).phase == AgentPhase::Model {
                        &&& r.events@.len() == 0
                        &&& r.action is PrepareTool
                        &&& final(self).phase == AgentPhase::Tools
                        &&& calls_view(final(self).calls@) == calls
                        &&& final(self).responses@.len() == 0
                        &&& final(self).assistant == Some(m)
                        &&& final(self).turn == old(self).turn
                        &&& final(self).request_messages == old(self).request_messages
                    } else {
                        r.events@.len() == 0 && r.action is ReadStream && *final(self) == *old(self)
                    }
                },
                AgentInput::ToolReady => if old(self).phase == AgentPhase::Tools {
                    let k = old(self).responses@.len() as int;
                    &&& events_view(r.events@) == seq![EventModel::ToolCallStarted(old(self).calls@[k].fn_name@)]
                    &&& r.action matches AgentAction::RunTool(c) && c@ == old(self).calls@[k]@
                    &&& *final(self) == *old(self)
                } else {
                    r.events@.len() == 0 && r.action is ReadStream && *final(self) == *old(self)
                },
                AgentInput::ToolDone(res) => if old(self).phase == AgentPhase::Tools {
                    let k = old(self).responses@.len() as int;
                    let out = match res {
                        Ok(s) => s@,
                        Err(e) => "Tool execution error: "@ + e@,
                    };
                    if k + 1 < old(self).calls@.len() {
                        &&& r.events@.len() == 0
                        &&& r.action is PrepareTool
                        &&& final(self).phase == AgentPhase::Tools
                        &&& final(self).calls == old(self).calls
                        &&& final(self).responses@.len() == k + 1
                        &&& final(self).responses@.subrange(0, k) == old(self).responses@
                        &&& final(self).responses@[k].call_id@ == old(self).calls@[k].call_id@
                        &&& final(self).responses@[k].content@ == out
                    } else {
                        &&& final(self).turn == old(self).turn + 1
                        &&& events_view(r.events@)[0] == EventModel::ToolTurnCompleted(calls_view(old(self).calls@))
                        &&& final(self).request_messages@.len() == old(self).request_messages@.len() + 2
                        &&& final(self).request_messages@.subrange(0, old(self).request_messages@.len() as int)
                            == old(self).request_messages@
                        &&& Some(final(self).request_messages@[old(self).request_messages@.len() as int])
                            == old(self).assistant
                        &&& final(self).request_messages@.last().role == ChatRole::Tool
                        &&& final(self).request_messages@.last().content@.len() == old(self).calls@.len()
                        &&& forall|i: int| 0 <= i < k ==> #[trigger] final(self).request_messages@.last().content@[i]@
                            == PartModel::ToolResponse(old(self).calls@[i].call_id@, old(self).responses@[i].content@)
                        &&& final(self).request_messages@.last().content@[k]@ == PartModel::ToolResponse(
                            old(self).calls@[k].call_id@,
                            out,
                        )
                        &&& (final(self).turn < MAX_TOOL_TURNS ==> r.events@.len() == 1 && r.action is CallModel)
                        &&& (final(self).turn >= MAX_TOOL_TURNS ==> events_view(r.events@) == seq![
                            EventModel::ToolTurnCompleted(calls_view(old(self).calls@)),
                            EventModel::Error("Agent stopped after reaching the maximum number of tool turns."@),
                        ] && r.action is Stop)
                    }
                } else {
                    r.events@.len() == 0 && r.action is ReadStream && *final(self) == *old(self)
                },
            },
    {
        if self.phase == AgentPhase::Done {
            return AgentStep { events: Vec::new(), action: AgentAction::Stop };
        }
        match input {
            AgentInput::Cancelled => self.stop_with(CompletionEvent::Cancelled),
            AgentInput::Failed(e) => self.stop_with(CompletionEvent::Error(e)),
            AgentInput::Chunk(text) => {
                let mut events: Vec<CompletionEvent> = Vec::new();
                let ghost t = text@;
                if !text.as_str().is_empty() {
                    events.push(CompletionEvent::Chunk(text));
                    assert(events_view(events@) =~= seq![EventModel::Chunk(t)]);
                } else {
                    assert(events_view(events@) =~= Seq::<EventModel>::empty());
                }
                AgentStep { events, action: AgentAction::ReadStream }
            },
            AgentInput::StreamClosed => self.stop_with(
                CompletionEvent::Error(owned("Stream ended without a terminal event.")),
            ),
            AgentInput::StreamEnded(None) => self.stop_with(CompletionEvent::Finished),
            AgentInput::StreamEnded(Some(message)) => {
                let calls = tool_calls(&message);
                if calls.len() == 0 {
                    return self.stop_with(CompletionEvent::Finished);
                }
                if calls.len() > MAX_TOOL_CALLS {
                    let mut m = concat("Agent requested ", to_decimal(calls.len()).as_str());
                    m.append(" tools in one turn.");
                    assert(calls@.len() == calls_view(calls@).len());
                    return self.stop_with(CompletionEvent::Error(m));
                }
                if self.phase != AgentPhase::Model {
                    return AgentStep { events: Vec::new(), action: AgentAction::ReadStream };
                }
                self.assistant = Some(message);
                self.calls = calls;
                self.responses = Vec::new();
                self.phase = AgentPhase::Tools;
                AgentStep { events: Vec::new(), action: AgentAction::PrepareTool }
            },
            AgentInput::ToolReady => {
                if self.phase != AgentPhase::Tools {
                    return AgentStep { events: Vec::new(), action: AgentAction::ReadStream };
                }
                self.start_tool()
            },
            AgentInput::ToolDone(result) => {
                if self.phase != AgentPhase::Tools {
                    return AgentStep { events: Vec::new(), action: AgentAction::ReadStream };
                }
                let i = self.responses.len();
                let output = match result {
                    Ok(s) => s,
                    Err(e) => concat("Tool execution error: ", e.as_str()),
                };
                let call_id = self.calls[i].call_id.clone();
                let ghost before = self.responses@;
                self.responses.push(ToolResponse { call_id, content: output });
                assert(self.responses@.subrange(0, i as int) =~= before);
                if self.responses.len() < self.calls.len() {
                    return AgentStep { events: Vec::new(), action: AgentAction::PrepareTool };
                }
                self.finish_turn()
            },
        }
    }

    /// All tools of the turn ran: report them, extend the conversation with the
    /// assistant's message and the tool answers, and call the model again
    /// unless the turns are used up.
    fn finish_turn(&mut self) -> (r: AgentStep)
        requires
            old(self).phase == AgentPhase::Tools,
            old(self).turn < MAX_TOOL_TURNS,
            old(self).assistant is Some,
            old(self).responses@.len() == old(self).calls@.len(),
            0 < old(self).calls@.len() <= MAX_TOOL_CALLS,
            forall|i: int| 0 <= i < old(self).responses@.len() ==> #[trigger] old(self).responses@[i].call_id@ == old(self).calls@[i].call_id@,
        ensures
            final(self).wf(),
            forall|i: int| 0 <= i < old(self).calls@.len() ==> #[trigger] final(self).request_messages@.last().content@[i]@
                == PartModel::ToolResponse(old(self).calls@[i].call_id@, old(self).responses@[i].content@),
            final(self).turn == old(self).turn + 1,
            r.action is CallModel ==> final(self).phase == AgentPhase::Model,
            r.action is Stop ==> final(self).phase == AgentPhase::Done,
            r.action is CallModel || r.action is Stop,
            events_view(r.events@)[0] == EventModel::ToolTurnCompleted(calls_view(old(self).calls@)),
            final(self).request_messages@ == old(self).request_messages@.push(old(self).assistant->0).push(
                final(self).request_messages@.last(),
            ),
            final(self).request_messages@.last().role == ChatRole::Tool,
            final(self).request_messages@.last().content@.len() == old(self).calls@.len(),
            final(self).turn < MAX_TOOL_TURNS ==> r.events@.len() == 1 && r.action is CallModel,
            final(self).turn >= MAX_TOOL_TURNS ==> events_view(r.events@) == seq![
                EventModel::ToolTurnCompleted(calls_view(old(self).calls@)),
                EventModel::Error("Agent stopped after reaching the maximum number of tool turns."@),
            ] && r.action is Stop,
    {
        let mut calls: Vec<ToolCall> = Vec::new();
        std::mem::swap(&mut calls, &mut self.calls);
        let mut responses: Vec<ToolResponse> = Vec::new();
        std::mem::swap(&mut responses, &mut self.responses);
        let mut events: Vec<CompletionEvent> = Vec::new();
        let ghost ncalls = calls_view(calls@);
        events.push(CompletionEvent::ToolTurnCompleted { tool_calls: calls });
        assert(calls_view(calls@) =~= calls@.map_values(|c: ToolCall| c@));
        assert(event_view(events@[0]) == EventModel::ToolTurnCompleted(ncalls));
        let assistant = self.assistant.take().unwrap();
        self.request_messages.push(assistant);
        self.request_messages.push(tool_responses_message(responses));
        self.turn = self.turn + 1;
        if self.turn >= MAX_TOOL_TURNS {
            self.phase = AgentPhase::Done;
            events.push(
                CompletionEvent::Error(
                    owned("Agent stopped after reaching the maximum number of tool turns."),
                ),
            );
            assert(events_view(events@) =~= seq![
                EventModel::ToolTurnCompleted(ncalls),
                EventModel::Error("Agent stopped after reaching the maximum number of tool turns."@),
            ]);
            return AgentStep { events, action: AgentAction::Stop };
        }
        self.phase = AgentPhase::Model;
        AgentStep { events, action: AgentAction::CallModel }
    }
}

/// The message that answers tool calls: role `Tool`, one part per answer.
pub fn tool_responses_message(responses: Vec<ToolResponse>) -> (r: ChatMessage)
    ensures
        r.role == ChatRole::Tool,
        r.content@.len() == responses@.len(),
        forall|i: int| 0 <= i < responses@.len() ==> #[trigger] r.content@[i]@ == PartModel::ToolResponse(
            responses@[i].call_id@,
            responses@[i].content@,
        ),
{
    let mut content: Vec<ContentPart> = Vec::new();
    let ghost orig = responses@;
    for x in it: responses.into_iter()
        invariant
            it.seq() == orig,
            content@.len() == it.index(),
            forall|i: int| 0 <= i < it.index() ==> #[trigger] content@[i]@ == PartModel::ToolResponse(
                orig[i].call_id@,
                orig[i].content@,
            ),
    {
        content.push(ContentPart::ToolResponse(x));
    }
    ChatMessage { role: ChatRole::Tool, content }
}


/// Whether the caller's report answers the action the loop asked for: the
/// model's stream is read after `CallModel` and `ReadStream`, a tool is
/// started (or cancellation seen) after `PrepareTool`, and the tool's outcome
/// comes after `RunTool`.
pub open spec fn answers(action: AgentAction, input: AgentInput) -> bool {
    match action {
        AgentAction::CallModel => !(input is ToolReady) && !(input is ToolDone),
        AgentAction::ReadStream => !(input is ToolReady) && !(input is ToolDone),
        AgentAction::PrepareTool => input is ToolReady || input is Cancelled,
        AgentAction::RunTool(_) => input is ToolDone,
        AgentAction::Stop => true,
    }
}

/// The events end with the start of the first `k` of `calls`, in order.
pub open spec fn ends_with_starts(ev: Seq<EventModel>, calls: Seq<ToolCallModel>, k: int) -> bool {
    &&& 0 <= k <= calls.len()
    &&& k <= ev.len()
    &&& forall|m: int| 0 <= m < k ==> #[trigger] ev[ev.len() - k + m] == EventModel::ToolCallStarted(calls[m].fn_name)
}

/// Every completed tool turn comes right after the starts of its calls, in
/// order.
pub open spec fn turns_follow_starts(ev: Seq<EventModel>) -> bool {
    forall|j: int| 0 <= j < ev.len() ==> match #[trigger] ev[j] {
        EventModel::ToolTurnCompleted(calls) => ends_with_starts(ev.take(j), calls, calls.len() as int),
        _ => true,
    }
}

/// The events of each step of a run.
pub open spec fn steps_events(steps: Seq<AgentStep>) -> Seq<Seq<EventModel>> {
    steps.map_values(|s: AgentStep| events_view(s.events@))
}

/// A run of `step` from a new loop whose caller answers each action.
pub open spec fn answered_run(states: Seq<AgentLoop>, inputs: Seq<AgentInput>, steps: Seq<AgentStep>) -> bool {
    &&& states.len() == inputs.len() + 1
    &&& steps.len() == inputs.len()
    &&& states[0].wf()
    &&& states[0].phase == AgentPhase::Model
    &&& forall|k: int| 0 <= k < inputs.len() ==> #[trigger] step_result(states[k], inputs[k], states[k + 1], steps[k])
    &&& inputs.len() > 0 ==> answers(AgentAction::CallModel, inputs[0])
    &&& forall|k: int| 1 <= k < inputs.len() ==> #[trigger] answers(steps[k - 1].action, inputs[k])
}

proof fn lemma_turns_prefix(states: Seq<AgentLoop>, inputs: Seq<AgentInput>, steps: Seq<AgentStep>, n: int)
    requires
        answered_run(states, inputs, steps),
        0 <= n <= inputs.len(),
    ensures
        ({
            let ev = run_events(steps_events(steps).take(n));
            let s = states[n];
            &&& turns_follow_starts(ev)
            &&& s.phase == AgentPhase::Tools ==> n > 0 && match steps[n - 1].action {
                AgentAction::PrepareTool => ends_with_starts(ev, calls_view(s.calls@), s.responses@.len() as int),
                AgentAction::RunTool(_) => ends_with_starts(ev, calls_view(s.calls@), (s.responses@.len() + 1) as int),
                _ => false,
            }
        }),
    decreases n,
{
    let all = steps_events(steps);
    if n == 0 {
        assert(all.take(0) =~= Seq::<Seq<EventModel>>::empty());
        assert(run_events(all.take(0)) =~= Seq::<EventModel>::empty());
    } else {
        let k = n - 1;
        lemma_turns_prefix(states, inputs, steps, k);
        let prev = run_events(all.take(k));
        let e = all[k];
        assert(all.take(n).drop_last() =~= all.take(k));
        let ev = run_events(all.take(n));
        assert(ev == prev + e);
        let s = states[k];
        let t = states[n];
        let input = inputs[k];
        assert(step_result(states[k], inputs[k], states[k + 1], steps[k]));
        assert(states[k + 1] == t);
        assert(e == events_view(steps[k].events@));
        if k > 0 {
            assert(answers(steps[k - 1].action, inputs[k]));
        }
        assert forall|j: int| 0 <= j < prev.len() implies #[trigger] ev[j] == prev[j] by {}
        assert forall|j: int| 0 <= j <= prev.len() implies #[trigger] ev.take(j) == prev.take(j) by {
            assert(ev.take(j) =~= prev.take(j));
        }
        // Which events this step adds, and where the loop goes.
        let c = calls_view(s.calls@);
        let kk = s.responses@.len() as int;
        if s.phase == AgentPhase::Tools {
            if input is ToolDone && kk + 1 == s.calls@.len() {
                assert(e[0] == EventModel::ToolTurnCompleted(c));
                assert(ends_with_starts(prev, c, c.len() as int));
                assert(ev[prev.len() as int] == EventModel::ToolTurnCompleted(c));
                assert(ev.take(prev.len() as int) =~= prev);
                assert forall|j: int| 0 <= j < ev.len() implies match #[trigger] ev[j] {
                    EventModel::ToolTurnCompleted(calls) => ends_with_starts(ev.take(j), calls, calls.len() as int),
                    _ => true,
                } by {
                    if j < prev.len() {
                        assert(ev.take(j) == prev.take(j));
                    } else if j > prev.len() {
                        assert(e.len() == 2);
                        assert(ev[j] == e[1]);
                    }
                }
            } else if input is ToolReady {
                let name = c[kk].fn_name;
                assert(e == seq![EventModel::ToolCallStarted(name)]);
                assert(t == s);
                assert forall|j: int| 0 <= j < ev.len() implies match #[trigger] ev[j] {
                    EventModel::ToolTurnCompleted(calls) => ends_with_starts(ev.take(j), calls, calls.len() as int),
                    _ => true,
                } by {
                    if j < prev.len() {
                        assert(ev.take(j) == prev.take(j));
                    } else {
                        assert(ev[j] == e[0]);
                    }
                }
                assert forall|m: int| 0 <= m < kk + 1 implies #[trigger] ev[ev.len() - (kk + 1) + m] == EventModel::ToolCallStarted(c[m].fn_name) by {
                    if m < kk {
                        assert(ev[ev.len() - (kk + 1) + m] == prev[prev.len() - kk + m]);
                    }
                }
            } else if input is ToolDone {
                assert(e.len() == 0);
                assert(ev =~= prev);
                assert(calls_view(t.calls@) == c);
            } else {
                assert(e.len() == 1);
                assert(!(e[0] is ToolTurnCompleted));
                assert forall|j: int| 0 <= j < ev.len() implies match #[trigger] ev[j] {
                    EventModel::ToolTurnCompleted(calls) => ends_with_starts(ev.take(j), calls, calls.len() as int),
                    _ => true,
                } by {
                    if j < prev.len() {
                        assert(ev.take(j) == prev.take(j));
                    } else {
                        assert(ev[j] == e[0]);
                    }
                }
            }
        } else {
            assert(forall|i: int| 0 <= i < e.len() ==> !(#[trigger] e[i] is ToolTurnCompleted)) by {
                if s.phase != AgentPhase::Done {
                    match input {
                        AgentInput::StreamEnded(Some(m)) => {},
                        _ => {},
                    }
                }
            }
            assert forall|j: int| 0 <= j < ev.len() implies match #[trigger] ev[j] {
                EventModel::ToolTurnCompleted(calls) => ends_with_starts(ev.take(j), calls, calls.len() as int),
                _ => true,
            } by {
                if j < prev.len() {
                    assert(ev.take(j) == prev.take(j));
                } else {
                    assert(ev[j] == e[j - prev.len()]);
                }
            }
        }
    }
}

/// Over a run of `step` whose caller answers each action, every completed tool
/// turn is reported right after the starts of its tool calls, one per call, in
/// the order of the calls.
pub proof fn law_tool_turns_follow_their_starts(states: Seq<AgentLoop>, inputs: Seq<AgentInput>, steps: Seq<AgentStep>)
    requires
        answered_run(states, inputs, steps),
    ensures
        turns_follow_starts(run_events(steps_events(steps))),
{
    lemma_turns_prefix(states, inputs, steps, inputs.len() as int);
    assert(steps_events(steps).take(inputs.len() as int) =~= steps_events(steps));
}

} // verus!
