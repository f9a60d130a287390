//! The loop that drives a conversation: a state machine that is told what
//! happened outside and answers with what is to be done next.
//!
//! The caller performs the outside work. It sends the request, reads the
//! stream line by line and runs the capabilities, and hands each result to
//! [`Orchestrator::step`], which gives the next [`Action`] and the
//! [`ProgressEvent`]s to pass on to the observer, in their order.

use crate::accumulator::{
    absorb_delta, dispatches, empty_turn, frozen, FinishReason, TurnAccumulator, TurnView,
};
use crate::frame::{
    frame_of, frame_view, parse_frame, FrameDecodeError, ParsedFrame, ParsedFrameView,
};
use crate::json::json_text;
use crate::message::{
    answers, assistants_meet, call_views, duplicate_calls, message_views, no_adjacent_assistants,
    requestable, text_view, tool_message, Message, MessageView, Role, ToolCallRequest,
    ToolCallView,
};
use crate::text::{joined, name_views};
use crate::tools::{
    encode_result, outcome_view, plan, plan_of, result_content, tool_schemas, tools_tree,
    Invocation, InvocationView, Plan, PlanView, ToolError, ToolErrorView,
};
use crate::wire::{encode_request, request_tree};
use vstd::prelude::*;

verus! {

/// Where the loop stands.
#[derive(Clone, Copy, Debug, PartialEq, Eq, Structural)]
pub enum Phase {
    /// A request is to be sent, or its answer is awaited.
    Requesting,
    /// The stream is open and nothing of the turn has arrived.
    Streaming,
    /// Part of the turn has arrived.
    Accumulating,
    /// The capabilities that the turn asked for are being run.
    Executing,
    /// The model gave its final answer.
    Done,
    /// The run ended with an error.
    Failed,
}

/// Why no answer came from the service.
#[derive(Clone, Debug, PartialEq, Eq)]
pub enum TransportError {
    /// The call could not be established.
    Unreachable(String),
    /// The service answered with a status that is no success.
    Status(u16),
    /// The stream broke off.
    Interrupted(String),
}

/// What ends a run without an answer.
#[derive(Clone, Debug, PartialEq, Eq)]
pub enum OrchestratorError {
    Transport(TransportError),
    Cancelled,
}

/// What an [`OrchestratorError`] holds.
pub enum ErrorView {
    Unreachable(Seq<char>),
    Status(u16),
    Interrupted(Seq<char>),
    Cancelled,
}

impl View for OrchestratorError {
    type V = ErrorView;

    open spec fn view(&self) -> ErrorView {
        match self {
            OrchestratorError::Transport(TransportError::Unreachable(reason)) => ErrorView::Unreachable(
                reason@,
            ),
            OrchestratorError::Transport(TransportError::Status(status)) => ErrorView::Status(
                *status,
            ),
            OrchestratorError::Transport(TransportError::Interrupted(reason)) => ErrorView::Interrupted(
                reason@,
            ),
            OrchestratorError::Cancelled => ErrorView::Cancelled,
        }
    }
}

/// What happened outside.
#[derive(Debug, PartialEq, Eq)]
pub enum Event {
    /// The service answered the request with this status.
    Opened { status: u16 },
    /// The request could not be made.
    Unreachable { reason: String },
    /// The stream delivered a line.
    Frame { line: String },
    /// The stream ended.
    Closed,
    /// The stream broke off.
    Interrupted { reason: String },
    /// The capability that was invoked has finished.
    ToolFinished { outcome: Result<String, ToolError> },
    /// The caller gives the run up.
    Cancelled,
    /// The observer took no notice of the last events, or is gone.
    ObserverLost,
}

/// What an [`Event`] holds.
pub enum EventView {
    Opened { status: u16 },
    Unreachable { reason: Seq<char> },
    Frame { line: Seq<char> },
    Closed,
    Interrupted { reason: Seq<char> },
    ToolFinished { outcome: Result<Seq<char>, ToolErrorView> },
    Cancelled,
    ObserverLost,
}

impl View for Event {
    type V = EventView;

    open spec fn view(&self) -> EventView {
        match self {
            Event::Opened { status } => EventView::Opened { status: *status },
            Event::Unreachable { reason } => EventView::Unreachable { reason: reason@ },
            Event::Frame { line } => EventView::Frame { line: line@ },
            Event::Closed => EventView::Closed,
            Event::Interrupted { reason } => EventView::Interrupted { reason: reason@ },
            Event::ToolFinished { outcome } => EventView::ToolFinished {
                outcome: outcome_view(*outcome),
            },
            Event::Cancelled => EventView::Cancelled,
            Event::ObserverLost => EventView::ObserverLost,
        }
    }
}

/// What the caller is to do next.
#[derive(Clone, Debug, PartialEq, Eq)]
pub enum Action {
    /// Send the history to the service and report how it answered.
    SendRequest,
    /// Read the next line of the stream and report it.
    ReadFrame,
    /// Do this work and report its result.
    Invoke(Invocation),
    /// The run has succeeded; nothing is left to do.
    Finish,
    /// The run has failed; nothing is left to do.
    Abort,
    /// Nothing new: go on with what is outstanding.
    Continue,
}

/// What an [`Action`] holds.
pub enum ActionView {
    SendRequest,
    ReadFrame,
    Invoke(InvocationView),
    Finish,
    Abort,
    Continue,
}

impl View for Action {
    type V = ActionView;

    open spec fn view(&self) -> ActionView {
        match self {
            Action::SendRequest => ActionView::SendRequest,
            Action::ReadFrame => ActionView::ReadFrame,
            Action::Invoke(invocation) => ActionView::Invoke(invocation@),
            Action::Finish => ActionView::Finish,
            Action::Abort => ActionView::Abort,
            Action::Continue => ActionView::Continue,
        }
    }
}

/// What the observer is told.
#[derive(Clone, Debug, PartialEq, Eq)]
pub enum ProgressEvent {
    /// The run has begun.
    Started,
    /// Text of the assistant has arrived, or a capability is being run.
    Delta { role: Role, content: Option<String>, tool_names: Option<Vec<String>> },
    /// The run has succeeded.
    Finished { summary: String },
    /// The run has failed.
    Error { message: String },
}

/// What a [`ProgressEvent`] holds.
pub enum ProgressView {
    Started,
    Delta { role: Role, content: Option<Seq<char>>, tool_names: Option<Seq<Seq<char>>> },
    Finished { summary: Seq<char> },
    Error { message: Seq<char> },
}

impl View for ProgressEvent {
    type V = ProgressView;

    open spec fn view(&self) -> ProgressView {
        match self {
            ProgressEvent::Started => ProgressView::Started,
            ProgressEvent::Delta { role, content, tool_names } => ProgressView::Delta {
                role: *role,
                content: text_view(*content),
                tool_names: match tool_names {
                    Some(names) => Some(name_views(names@)),
                    None => None,
                },
            },
            ProgressEvent::Finished { summary } => ProgressView::Finished { summary: summary@ },
            ProgressEvent::Error { message } => ProgressView::Error { message: message@ },
        }
    }
}

/// The events of a list, each by what it holds.
pub open spec fn progress_views(events: Seq<ProgressEvent>) -> Seq<ProgressView> {
    events.map_values(|event: ProgressEvent| event@)
}

/// The answer to one event.
#[derive(Clone, Debug, PartialEq, Eq)]
pub struct Step {
    pub action: Action,
    /// What to tell the observer, in this order.
    pub events: Vec<ProgressEvent>,
}

/// What a [`Step`] holds.
pub struct StepView {
    pub action: ActionView,
    pub events: Seq<ProgressView>,
}

impl View for Step {
    type V = StepView;

    open spec fn view(&self) -> StepView {
        StepView { action: self.action@, events: progress_views(self.events@) }
    }
}

/// The state of a run.
#[verifier::ext_equal]
pub struct Model {
    pub phase: Phase,
    /// The conversation so far.
    pub history: Seq<MessageView>,
    /// What has arrived of the current turn.
    pub turn: TurnView,
    /// The requests of the last turn that asked for capabilities.
    pub asked: Seq<ToolCallView>,
    /// How many of them have their tool message in the history.
    pub answered: nat,
    /// The root of the workspace.
    pub root: Seq<char>,
    pub failure: Option<ErrorView>,
}

/// A state and what is done on reaching it.
#[verifier::ext_equal]
pub struct Outcome {
    pub next: Model,
    pub action: ActionView,
    pub events: Seq<ProgressView>,
}

/// The history ends with the assistant message that made the requests
/// `asked` and, behind it, the answers to the first `answered` of them, one
/// tool message each, in the order of the requests.
pub open spec fn round_recorded(
    history: Seq<MessageView>,
    asked: Seq<ToolCallView>,
    answered: nat,
) -> bool {
    &&& answered <= asked.len()
    &&& history.len() >= answered + 1
    &&& history[history.len() - answered - 1].role == Role::Assistant
    &&& history[history.len() - answered - 1].tool_calls == Some(asked)
    &&& forall|j: int|
        0 <= j < answered ==> answers(history[history.len() - answered + j], #[trigger] asked[j])
}

impl Model {
    /// What holds of every state that a run reaches.
    pub open spec fn wf(self) -> bool {
        &&& no_adjacent_assistants(self.history)
        &&& (self.failure is Some <==> self.phase == Phase::Failed)
        &&& match self.phase {
            Phase::Requesting => {
                &&& requestable(self.history)
                &&& self.turn == empty_turn()
                &&& self.asked.len() > 0 ==> self.answered == self.asked.len() && round_recorded(
                    self.history,
                    self.asked,
                    self.answered,
                )
            },
            Phase::Streaming => requestable(self.history) && self.turn == empty_turn(),
            Phase::Accumulating => requestable(self.history),
            Phase::Executing => {
                &&& self.turn == empty_turn()
                &&& self.answered < self.asked.len()
                &&& round_recorded(self.history, self.asked, self.answered)
                &&& plan_of(self.asked[self.answered as int], self.root) is Invoke
            },
            Phase::Done => {
                &&& self.turn == empty_turn()
                &&& self.history.len() > 0
                &&& self.history.last().role == Role::Assistant
                &&& self.history.last().tool_calls is None
            },
            Phase::Failed => true,
        }
    }
}

/// The state that a run starts in.
pub open spec fn initial(history: Seq<MessageView>, root: Seq<char>) -> Model {
    Model {
        phase: Phase::Requesting,
        history,
        turn: empty_turn(),
        asked: Seq::empty(),
        answered: 0,
        root,
        failure: None,
    }
}

/// What the observer reads of an error.
pub open spec fn failure_text(error: ErrorView) -> Seq<char> {
    match error {
        ErrorView::Unreachable(reason) => "Request error: "@ + reason,
        ErrorView::Status(_) => "Request error: the service refused the request"@,
        ErrorView::Interrupted(reason) => "stream error: "@ + reason,
        ErrorView::Cancelled => "cancelled"@,
    }
}

/// What the observer reads when a run has succeeded.
pub open spec fn finished_summary() -> Seq<char> {
    "done"@
}

/// Whether a status of the service is a success.
pub open spec fn is_success(status: u16) -> bool {
    200 <= status < 300
}

/// The run fails: the history stays as it is, and the observer is told once.
pub open spec fn failed(model: Model, error: ErrorView) -> Outcome {
    Outcome {
        next: Model { phase: Phase::Failed, failure: Some(error), ..model },
        action: ActionView::Abort,
        events: seq![ProgressView::Error { message: failure_text(error) }],
    }
}

/// An event that changes nothing.
pub open spec fn ignored(model: Model) -> Outcome {
    Outcome {
        next: model,
        action: match model.phase {
            Phase::Done => ActionView::Finish,
            Phase::Failed => ActionView::Abort,
            _ => ActionView::Continue,
        },
        events: Seq::empty(),
    }
}

/// What the observer is told when a capability is about to run.
pub open spec fn tool_notice(call: ToolCallView) -> ProgressView {
    ProgressView::Delta { role: Role::Tool, content: None, tool_names: Some(seq![call.name]) }
}

/// What the observer is told when text of the assistant has arrived.
pub open spec fn text_notice(text: Seq<char>) -> ProgressView {
    ProgressView::Delta { role: Role::Assistant, content: Some(text), tool_names: None }
}

/// The requests that are left are taken one by one, in their order. One that
/// can be answered at once gets its tool message, and the next is taken; one
/// that needs work is handed to the caller. When none is left, the next
/// request to the service is due.
pub open spec fn dispatched(model: Model) -> Outcome
    decreases model.asked.len() - model.answered,
{
    if model.answered >= model.asked.len() {
        Outcome {
            next: Model { phase: Phase::Requesting, ..model },
            action: ActionView::SendRequest,
            events: Seq::empty(),
        }
    } else {
        let call = model.asked[model.answered as int];
        match plan_of(call, model.root) {
            PlanView::Invoke(invocation) => Outcome {
                next: Model { phase: Phase::Executing, ..model },
                action: ActionView::Invoke(invocation),
                events: seq![tool_notice(call)],
            },
            PlanView::Reply(content) => {
                let rest = dispatched(
                    Model {
                        history: model.history.push(tool_message(call, content)),
                        answered: model.answered + 1,
                        ..model
                    },
                );
                Outcome { events: seq![tool_notice(call)] + rest.events, ..rest }
            },
        }
    }
}

/// The capability that was invoked has finished: its result becomes the
/// tool message of the request, and the requests that are left follow.
pub open spec fn answered(model: Model, outcome: Result<Seq<char>, ToolErrorView>) -> Outcome {
    dispatched(
        Model {
            history: model.history.push(
                tool_message(model.asked[model.answered as int], result_content(outcome)),
            ),
            answered: model.answered + 1,
            ..model
        },
    )
}

/// The round ends: the turn is frozen into the assistant's message, which
/// joins the history. Where it asks for capabilities they are run; where it
/// does not, the run is done.
pub open spec fn completed(model: Model, reason: Option<FinishReason>) -> Outcome {
    let history = model.history.push(frozen(model.turn, reason).message);
    if dispatches(model.turn, reason) {
        dispatched(
            Model { history, turn: empty_turn(), asked: model.turn.calls, answered: 0, ..model },
        )
    } else {
        Outcome {
            next: Model { phase: Phase::Done, history, turn: empty_turn(), ..model },
            action: ActionView::Finish,
            events: seq![ProgressView::Finished { summary: finished_summary() }],
        }
    }
}

/// A line of the stream has been read. A line without payload and a line
/// whose payload cannot be used are passed over; the sentinel ends the round;
/// a chunk is taken into the turn and, where it says so, ends the round.
pub open spec fn absorbed(
    model: Model,
    frame: Result<ParsedFrameView, FrameDecodeError>,
) -> Outcome {
    match frame {
        Ok(ParsedFrameView::Decoded(delta)) => {
            let taken = Model {
                phase: Phase::Accumulating,
                turn: absorb_delta(model.turn, delta),
                ..model
            };
            let told = match delta.text {
                Some(text) => seq![text_notice(text)],
                None => Seq::empty(),
            };
            match delta.finish {
                Some(reason) => {
                    let rest = completed(taken, Some(reason));
                    Outcome { events: told + rest.events, ..rest }
                },
                None => Outcome { next: taken, action: ActionView::ReadFrame, events: told },
            }
        },
        Ok(ParsedFrameView::Terminator) => completed(model, None),
        _ => Outcome { next: model, action: ActionView::ReadFrame, events: Seq::empty() },
    }
}

/// A line of the stream has arrived: it is read, and what it is decides.
pub open spec fn framed(model: Model, line: Seq<char>) -> Outcome {
    absorbed(model, frame_of(line))
}

/// The step for a line that the caller has read already: it counts while a
/// stream is open and changes nothing otherwise.
pub open spec fn parsed_step_of(
    model: Model,
    frame: Result<ParsedFrameView, FrameDecodeError>,
) -> Outcome {
    match model.phase {
        Phase::Streaming | Phase::Accumulating => absorbed(model, frame),
        _ => ignored(model),
    }
}

/// The state after an event, what the caller is to do next, and what the
/// observer is told.
///
/// A run that is done or has failed stays as it is. Before that the caller
/// may cancel at any time, and the loss of the observer changes nothing.
/// Every other event counts only in the phase that waits for it.
pub open spec fn step_of(model: Model, event: EventView) -> Outcome {
    match model.phase {
        Phase::Done | Phase::Failed => ignored(model),
        Phase::Requesting => match event {
            EventView::Cancelled => failed(model, ErrorView::Cancelled),
            EventView::Opened { status } => if is_success(status) {
                Outcome {
                    next: Model { phase: Phase::Streaming, ..model },
                    action: ActionView::ReadFrame,
                    events: Seq::empty(),
                }
            } else {
                failed(model, ErrorView::Status(status))
            },
            EventView::Unreachable { reason } => failed(model, ErrorView::Unreachable(reason)),
            _ => ignored(model),
        },
        Phase::Streaming | Phase::Accumulating => match event {
            EventView::Cancelled => failed(model, ErrorView::Cancelled),
            EventView::Frame { line } => framed(model, line),
            EventView::Closed => completed(model, None),
            EventView::Interrupted { reason } => failed(model, ErrorView::Interrupted(reason)),
            _ => ignored(model),
        },
        Phase::Executing => match event {
            EventView::Cancelled => failed(model, ErrorView::Cancelled),
            EventView::ToolFinished { outcome } => answered(model, outcome),
            _ => ignored(model),
        },
    }
}

/// The body of the request that is sent for a history.
pub open spec fn request_text(model_name: Seq<char>, history: Seq<MessageView>) -> Seq<char> {
    json_text(request_tree(model_name, history, tools_tree()))
}

/// Whether an action is the one that a state waits for: a request is due
/// only between rounds, a line is read only while a stream is open, work is
/// asked for only for the request that is next in its round, and the run is
/// given back only when it has ended.
pub open spec fn fits(action: ActionView, model: Model) -> bool {
    match action {
        ActionView::SendRequest => model.phase == Phase::Requesting,
        ActionView::ReadFrame => model.phase == Phase::Streaming || model.phase
            == Phase::Accumulating,
        ActionView::Invoke(invocation) => model.phase == Phase::Executing && model.answered
            < model.asked.len() && plan_of(model.asked[model.answered as int], model.root)
            == PlanView::Invoke(invocation),
        ActionView::Finish => model.phase == Phase::Done,
        ActionView::Abort => model.phase == Phase::Failed,
        ActionView::Continue => model.phase != Phase::Done && model.phase != Phase::Failed,
    }
}

/// A message may join a history that is in order, unless it would stand as
/// an assistant message behind another.
pub proof fn lemma_push_keeps_order(history: Seq<MessageView>, message: MessageView)
    requires
        no_adjacent_assistants(history),
        history.len() == 0 || history.last().role != Role::Assistant || message.role
            != Role::Assistant,
    ensures
        no_adjacent_assistants(history.push(message)),
{
    let longer = history.push(message);
    assert forall|i: int| 0 <= i < longer.len() - 1 implies !#[trigger] assistants_meet(
        longer,
        i,
    ) by {
        if i < history.len() - 1 {
            assert(!assistants_meet(history, i));
            assert(longer[i] == history[i]);
            assert(longer[i + 1] == history[i + 1]);
        } else {
            assert(longer[i] == history.last());
            assert(longer[i + 1] == message);
        }
    }
}

/// A tool message that answers the next request of a round may join the
/// history: the round then stands recorded with one answer more.
pub proof fn lemma_answer_recorded(
    history: Seq<MessageView>,
    asked: Seq<ToolCallView>,
    answered: nat,
    reply: MessageView,
)
    requires
        round_recorded(history, asked, answered),
        answered < asked.len(),
        answers(reply, asked[answered as int]),
    ensures
        round_recorded(history.push(reply), asked, answered + 1),
{
    let longer = history.push(reply);
    assert(longer[longer.len() - (answered + 1) - 1] == history[history.len() - answered - 1]);
    assert forall|j: int| 0 <= j < answered + 1 implies answers(
        longer[longer.len() - (answered + 1) + j],
        #[trigger] asked[j],
    ) by {
        if j < answered {
            assert(longer[longer.len() - (answered + 1) + j] == history[history.len() - answered
                + j]);
        }
    }
}

/// Running the requests of a round keeps the state in order, never fails,
/// keeps what the history held, and leaves the answers behind the assistant's
/// message in the order of the requests.
pub proof fn lemma_dispatched(model: Model)
    requires
        no_adjacent_assistants(model.history),
        model.failure is None,
        model.turn == empty_turn(),
        model.asked.len() > 0,
        round_recorded(model.history, model.asked, model.answered),
    ensures
        dispatched(model).next.wf(),
        dispatched(model).next.phase == Phase::Requesting || dispatched(model).next.phase
            == Phase::Executing,
        dispatched(model).next.asked == model.asked,
        dispatched(model).next.answered >= model.answered,
        dispatched(model).next.root == model.root,
        model.history.is_prefix_of(dispatched(model).next.history),
        round_recorded(
            dispatched(model).next.history,
            model.asked,
            dispatched(model).next.answered,
        ),
        fits(dispatched(model).action, dispatched(model).next),
        dispatched(model).action is SendRequest || dispatched(model).action is Invoke,
    decreases model.asked.len() - model.answered,
{
    let history = model.history;
    if model.answered >= model.asked.len() {
        assert(answers(history[history.len() - model.answered + (model.answered - 1)], model.asked[
            model.answered - 1
        ]));
    } else {
        let call = model.asked[model.answered as int];
        match plan_of(call, model.root) {
            PlanView::Invoke(_) => {},
            PlanView::Reply(content) => {
                let reply = tool_message(call, content);
                let longer = history.push(reply);
                let next = Model { history: longer, answered: model.answered + 1, ..model };
                lemma_push_keeps_order(history, reply);
                lemma_answer_recorded(history, model.asked, model.answered, reply);
                lemma_dispatched(next);
            },
        }
    }
}

/// Ending a round keeps the state in order and never fails.
pub proof fn lemma_completed(model: Model, reason: Option<FinishReason>)
    requires
        model.wf(),
        model.phase == Phase::Streaming || model.phase == Phase::Accumulating,
    ensures
        completed(model, reason).next.wf(),
        completed(model, reason).next.phase == Phase::Done || completed(model, reason).next.phase
            == Phase::Requesting || completed(model, reason).next.phase == Phase::Executing,
        completed(model, reason).next.root == model.root,
        model.history.push(frozen(model.turn, reason).message).is_prefix_of(
            completed(model, reason).next.history,
        ),
        fits(completed(model, reason).action, completed(model, reason).next),
        !(completed(model, reason).action is Continue),
{
    let message = frozen(model.turn, reason).message;
    let history = model.history.push(message);
    lemma_push_keeps_order(model.history, message);
    if dispatches(model.turn, reason) {
        let next = Model {
            history,
            turn: empty_turn(),
            asked: model.turn.calls,
            answered: 0,
            ..model
        };
        assert(history[history.len() - 1] == message);
        lemma_dispatched(next);
    } else {
        assert(history.last() == message);
    }
}

/// Taking a line of the stream keeps the state in order and never fails.
pub proof fn lemma_absorbed(model: Model, frame: Result<ParsedFrameView, FrameDecodeError>)
    requires
        model.wf(),
        model.phase == Phase::Streaming || model.phase == Phase::Accumulating,
    ensures
        absorbed(model, frame).next.wf(),
        absorbed(model, frame).next.phase != Phase::Failed,
        absorbed(model, frame).next.root == model.root,
        model.history.is_prefix_of(absorbed(model, frame).next.history),
        fits(absorbed(model, frame).action, absorbed(model, frame).next),
        !(absorbed(model, frame).action is Continue),
{
    match frame {
        Ok(ParsedFrameView::Decoded(delta)) => {
            let taken = Model {
                phase: Phase::Accumulating,
                turn: absorb_delta(model.turn, delta),
                ..model
            };
            match delta.finish {
                Some(reason) => {
                    lemma_completed(taken, Some(reason));
                },
                None => {},
            }
        },
        Ok(ParsedFrameView::Terminator) => {
            lemma_completed(model, None);
        },
        _ => {},
    }
}

/// The step for a line that was read already keeps the state in order, as
/// every step does, and is the step for the line itself.
pub proof fn lemma_parsed_step(model: Model, frame: Result<ParsedFrameView, FrameDecodeError>)
    requires
        model.wf(),
    ensures
        parsed_step_of(model, frame).next.wf(),
        parsed_step_of(model, frame).next.root == model.root,
        model.history.is_prefix_of(parsed_step_of(model, frame).next.history),
        fits(parsed_step_of(model, frame).action, parsed_step_of(model, frame).next),
        forall|line: Seq<char>|
            frame_of(line) == frame ==> #[trigger] step_of(model, EventView::Frame { line })
                == parsed_step_of(model, frame),
{
    if model.phase == Phase::Streaming || model.phase == Phase::Accumulating {
        lemma_absorbed(model, frame);
    }
}

/// Every step keeps the state in order, keeps the root, and keeps what the
/// history held: the history only grows. The action that it gives is the one
/// that the new state waits for, and where it gives none, nothing has
/// changed.
pub proof fn lemma_step(model: Model, event: EventView)
    requires
        model.wf(),
    ensures
        step_of(model, event).next.wf(),
        step_of(model, event).next.root == model.root,
        model.history.is_prefix_of(step_of(model, event).next.history),
        fits(step_of(model, event).action, step_of(model, event).next),
        step_of(model, event).action is Continue ==> step_of(model, event).next == model,
{
    match model.phase {
        Phase::Streaming | Phase::Accumulating => match event {
            EventView::Frame { line } => {
                lemma_absorbed(model, frame_of(line));
            },
            EventView::Closed => {
                lemma_completed(model, None);
            },
            _ => {},
        },
        Phase::Executing => match event {
            EventView::ToolFinished { outcome } => {
                let call = model.asked[model.answered as int];
                let reply = tool_message(call, result_content(outcome));
                let longer = model.history.push(reply);
                let next = Model { history: longer, answered: model.answered + 1, ..model };
                lemma_push_keeps_order(model.history, reply);
                lemma_answer_recorded(model.history, model.asked, model.answered, reply);
                lemma_dispatched(next);
            },
            _ => {},
        },
        _ => {},
    }
}

impl OrchestratorError {
    /// An error with the same contents.
    pub fn duplicate(&self) -> (r: OrchestratorError)
        ensures
            r@ == self@,
    {
        match self {
            OrchestratorError::Transport(TransportError::Unreachable(reason)) => OrchestratorError::Transport(
                TransportError::Unreachable(reason.clone()),
            ),
            OrchestratorError::Transport(TransportError::Status(status)) => OrchestratorError::Transport(
                TransportError::Status(*status),
            ),
            OrchestratorError::Transport(TransportError::Interrupted(reason)) => OrchestratorError::Transport(
                TransportError::Interrupted(reason.clone()),
            ),
            OrchestratorError::Cancelled => OrchestratorError::Cancelled,
        }
    }

    /// What the observer reads of the error.
    pub fn describe(&self) -> (r: String)
        ensures
            r@ == failure_text(self@),
    {
        match self {
            OrchestratorError::Transport(TransportError::Unreachable(reason)) => joined(
                "Request error: ",
                reason.as_str(),
            ),
            OrchestratorError::Transport(TransportError::Status(_)) =>
                "Request error: the service refused the request".to_owned(),
            OrchestratorError::Transport(TransportError::Interrupted(reason)) => joined(
                "stream error: ",
                reason.as_str(),
            ),
            OrchestratorError::Cancelled => "cancelled".to_owned(),
        }
    }
}

/// The error of a run, where it has one, by what it holds.
pub open spec fn failure_view(failure: Option<OrchestratorError>) -> Option<ErrorView> {
    match failure {
        Some(error) => Some(error@),
        None => None,
    }
}

/// How a run stands for its caller: not ended, succeeded, or failed with an
/// error.
pub open spec fn result_of(model: Model) -> Option<Result<(), ErrorView>> {
    match model.phase {
        Phase::Done => Some(Ok(())),
        Phase::Failed => match model.failure {
            Some(error) => Some(Err(error)),
            None => None,
        },
        _ => None,
    }
}

/// One run of the loop. It owns the conversation until the run has ended.
pub struct Orchestrator {
    phase: Phase,
    history: Vec<Message>,
    turn: TurnAccumulator,
    asked: Vec<ToolCallRequest>,
    answered: usize,
    root: String,
    failure: Option<OrchestratorError>,
}

impl View for Orchestrator {
    type V = Model;

    closed spec fn view(&self) -> Model {
        Model {
            phase: self.phase,
            history: message_views(self.history@),
            turn: self.turn@,
            asked: call_views(self.asked@),
            answered: self.answered as nat,
            root: self.root@,
            failure: failure_view(self.failure),
        }
    }
}

impl Orchestrator {
    /// Begins a run on a history, with the root of the workspace that
    /// relative paths are placed under. The first thing to do is to send the
    /// request.
    pub fn start(history: Vec<Message>, root: String) -> (r: (Orchestrator, Step))
        requires
            requestable(message_views(history@)),
        ensures
            r.0@ == initial(message_views(history@), root@),
            r.0@.wf(),
            r.1@.action == ActionView::SendRequest,
            r.1@.events == seq![ProgressView::Started],
    {
        let machine = Orchestrator {
            phase: Phase::Requesting,
            history,
            turn: TurnAccumulator::new(),
            asked: Vec::new(),
            answered: 0,
            root,
            failure: None,
        };
        let mut events: Vec<ProgressEvent> = Vec::new();
        events.push(ProgressEvent::Started);
        assert(call_views(machine.asked@) =~= Seq::empty());
        assert(progress_views(events@) =~= seq![ProgressView::Started]);
        (machine, Step { action: Action::SendRequest, events })
    }

    /// Where the loop stands.
    pub fn phase(&self) -> (r: Phase)
        ensures
            r == self@.phase,
    {
        self.phase
    }

    /// The conversation so far.
    pub fn history(&self) -> (r: &Vec<Message>)
        ensures
            message_views(r@) == self@.history,
    {
        &self.history
    }

    /// Gives the conversation back to the caller.
    pub fn into_history(self) -> (r: Vec<Message>)
        ensures
            message_views(r@) == self@.history,
    {
        self.history
    }

    /// How the run stands: `None` while it has not ended, then success or
    /// the error that ended it.
    pub fn result(&self) -> (r: Option<Result<(), OrchestratorError>>)
        ensures
            match r {
                None => result_of(self@) is None,
                Some(Ok(_)) => result_of(self@) == Some(Ok::<(), ErrorView>(())),
                Some(Err(error)) => result_of(self@) == Some(Err::<(), ErrorView>(error@)),
            },
    {
        match self.phase {
            Phase::Done => Some(Ok(())),
            Phase::Failed => match &self.failure {
                Some(error) => Some(Err(error.duplicate())),
                None => None,
            },
            _ => None,
        }
    }

    /// The body of the request that is due: the model, the whole history,
    /// and the capabilities on offer.
    pub fn request_body(&self, model: &str) -> (r: String)
        ensures
            r@ == request_text(model@, self@.history),
    {
        let request = encode_request(model, &self.history, tool_schemas());
        crate::json::render_value(&request)
    }

    fn fail(&mut self, error: OrchestratorError) -> (r: Step)
        ensures
            final(self)@ == failed(old(self)@, error@).next,
            r@.action == failed(old(self)@, error@).action,
            r@.events == failed(old(self)@, error@).events,
    {
        let message = error.describe();
        self.phase = Phase::Failed;
        self.failure = Some(error);
        let mut events: Vec<ProgressEvent> = Vec::new();
        events.push(ProgressEvent::Error { message });
        assert(progress_views(events@) =~= failed(old(self)@, error@).events);
        Step { action: Action::Abort, events }
    }

    fn ignore(&self) -> (r: Step)
        ensures
            r@.action == ignored(self@).action,
            r@.events == ignored(self@).events,
    {
        let action = match self.phase {
            Phase::Done => Action::Finish,
            Phase::Failed => Action::Abort,
            _ => Action::Continue,
        };
        let events: Vec<ProgressEvent> = Vec::new();
        assert(progress_views(events@) =~= Seq::empty());
        Step { action, events }
    }

    fn dispatch(&mut self, events: Vec<ProgressEvent>) -> (r: Step)
        requires
            old(self)@.answered <= old(self)@.asked.len(),
        ensures
            final(self)@ == dispatched(old(self)@).next,
            r@.action == dispatched(old(self)@).action,
            r@.events == progress_views(events@) + dispatched(old(self)@).events,
    {
        let mut out = events;
        let ghost start = self@;
        let ghost told = progress_views(out@);
        loop
            invariant
                start == old(self)@,
                told == progress_views(events@),
                self.answered <= self.asked.len(),
                dispatched(start).next == dispatched(self@).next,
                dispatched(start).action == dispatched(self@).action,
                told + dispatched(start).events == progress_views(out@) + dispatched(self@).events,
            decreases self.asked.len() - self.answered,
        {
            if self.answered >= self.asked.len() {
                self.phase = Phase::Requesting;
                assert(told + dispatched(start).events =~= progress_views(out@));
                return Step { action: Action::SendRequest, events: out };
            }
            let ghost before = self@;
            let ghost before_events = progress_views(out@);
            let mut names: Vec<String> = Vec::new();
            names.push(self.asked[self.answered].name.clone());
            assert(name_views(names@) =~= seq![before.asked[before.answered as int].name]);
            out.push(
                ProgressEvent::Delta { role: Role::Tool, content: None, tool_names: Some(names) },
            );
            assert(progress_views(out@) =~= before_events.push(
                tool_notice(before.asked[before.answered as int]),
            ));
            match plan(&self.asked[self.answered], self.root.as_str()) {
                Plan::Invoke(invocation) => {
                    self.phase = Phase::Executing;
                    assert(told + dispatched(start).events =~= progress_views(out@));
                    return Step { action: Action::Invoke(invocation), events: out };
                },
                Plan::Reply(content) => {
                    let reply = Message::tool(&self.asked[self.answered], content);
                    let next = self.answered + 1;
                    self.history.push(reply);
                    self.answered = next;
                    proof {
                        let call = before.asked[before.answered as int];
                        let after = Model {
                            history: before.history.push(tool_message(call, content@)),
                            answered: before.answered + 1,
                            ..before
                        };
                        assert(self@.history =~= after.history);
                        assert(self@ == after);
                        assert(before_events + (seq![tool_notice(call)] + dispatched(after).events)
                            =~= progress_views(out@) + dispatched(after).events);
                    }
                },
            }
        }
    }

    fn complete(&mut self, reason: Option<FinishReason>, events: Vec<ProgressEvent>) -> (r: Step)
        ensures
            final(self)@ == completed(old(self)@, reason).next,
            r@.action == completed(old(self)@, reason).action,
            r@.events == progress_views(events@) + completed(old(self)@, reason).events,
    {
        let outcome = self.turn.freeze(reason);
        let asked = match &outcome.message.tool_calls {
            Some(calls) => Some(duplicate_calls(calls)),
            None => None,
        };
        self.history.push(outcome.message);
        assert(message_views(self.history@) =~= old(self)@.history.push(
            frozen(old(self)@.turn, reason).message,
        ));
        match asked {
            Some(calls) => {
                self.asked = calls;
                self.answered = 0;
                self.dispatch(events)
            },
            None => {
                self.phase = Phase::Done;
                let mut events = events;
                let ghost before_events = progress_views(events@);
                events.push(ProgressEvent::Finished { summary: "done".to_owned() });
                assert(progress_views(events@) =~= before_events + seq![
                    ProgressView::Finished { summary: finished_summary() },
                ]);
                Step { action: Action::Finish, events }
            },
        }
    }

    fn absorb_frame(&mut self, parsed: Result<ParsedFrame, FrameDecodeError>) -> (r: Step)
        ensures
            final(self)@ == absorbed(old(self)@, frame_view(parsed)).next,
            r@.action == absorbed(old(self)@, frame_view(parsed)).action,
            r@.events == absorbed(old(self)@, frame_view(parsed)).events,
    {
        let mut events: Vec<ProgressEvent> = Vec::new();
        assert(progress_views(events@) =~= Seq::empty());
        match parsed {
            Ok(ParsedFrame::Decoded(delta)) => {
                self.phase = Phase::Accumulating;
                self.turn.absorb(&delta);
                match &delta.text {
                    Some(text) => {
                        events.push(
                            ProgressEvent::Delta {
                                role: Role::Assistant,
                                content: Some(text.clone()),
                                tool_names: None,
                            },
                        );
                        assert(progress_views(events@) =~= seq![text_notice(text@)]);
                    },
                    None => {},
                }
                match delta.finish {
                    Some(reason) => self.complete(Some(reason), events),
                    None => Step { action: Action::ReadFrame, events },
                }
            },
            Ok(ParsedFrame::Terminator) => {
                let step = self.complete(None, events);
                assert(step@.events =~= completed(old(self)@, None).events);
                step
            },
            _ => Step { action: Action::ReadFrame, events },
        }
    }

    /// Takes a line of the stream that the caller has read already. It is
    /// the step for the line itself: `step` on a line reads it with
    /// `parse_frame` and goes on as this does.
    pub fn step_parsed(&mut self, parsed: Result<ParsedFrame, FrameDecodeError>) -> (r: Step)
        requires
            old(self)@.wf(),
        ensures
            final(self)@ == parsed_step_of(old(self)@, frame_view(parsed)).next,
            r@.action == parsed_step_of(old(self)@, frame_view(parsed)).action,
            r@.events == parsed_step_of(old(self)@, frame_view(parsed)).events,
            final(self)@.wf(),
            final(self)@.root == old(self)@.root,
            old(self)@.history.is_prefix_of(final(self)@.history),
            fits(r@.action, final(self)@),
    {
        proof {
            lemma_parsed_step(self@, frame_view(parsed));
        }
        match self.phase {
            Phase::Streaming | Phase::Accumulating => self.absorb_frame(parsed),
            _ => self.ignore(),
        }
    }

    fn answer(&mut self, outcome: Result<String, ToolError>) -> (r: Step)
        requires
            old(self)@.answered < old(self)@.asked.len(),
        ensures
            final(self)@ == answered(old(self)@, outcome_view(outcome)).next,
            r@.action == answered(old(self)@, outcome_view(outcome)).action,
            r@.events == answered(old(self)@, outcome_view(outcome)).events,
    {
        let content = encode_result(&outcome);
        let total = self.asked.len();
        assert(self.answered < total);
        let reply = Message::tool(&self.asked[self.answered], content);
        let next = self.answered + 1;
        self.history.push(reply);
        self.answered = next;
        assert(message_views(self.history@) =~= old(self)@.history.push(
            tool_message(
                old(self)@.asked[old(self)@.answered as int],
                result_content(outcome_view(outcome)),
            ),
        ));
        let events: Vec<ProgressEvent> = Vec::new();
        assert(progress_views(events@) =~= Seq::empty());
        let step = self.dispatch(events);
        assert(step@.events =~= answered(old(self)@, outcome_view(outcome)).events);
        step
    }

    /// Takes what happened outside and says what is to be done next.
    pub fn step(&mut self, event: Event) -> (r: Step)
        requires
            old(self)@.wf(),
        ensures
            final(self)@ == step_of(old(self)@, event@).next,
            r@.action == step_of(old(self)@, event@).action,
            r@.events == step_of(old(self)@, event@).events,
            final(self)@.wf(),
            final(self)@.root == old(self)@.root,
            old(self)@.history.is_prefix_of(final(self)@.history),
            fits(r@.action, final(self)@),
    {
        proof {
            lemma_step(self@, event@);
        }
        match self.phase {
            Phase::Done | Phase::Failed => self.ignore(),
            Phase::Requesting => match event {
                Event::Cancelled => self.fail(OrchestratorError::Cancelled),
                Event::Opened { status } => if 200 <= status && status < 300 {
                    self.phase = Phase::Streaming;
                    let events: Vec<ProgressEvent> = Vec::new();
                    assert(progress_views(events@) =~= Seq::empty());
                    Step { action: Action::ReadFrame, events }
                } else {
                    self.fail(OrchestratorError::Transport(TransportError::Status(status)))
                },
                Event::Unreachable { reason } => self.fail(
                    OrchestratorError::Transport(TransportError::Unreachable(reason)),
                ),
                _ => self.ignore(),
            },
            Phase::Streaming | Phase::Accumulating => match event {
                Event::Cancelled => self.fail(OrchestratorError::Cancelled),
                Event::Frame { line } => self.absorb_frame(parse_frame(line.as_str())),
                Event::Closed => {
                    let events: Vec<ProgressEvent> = Vec::new();
                    assert(progress_views(events@) =~= Seq::empty());
                    let step = self.complete(None, events);
                    assert(step@.events =~= completed(old(self)@, None).events);
                    step
                },
                Event::Interrupted { reason } => self.fail(
                    OrchestratorError::Transport(TransportError::Interrupted(reason)),
                ),
                _ => self.ignore(),
            },
            Phase::Executing => match event {
                Event::Cancelled => self.fail(OrchestratorError::Cancelled),
                Event::ToolFinished { outcome } => self.answer(outcome),
                _ => self.ignore(),
            },
        }
    }
}

} // verus!
