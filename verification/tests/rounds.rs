use chat_orchestrator::accumulator::{FinishReason, StreamDelta, ToolCallFragment};
use chat_orchestrator::frame::{parse_frame, FrameDecodeError, ParsedFrame};
use chat_orchestrator::message::{Message, Role, ToolCallRequest};
use chat_orchestrator::orchestrator::{
    Action, Event, Orchestrator, OrchestratorError, Phase, ProgressEvent, Step, TransportError,
};
use chat_orchestrator::tools::{Invocation, ToolError};

const ROOT: &str = "/ws";

fn begin(history: Vec<Message>) -> Orchestrator {
    let (machine, first) = Orchestrator::start(history, ROOT.to_string());
    assert_eq!(first, Step { action: Action::SendRequest, events: vec![ProgressEvent::Started] });
    machine
}

fn streaming(history: Vec<Message>) -> Orchestrator {
    let mut machine = begin(history);
    assert_eq!(machine.step(Event::Opened { status: 200 }), quiet(Action::ReadFrame));
    assert_eq!(machine.phase(), Phase::Streaming);
    machine
}

fn quiet(action: Action) -> Step {
    Step { action, events: vec![] }
}

fn frame(payload: &str) -> Event {
    Event::Frame { line: format!("data: {}", payload) }
}

fn text_chunk(text: &str) -> Event {
    frame(&format!(
        "{{\"id\":\"c\",\"choices\":[{{\"delta\":{{\"role\":\"assistant\",\"content\":{}}}}}]}}",
        serde_json::Value::String(text.to_string())
    ))
}

fn call_chunk(id: &str, name: &str, arguments: &str) -> Event {
    frame(&format!(
        "{{\"id\":\"c\",\"choices\":[{{\"delta\":{{\"role\":\"assistant\",\"content\":null,\"tool_calls\":[{{\"id\":{},\"type\":\"function\",\"function\":{{\"name\":{},\"arguments\":{}}}}}]}}}}]}}",
        serde_json::Value::String(id.to_string()),
        serde_json::Value::String(name.to_string()),
        serde_json::Value::String(arguments.to_string())
    ))
}

fn finish_chunk(reason: &str) -> Event {
    frame(&format!(
        "{{\"id\":\"c\",\"choices\":[{{\"delta\":{{\"role\":\"assistant\"}},\"finish_reason\":\"{}\"}}]}}",
        reason
    ))
}

fn said(text: &str) -> ProgressEvent {
    ProgressEvent::Delta { role: Role::Assistant, content: Some(text.to_string()), tool_names: None }
}

fn running(name: &str) -> ProgressEvent {
    ProgressEvent::Delta { role: Role::Tool, content: None, tool_names: Some(vec![name.to_string()]) }
}

fn finished() -> ProgressEvent {
    ProgressEvent::Finished { summary: "done".to_string() }
}

fn assistant(content: &str, tool_calls: Option<Vec<ToolCallRequest>>) -> Message {
    Message {
        role: Role::Assistant,
        content: content.to_string(),
        tool_call_id: None,
        name: None,
        tool_calls,
    }
}

fn request(id: &str, name: &str, arguments: &str) -> ToolCallRequest {
    ToolCallRequest { id: id.to_string(), name: name.to_string(), arguments: arguments.to_string() }
}

fn answer(id: &str, name: &str, content: &str) -> Message {
    Message {
        role: Role::Tool,
        content: content.to_string(),
        tool_call_id: Some(id.to_string()),
        name: Some(name.to_string()),
        tool_calls: None,
    }
}

fn read(path: &str) -> Action {
    Action::Invoke(Invocation::ReadFile { path: path.to_string() })
}

fn count(events: &[ProgressEvent], wanted: fn(&ProgressEvent) -> bool) -> usize {
    events.iter().filter(|e| wanted(e)).count()
}

#[test]
fn plain_answer_takes_one_round() {
    let mut machine = begin(vec![Message::user("hello")]);
    assert_eq!(machine.phase(), Phase::Requesting);
    assert_eq!(machine.result(), None);
    assert_eq!(machine.step(Event::Opened { status: 200 }), quiet(Action::ReadFrame));
    assert_eq!(machine.phase(), Phase::Streaming);
    assert_eq!(
        machine.step(text_chunk("Hel")),
        Step { action: Action::ReadFrame, events: vec![said("Hel")] }
    );
    assert_eq!(machine.phase(), Phase::Accumulating);
    assert_eq!(
        machine.step(text_chunk("lo")),
        Step { action: Action::ReadFrame, events: vec![said("lo")] }
    );
    assert_eq!(
        machine.step(finish_chunk("stop")),
        Step { action: Action::Finish, events: vec![finished()] }
    );
    assert_eq!(machine.phase(), Phase::Done);
    assert_eq!(machine.result(), Some(Ok(())));
    assert_eq!(machine.history(), &vec![Message::user("hello"), assistant("Hello", None)]);
}

#[test]
fn read_file_scenario_ends_with_four_messages() {
    let mut machine = streaming(vec![Message::user("read src/main file")]);
    assert_eq!(
        machine.step(call_chunk("call_1", "read_file", "{\"path\": \"src/main\"}")),
        quiet(Action::ReadFrame)
    );
    assert_eq!(
        machine.step(finish_chunk("tool_calls")),
        Step { action: read("/ws/src/main"), events: vec![running("read_file")] }
    );
    assert_eq!(machine.phase(), Phase::Executing);
    assert_eq!(machine.history().len(), 2);
    assert_eq!(
        machine.step(Event::ToolFinished { outcome: Ok("fn main(){}".to_string()) }),
        quiet(Action::SendRequest)
    );
    assert_eq!(machine.phase(), Phase::Requesting);
    assert_eq!(machine.history()[2].content, "{\"textContent\":\"fn main(){}\"}");
    assert_eq!(machine.step(Event::Opened { status: 200 }), quiet(Action::ReadFrame));
    assert_eq!(
        machine.step(text_chunk("It is an empty program.")),
        Step { action: Action::ReadFrame, events: vec![said("It is an empty program.")] }
    );
    assert_eq!(
        machine.step(finish_chunk("stop")),
        Step { action: Action::Finish, events: vec![finished()] }
    );
    assert_eq!(machine.phase(), Phase::Done);
    assert_eq!(machine.result(), Some(Ok(())));
    let call = request("call_1", "read_file", "{\"path\": \"src/main\"}");
    assert_eq!(
        machine.into_history(),
        vec![
            Message::user("read src/main file"),
            assistant("", Some(vec![call])),
            answer("call_1", "read_file", "{\"textContent\":\"fn main(){}\"}"),
            assistant("It is an empty program.", None),
        ]
    );
}

#[test]
fn refused_request_fails_the_run() {
    let mut machine = begin(vec![Message::user("hello")]);
    let step = machine.step(Event::Opened { status: 500 });
    assert_eq!(step.action, Action::Abort);
    assert_eq!(
        step.events,
        vec![ProgressEvent::Error {
            message: "Request error: the service refused the request".to_string()
        }]
    );
    assert_eq!(count(&step.events, |e| matches!(e, ProgressEvent::Finished { .. })), 0);
    assert_eq!(count(&step.events, |e| matches!(e, ProgressEvent::Error { .. })), 1);
    assert_eq!(machine.phase(), Phase::Failed);
    assert_eq!(
        machine.result(),
        Some(Err(OrchestratorError::Transport(TransportError::Status(500))))
    );
    assert_eq!(machine.history(), &vec![Message::user("hello")]);
    assert_eq!(machine.step(Event::Opened { status: 200 }), quiet(Action::Abort));
    assert_eq!(machine.step(text_chunk("late")), quiet(Action::Abort));
    assert_eq!(machine.phase(), Phase::Failed);
}

#[test]
fn only_statuses_from_200_to_299_are_a_success() {
    for status in [0u16, 199, 300, 301, 404, 429, 503, u16::MAX] {
        let mut machine = begin(vec![Message::user("q")]);
        assert_eq!(machine.step(Event::Opened { status }).action, Action::Abort, "{}", status);
        assert_eq!(
            machine.result(),
            Some(Err(OrchestratorError::Transport(TransportError::Status(status))))
        );
    }
    for status in [200u16, 201, 204, 299] {
        let mut machine = begin(vec![Message::user("q")]);
        assert_eq!(machine.step(Event::Opened { status }), quiet(Action::ReadFrame));
        assert_eq!(machine.result(), None);
    }
}

#[test]
fn unreachable_service_fails_the_run() {
    let mut machine = begin(vec![Message::user("hello")]);
    let step = machine.step(Event::Unreachable { reason: "dns error".to_string() });
    assert_eq!(
        step,
        Step {
            action: Action::Abort,
            events: vec![ProgressEvent::Error { message: "Request error: dns error".to_string() }],
        }
    );
    assert_eq!(
        machine.result(),
        Some(Err(OrchestratorError::Transport(TransportError::Unreachable(
            "dns error".to_string()
        ))))
    );
}

#[test]
fn done_sentinel_mid_tool_call_drops_the_fragment() {
    let mut machine = streaming(vec![Message::user("read it")]);
    assert_eq!(machine.step(text_chunk("Let me ")), Step {
        action: Action::ReadFrame,
        events: vec![said("Let me ")],
    });
    assert_eq!(
        machine.step(call_chunk("call_1", "read_file", "{\"path\": \"sr")),
        quiet(Action::ReadFrame)
    );
    let step = machine.step(frame("[DONE]"));
    assert_eq!(step, Step { action: Action::Finish, events: vec![finished()] });
    assert_eq!(machine.phase(), Phase::Done);
    assert_eq!(machine.history(), &vec![Message::user("read it"), assistant("Let me ", None)]);
}

#[test]
fn requests_are_dropped_when_the_turn_stops() {
    let mut machine = streaming(vec![Message::user("q")]);
    machine.step(call_chunk("call_1", "read_file", "{\"path\":\"a\"}"));
    assert_eq!(
        machine.step(finish_chunk("stop")),
        Step { action: Action::Finish, events: vec![finished()] }
    );
    assert_eq!(machine.history(), &vec![Message::user("q"), assistant("", None)]);
}

#[test]
fn closed_stream_ends_the_round() {
    let mut machine = streaming(vec![Message::user("q")]);
    machine.step(text_chunk("partial"));
    assert_eq!(
        machine.step(Event::Closed),
        Step { action: Action::Finish, events: vec![finished()] }
    );
    assert_eq!(machine.history(), &vec![Message::user("q"), assistant("partial", None)]);
}

#[test]
fn interrupted_stream_fails_and_keeps_the_history() {
    let mut machine = streaming(vec![Message::user("q")]);
    machine.step(text_chunk("partial"));
    let step = machine.step(Event::Interrupted { reason: "connection reset".to_string() });
    assert_eq!(
        step,
        Step {
            action: Action::Abort,
            events: vec![ProgressEvent::Error {
                message: "stream error: connection reset".to_string()
            }],
        }
    );
    assert_eq!(
        machine.result(),
        Some(Err(OrchestratorError::Transport(TransportError::Interrupted(
            "connection reset".to_string()
        ))))
    );
    assert_eq!(machine.history(), &vec![Message::user("q")]);
}

#[test]
fn malformed_and_empty_lines_are_passed_over() {
    let mut machine = streaming(vec![Message::user("q")]);
    for line in ["", ": keep-alive", "data: {broken", "data: {\"error\":\"x\"}", "event: x"] {
        assert_eq!(
            machine.step(Event::Frame { line: line.to_string() }),
            quiet(Action::ReadFrame),
            "{}",
            line
        );
        assert_eq!(machine.phase(), Phase::Streaming);
    }
    machine.step(text_chunk("a"));
    assert_eq!(
        machine.step(Event::Frame { line: "data: {broken".to_string() }),
        quiet(Action::ReadFrame)
    );
    assert_eq!(machine.phase(), Phase::Accumulating);
    machine.step(text_chunk("b"));
    machine.step(finish_chunk("stop"));
    assert_eq!(machine.history(), &vec![Message::user("q"), assistant("ab", None)]);
}

#[test]
fn text_and_finish_in_one_frame() {
    let mut machine = streaming(vec![Message::user("q")]);
    let step = machine.step(frame(
        "{\"id\":\"c\",\"choices\":[{\"delta\":{\"role\":\"assistant\",\"content\":\"all\"},\"finish_reason\":\"stop\"}]}",
    ));
    assert_eq!(step, Step { action: Action::Finish, events: vec![said("all"), finished()] });
    assert_eq!(machine.history(), &vec![Message::user("q"), assistant("all", None)]);
}

#[test]
fn other_final_reasons_end_the_run() {
    for reason in ["length", "content_filter", "error"] {
        let mut machine = streaming(vec![Message::user("q")]);
        machine.step(text_chunk("cut"));
        assert_eq!(
            machine.step(finish_chunk(reason)),
            Step { action: Action::Finish, events: vec![finished()] }
        );
        assert_eq!(machine.result(), Some(Ok(())));
    }
}

#[test]
fn tool_messages_follow_the_order_of_the_requests() {
    let mut machine = streaming(vec![Message::user("read three files")]);
    machine.step(call_chunk("b", "read_file", "{\"path\":"));
    machine.step(call_chunk("a", "read_file", "{\"path\":\"one\"}"));
    machine.step(call_chunk("b", "", "\"two\"}"));
    machine.step(call_chunk("c", "read_file", "{\"path\":\"three\"}"));
    assert_eq!(
        machine.step(finish_chunk("tool_calls")),
        Step { action: read("/ws/two"), events: vec![running("read_file")] }
    );
    assert_eq!(
        machine.step(Event::ToolFinished { outcome: Ok("2".to_string()) }),
        Step { action: read("/ws/one"), events: vec![running("read_file")] }
    );
    assert_eq!(
        machine.step(Event::ToolFinished {
            outcome: Err(ToolError::NotFound("/ws/one".to_string()))
        }),
        Step { action: read("/ws/three"), events: vec![running("read_file")] }
    );
    assert_eq!(
        machine.step(Event::ToolFinished {
            outcome: Err(ToolError::NotUtf8("/ws/three".to_string()))
        }),
        quiet(Action::SendRequest)
    );
    let calls = vec![
        request("b", "read_file", "{\"path\":\"two\"}"),
        request("a", "read_file", "{\"path\":\"one\"}"),
        request("c", "read_file", "{\"path\":\"three\"}"),
    ];
    assert_eq!(
        machine.history(),
        &vec![
            Message::user("read three files"),
            assistant("", Some(calls)),
            answer("b", "read_file", "{\"textContent\":\"2\"}"),
            answer("a", "read_file", "file not found: /ws/one"),
            answer("c", "read_file", "file is not valid UTF-8: /ws/three"),
        ]
    );
}

#[test]
fn invalid_arguments_are_told_to_the_model() {
    let mut machine = streaming(vec![Message::user("q")]);
    machine.step(call_chunk("call_1", "read_file", "{\"file\":\"x\"}"));
    let step = machine.step(finish_chunk("tool_calls"));
    assert_eq!(step, Step { action: Action::SendRequest, events: vec![running("read_file")] });
    assert_eq!(machine.phase(), Phase::Requesting);
    assert_eq!(machine.result(), None);
    assert_eq!(
        machine.history()[2],
        answer(
            "call_1",
            "read_file",
            "invalid arguments: read_file expects a JSON object with a string member \"path\""
        )
    );
    assert_eq!(machine.history().len(), 3);
}

#[test]
fn invalid_arguments_reported_by_a_capability_do_not_fail() {
    let mut machine = streaming(vec![Message::user("q")]);
    machine.step(call_chunk("call_1", "read_file", "{\"path\":\"x\"}"));
    machine.step(finish_chunk("tool_calls"));
    let step = machine.step(Event::ToolFinished {
        outcome: Err(ToolError::InvalidArguments("path leaves the workspace".to_string())),
    });
    assert_eq!(step, quiet(Action::SendRequest));
    assert_eq!(machine.phase(), Phase::Requesting);
    assert_eq!(
        machine.history()[2],
        answer("call_1", "read_file", "invalid arguments: path leaves the workspace")
    );
}

#[test]
fn failed_execution_is_told_to_the_model() {
    let mut machine = streaming(vec![Message::user("q")]);
    machine.step(call_chunk("call_1", "read_file", "{\"path\":\"x\"}"));
    machine.step(finish_chunk("tool_calls"));
    machine.step(Event::ToolFinished {
        outcome: Err(ToolError::ExecutionFailed("permission denied".to_string())),
    });
    assert_eq!(
        machine.history()[2],
        answer("call_1", "read_file", "execution failed: permission denied")
    );
    assert_eq!(machine.phase(), Phase::Requesting);
}

#[test]
fn unknown_capability_gets_an_empty_answer() {
    let mut machine = streaming(vec![Message::user("q")]);
    machine.step(call_chunk("x", "write_file", "{}"));
    machine.step(call_chunk("y", "read_file", "{\"path\":\"a\"}"));
    machine.step(call_chunk("z", "delete_file", "{}"));
    assert_eq!(
        machine.step(finish_chunk("tool_calls")),
        Step { action: read("/ws/a"), events: vec![running("write_file"), running("read_file")] }
    );
    assert_eq!(machine.history()[2], answer("x", "write_file", ""));
    assert_eq!(
        machine.step(Event::ToolFinished { outcome: Ok("A".to_string()) }),
        Step { action: Action::SendRequest, events: vec![running("delete_file")] }
    );
    assert_eq!(machine.history()[3], answer("y", "read_file", "{\"textContent\":\"A\"}"));
    assert_eq!(machine.history()[4], answer("z", "delete_file", ""));
    assert_eq!(machine.history().len(), 5);
}

#[test]
fn cancelling_fails_the_run_in_every_phase() {
    let cancelled = Step {
        action: Action::Abort,
        events: vec![ProgressEvent::Error { message: "cancelled".to_string() }],
    };
    let mut requesting = begin(vec![Message::user("q")]);
    assert_eq!(requesting.step(Event::Cancelled), cancelled);
    assert_eq!(requesting.result(), Some(Err(OrchestratorError::Cancelled)));

    let mut mid_stream = streaming(vec![Message::user("q")]);
    mid_stream.step(text_chunk("par"));
    assert_eq!(mid_stream.step(Event::Cancelled), cancelled);
    assert_eq!(mid_stream.phase(), Phase::Failed);
    assert_eq!(mid_stream.history(), &vec![Message::user("q")]);

    let mut executing = streaming(vec![Message::user("q")]);
    executing.step(call_chunk("a", "read_file", "{\"path\":\"x\"}"));
    executing.step(finish_chunk("tool_calls"));
    assert_eq!(executing.step(Event::Cancelled), cancelled);
    assert_eq!(executing.history().len(), 2);
}

#[test]
fn finished_run_cannot_be_cancelled() {
    let mut machine = streaming(vec![Message::user("q")]);
    machine.step(finish_chunk("stop"));
    assert_eq!(machine.step(Event::Cancelled), quiet(Action::Finish));
    assert_eq!(machine.result(), Some(Ok(())));
}

#[test]
fn lost_observer_changes_nothing() {
    let mut machine = begin(vec![Message::user("q")]);
    assert_eq!(machine.step(Event::ObserverLost), quiet(Action::Continue));
    assert_eq!(machine.phase(), Phase::Requesting);
    machine.step(Event::Opened { status: 200 });
    machine.step(text_chunk("a"));
    assert_eq!(machine.step(Event::ObserverLost), quiet(Action::Continue));
    assert_eq!(machine.phase(), Phase::Accumulating);
    assert_eq!(
        machine.step(finish_chunk("stop")),
        Step { action: Action::Finish, events: vec![finished()] }
    );
    assert_eq!(machine.history()[1], assistant("a", None));
}

#[test]
fn events_out_of_turn_are_ignored() {
    let mut machine = begin(vec![Message::user("q")]);
    assert_eq!(machine.step(text_chunk("early")), quiet(Action::Continue));
    assert_eq!(machine.step(Event::Closed), quiet(Action::Continue));
    assert_eq!(
        machine.step(Event::ToolFinished { outcome: Ok("x".to_string()) }),
        quiet(Action::Continue)
    );
    assert_eq!(machine.history(), &vec![Message::user("q")]);
    machine.step(Event::Opened { status: 200 });
    assert_eq!(machine.step(Event::Opened { status: 500 }), quiet(Action::Continue));
    assert_eq!(
        machine.step(Event::Unreachable { reason: "x".to_string() }),
        quiet(Action::Continue)
    );
    assert_eq!(machine.phase(), Phase::Streaming);
    machine.step(call_chunk("a", "read_file", "{\"path\":\"x\"}"));
    machine.step(finish_chunk("tool_calls"));
    assert_eq!(machine.step(text_chunk("late")), quiet(Action::Continue));
    assert_eq!(machine.step(Event::Closed), quiet(Action::Continue));
    assert_eq!(machine.phase(), Phase::Executing);
    assert_eq!(machine.history().len(), 2);
}

#[test]
fn finished_conversation_can_go_on() {
    let mut first = streaming(vec![Message::user("one")]);
    first.step(text_chunk("1"));
    first.step(finish_chunk("stop"));
    let mut history = first.into_history();
    history.push(Message::user("two"));

    let mut rerun = streaming(history.clone());
    let mut fresh = streaming(vec![
        Message::user("one"),
        assistant("1", None),
        Message::user("two"),
    ]);
    for machine in [&mut rerun, &mut fresh] {
        assert_eq!(
            machine.step(text_chunk("2")),
            Step { action: Action::ReadFrame, events: vec![said("2")] }
        );
        assert_eq!(
            machine.step(finish_chunk("stop")),
            Step { action: Action::Finish, events: vec![finished()] }
        );
    }
    assert_eq!(rerun.result(), fresh.result());
    assert_eq!(rerun.history(), fresh.history());
    assert_eq!(rerun.history().len(), 4);
}

#[test]
fn waiting_for_no_request_ends_the_run() {
    let mut machine = streaming(vec![Message::user("q")]);
    machine.step(text_chunk("nothing to call"));
    assert_eq!(
        machine.step(finish_chunk("tool_calls")),
        Step { action: Action::Finish, events: vec![finished()] }
    );
    assert_eq!(machine.history()[1], assistant("nothing to call", None));
}

#[test]
fn second_round_starts_with_an_empty_turn() {
    let mut machine = streaming(vec![Message::user("q")]);
    machine.step(text_chunk("reading"));
    machine.step(call_chunk("a", "read_file", "{\"path\":\"x\"}"));
    machine.step(finish_chunk("tool_calls"));
    machine.step(Event::ToolFinished { outcome: Ok("X".to_string()) });
    machine.step(Event::Opened { status: 200 });
    assert_eq!(machine.phase(), Phase::Streaming);
    machine.step(text_chunk("done"));
    machine.step(finish_chunk("stop"));
    let history = machine.into_history();
    assert_eq!(history.len(), 4);
    assert_eq!(
        history[1],
        assistant("reading", Some(vec![request("a", "read_file", "{\"path\":\"x\"}")]))
    );
    assert_eq!(history[3], assistant("done", None));
}

#[test]
fn errors_have_their_text() {
    assert_eq!(OrchestratorError::Cancelled.describe(), "cancelled");
    assert_eq!(
        OrchestratorError::Transport(TransportError::Status(404)).describe(),
        "Request error: the service refused the request"
    );
    let error = OrchestratorError::Transport(TransportError::Interrupted("eof".to_string()));
    assert_eq!(error.describe(), "stream error: eof");
    assert_eq!(error.duplicate(), error);
}

fn decoded(text: Option<&str>, tool_calls: Vec<ToolCallFragment>, finish: Option<FinishReason>) -> Result<ParsedFrame, FrameDecodeError> {
    Ok(ParsedFrame::Decoded(StreamDelta { text: text.map(str::to_string), tool_calls, finish }))
}

fn piece(id: &str, name: &str, arguments: &str) -> ToolCallFragment {
    ToolCallFragment { id: id.to_string(), name: name.to_string(), arguments: arguments.to_string() }
}

#[test]
fn parsed_frames_drive_the_loop() {
    let mut machine = streaming(vec![Message::user("q")]);
    assert_eq!(machine.step_parsed(Ok(ParsedFrame::NoPayload)), quiet(Action::ReadFrame));
    assert_eq!(machine.step_parsed(Err(FrameDecodeError::InvalidJson)), quiet(Action::ReadFrame));
    assert_eq!(
        machine.step_parsed(Err(FrameDecodeError::UnexpectedShape)),
        quiet(Action::ReadFrame)
    );
    assert_eq!(machine.phase(), Phase::Streaming);
    assert_eq!(
        machine.step_parsed(decoded(Some("I read "), vec![piece("a", "write_file", "{")], None)),
        Step { action: Action::ReadFrame, events: vec![said("I read ")] }
    );
    assert_eq!(machine.phase(), Phase::Accumulating);
    assert_eq!(
        machine.step_parsed(decoded(None, vec![piece("a", "", "}")], Some(FinishReason::ToolCalls))),
        Step { action: Action::SendRequest, events: vec![running("write_file")] }
    );
    assert_eq!(machine.phase(), Phase::Requesting);
    assert_eq!(
        machine.history(),
        &vec![
            Message::user("q"),
            assistant("I read ", Some(vec![request("a", "write_file", "{}")])),
            answer("a", "write_file", ""),
        ]
    );
    assert_eq!(machine.step_parsed(Ok(ParsedFrame::Terminator)), quiet(Action::Continue));
    machine.step(Event::Opened { status: 200 });
    assert_eq!(
        machine.step_parsed(decoded(Some("done"), vec![], Some(FinishReason::Stop))),
        Step { action: Action::Finish, events: vec![said("done"), finished()] }
    );
    assert_eq!(machine.step_parsed(Ok(ParsedFrame::NoPayload)), quiet(Action::Finish));
    assert_eq!(machine.history().len(), 4);
}

#[test]
fn parsed_terminator_ends_the_round() {
    let mut machine = streaming(vec![Message::user("q")]);
    machine.step_parsed(decoded(Some("so far"), vec![piece("a", "read_file", "{")], None));
    assert_eq!(
        machine.step_parsed(Ok(ParsedFrame::Terminator)),
        Step { action: Action::Finish, events: vec![finished()] }
    );
    assert_eq!(machine.history(), &vec![Message::user("q"), assistant("so far", None)]);
}

#[test]
fn step_on_a_line_is_the_step_on_what_it_parses_to() {
    let lines = [
        ": comment",
        "data: {broken",
        "data: {\"id\":\"c\",\"choices\":[{\"delta\":{\"role\":\"assistant\",\"content\":\"a\"}}]}",
        "data: {\"id\":\"c\",\"choices\":[{\"delta\":{\"role\":\"assistant\",\"tool_calls\":[{\"id\":\"x\",\"type\":\"function\",\"function\":{\"name\":\"read_file\",\"arguments\":\"{}\"}}]},\"finish_reason\":\"tool_calls\"}]}",
        "data: [DONE]",
    ];
    let mut by_line = streaming(vec![Message::user("q")]);
    let mut by_frame = streaming(vec![Message::user("q")]);
    for line in lines {
        let first = by_line.step(Event::Frame { line: line.to_string() });
        let second = by_frame.step_parsed(parse_frame(line));
        assert_eq!(first, second, "{}", line);
        assert_eq!(by_line.phase(), by_frame.phase());
        assert_eq!(by_line.history(), by_frame.history());
    }
    assert_eq!(by_line.phase(), Phase::Requesting);
}

#[test]
fn recut_fragments_give_the_same_run() {
    let whole = vec![
        decoded(None, vec![piece("a", "read_file", "{\"path\":\"one\"}")], None),
        decoded(None, vec![piece("b", "read_file", "{\"path\":\"two\"}")], None),
        decoded(None, vec![], Some(FinishReason::ToolCalls)),
    ];
    let recut = vec![
        decoded(None, vec![piece("a", "", "{\"pa"), piece("b", "read_file", "")], None),
        decoded(None, vec![piece("a", "read_file", "th\":")], None),
        Ok(ParsedFrame::NoPayload),
        decoded(None, vec![piece("b", "", "{\"path\":\"two\"}"), piece("a", "", "\"one\"}")], None),
        decoded(None, vec![], Some(FinishReason::ToolCalls)),
    ];
    let mut first = streaming(vec![Message::user("q")]);
    let mut second = streaming(vec![Message::user("q")]);
    let mut last_first = quiet(Action::Continue);
    for frame in whole {
        last_first = first.step_parsed(frame);
    }
    let mut last_second = quiet(Action::Continue);
    for frame in recut {
        last_second = second.step_parsed(frame);
    }
    assert_eq!(last_first, last_second);
    assert_eq!(last_first.action, read("/ws/one"));
    assert_eq!(first.history(), second.history());
    assert_eq!(first.phase(), second.phase());
}
