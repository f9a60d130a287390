use chat_orchestrator::accumulator::{
    FinishReason, RoundOutcome, StreamDelta, ToolCallFragment, TurnAccumulator,
};
use chat_orchestrator::message::{Message, Role, ToolCallRequest};

fn fragment(id: &str, name: &str, arguments: &str) -> ToolCallFragment {
    ToolCallFragment { id: id.to_string(), name: name.to_string(), arguments: arguments.to_string() }
}

fn request(id: &str, name: &str, arguments: &str) -> ToolCallRequest {
    ToolCallRequest { id: id.to_string(), name: name.to_string(), arguments: arguments.to_string() }
}

fn delta(text: Option<&str>, tool_calls: Vec<ToolCallFragment>) -> StreamDelta {
    StreamDelta { text: text.map(str::to_string), tool_calls, finish: None }
}

fn assistant(content: &str, tool_calls: Option<Vec<ToolCallRequest>>) -> Message {
    Message {
        role: Role::Assistant,
        content: content.to_string(),
        tool_call_id: None,
        name: None,
        tool_calls,
    }
}

fn frozen_after(deltas: Vec<StreamDelta>, reason: Option<FinishReason>) -> RoundOutcome {
    let mut turn = TurnAccumulator::new();
    for d in &deltas {
        turn.absorb(d);
    }
    turn.freeze(reason)
}

#[test]
fn new_accumulator_is_empty() {
    let turn = TurnAccumulator::new();
    assert_eq!(turn.text(), "");
    assert_eq!(turn.pending(), 0);
}

#[test]
fn text_is_appended_in_arrival_order() {
    let mut turn = TurnAccumulator::new();
    turn.absorb(&delta(Some("Hel"), vec![]));
    turn.absorb(&delta(None, vec![]));
    turn.absorb(&delta(Some("lo"), vec![]));
    assert_eq!(turn.text(), "Hello");
    let outcome = turn.freeze(Some(FinishReason::Stop));
    assert_eq!(
        outcome,
        RoundOutcome { message: assistant("Hello", None), reason: Some(FinishReason::Stop) }
    );
}

#[test]
fn fragments_of_one_request_are_merged() {
    let outcome = frozen_after(
        vec![
            delta(None, vec![fragment("call_1", "read_file", "")]),
            delta(None, vec![fragment("call_1", "", "{\"path\":")]),
            delta(None, vec![fragment("call_1", "", "\"src/main\"}")]),
        ],
        Some(FinishReason::ToolCalls),
    );
    assert_eq!(
        outcome.message,
        assistant("", Some(vec![request("call_1", "read_file", "{\"path\":\"src/main\"}")]))
    );
    assert_eq!(outcome.reason, Some(FinishReason::ToolCalls));
}

#[test]
fn fragmentation_is_transparent() {
    let whole = frozen_after(
        vec![delta(
            None,
            vec![
                fragment("a", "read_file", "{\"path\":\"x\"}"),
                fragment("b", "read_file", "{\"path\":\"y\"}"),
            ],
        )],
        Some(FinishReason::ToolCalls),
    );
    let split = frozen_after(
        vec![
            delta(None, vec![fragment("a", "read_file", "{\"pa")]),
            delta(Some(""), vec![fragment("a", "", "th\":\"x\"}"), fragment("b", "", "{")]),
            delta(None, vec![fragment("b", "read_file", "\"path\":")]),
            delta(None, vec![]),
            delta(None, vec![fragment("b", "other", "\"y\"}")]),
        ],
        Some(FinishReason::ToolCalls),
    );
    assert_eq!(whole, split);
}

#[test]
fn requests_keep_the_order_of_first_appearance() {
    let outcome = frozen_after(
        vec![
            delta(None, vec![fragment("b", "second", "1")]),
            delta(None, vec![fragment("a", "first", "2")]),
            delta(None, vec![fragment("b", "", "3")]),
            delta(None, vec![fragment("c", "third", "")]),
            delta(None, vec![fragment("a", "", "4")]),
        ],
        Some(FinishReason::ToolCalls),
    );
    assert_eq!(
        outcome.message.tool_calls,
        Some(vec![
            request("b", "second", "13"),
            request("a", "first", "24"),
            request("c", "third", ""),
        ])
    );
}

#[test]
fn first_name_that_is_not_empty_wins() {
    let outcome = frozen_after(
        vec![
            delta(None, vec![fragment("a", "", "1")]),
            delta(None, vec![fragment("a", "read_file", "2")]),
            delta(None, vec![fragment("a", "write_file", "3")]),
        ],
        Some(FinishReason::ToolCalls),
    );
    assert_eq!(outcome.message.tool_calls, Some(vec![request("a", "read_file", "123")]));
}

#[test]
fn requests_are_dropped_unless_the_turn_waits_for_them() {
    for reason in [
        None,
        Some(FinishReason::Stop),
        Some(FinishReason::Length),
        Some(FinishReason::ContentFilter),
        Some(FinishReason::Error),
    ] {
        let outcome = frozen_after(
            vec![delta(Some("partial"), vec![fragment("a", "read_file", "{\"pa")])],
            reason,
        );
        assert_eq!(outcome, RoundOutcome { message: assistant("partial", None), reason });
    }
}

#[test]
fn waiting_for_no_request_is_a_stop() {
    let outcome = frozen_after(vec![delta(Some("text"), vec![])], Some(FinishReason::ToolCalls));
    assert_eq!(
        outcome,
        RoundOutcome { message: assistant("text", None), reason: Some(FinishReason::Stop) }
    );
}

#[test]
fn freeze_resets_the_accumulator() {
    let mut turn = TurnAccumulator::new();
    turn.absorb(&delta(Some("one"), vec![fragment("a", "read_file", "{}")]));
    assert_eq!(turn.pending(), 1);
    let first = turn.freeze(Some(FinishReason::ToolCalls));
    assert_eq!(first.message, assistant("one", Some(vec![request("a", "read_file", "{}")])));
    assert_eq!(turn.text(), "");
    assert_eq!(turn.pending(), 0);
    turn.absorb(&delta(Some("two"), vec![]));
    let second = turn.freeze(None);
    assert_eq!(second, RoundOutcome { message: assistant("two", None), reason: None });
}

#[test]
fn single_fragment_is_taken_in() {
    let mut turn = TurnAccumulator::new();
    turn.absorb_fragment(&fragment("a", "n", "x"));
    turn.absorb_fragment(&fragment("a", "m", "y"));
    turn.absorb_fragment(&fragment("b", "", ""));
    assert_eq!(turn.pending(), 2);
    assert_eq!(
        turn.freeze(Some(FinishReason::ToolCalls)).message.tool_calls,
        Some(vec![request("a", "n", "xy"), request("b", "", "")])
    );
}
