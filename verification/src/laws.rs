//! What holds of whole runs of the loop.

use crate::accumulator::{
    absorb_delta, absorb_deltas, all_fragments, all_text, arguments_of, assembled, empty_turn,
    ids_of, law_frame_borders_do_not_matter, law_requests_are_assembled, name_of, FinishReason,
    StreamDeltaView,
};
use crate::frame::{frame_of, ParsedFrameView};
use crate::message::{answers, assistant_message, requestable, tool_message, MessageView, Role};
use crate::orchestrator::{
    absorbed, answered, completed, dispatched, framed, initial, lemma_absorbed,
    lemma_answer_recorded, lemma_dispatched, lemma_push_keeps_order, lemma_step, step_of, ActionView,
    EventView, Model, Phase,
};
use crate::tools::{error_text, plan_of, result_content, PlanView, ToolErrorView};
use vstd::prelude::*;

verus! {

/// The state after a run of events, each taken by a step.
pub open spec fn run_of(model: Model, events: Seq<EventView>) -> Model
    decreases events.len(),
{
    if events.len() == 0 {
        model
    } else {
        run_of(step_of(model, events[0]).next, events.drop_first())
    }
}

/// The actions that the steps of a run of events give, in their order.
pub open spec fn actions_of(model: Model, events: Seq<EventView>) -> Seq<ActionView>
    decreases events.len(),
{
    if events.len() == 0 {
        Seq::empty()
    } else {
        seq![step_of(model, events[0]).action] + actions_of(
            step_of(model, events[0]).next,
            events.drop_first(),
        )
    }
}

/// The events of a stream that delivers these lines.
pub open spec fn frames(lines: Seq<Seq<char>>) -> Seq<EventView> {
    lines.map_values(|line: Seq<char>| EventView::Frame { line })
}

/// The events of capabilities that finish with these results.
pub open spec fn finishes(outcomes: Seq<Result<Seq<char>, ToolErrorView>>) -> Seq<EventView> {
    outcomes.map_values(
        |outcome: Result<Seq<char>, ToolErrorView>| EventView::ToolFinished { outcome },
    )
}

/// A line that neither ends the turn nor asks for a capability: it adds
/// text, or nothing.
pub open spec fn adds_text_only(line: Seq<char>) -> bool {
    match frame_of(line) {
        Ok(ParsedFrameView::Decoded(delta)) => delta.finish is None && delta.tool_calls.len() == 0,
        Ok(ParsedFrameView::Terminator) => false,
        _ => true,
    }
}

/// A line that ends the turn with a plain stop and asks for no capability.
pub open spec fn stops(line: Seq<char>) -> bool {
    match frame_of(line) {
        Ok(ParsedFrameView::Decoded(delta)) => delta.finish == Some(FinishReason::Stop)
            && delta.tool_calls.len() == 0,
        _ => false,
    }
}

/// The text that a line adds to the turn.
pub open spec fn line_text(line: Seq<char>) -> Seq<char> {
    match frame_of(line) {
        Ok(ParsedFrameView::Decoded(delta)) => match delta.text {
            Some(text) => text,
            None => Seq::empty(),
        },
        _ => Seq::empty(),
    }
}

/// The text that a run of lines adds to the turn.
pub open spec fn lines_text(lines: Seq<Seq<char>>) -> Seq<char>
    decreases lines.len(),
{
    if lines.len() == 0 {
        Seq::empty()
    } else {
        line_text(lines[0]) + lines_text(lines.drop_first())
    }
}

/// Lines that add text and then stop: every line but the last adds text
/// only, and the last one stops.
pub open spec fn plain_answer(lines: Seq<Seq<char>>) -> bool {
    &&& lines.len() > 0
    &&& forall|i: int| 0 <= i < lines.len() - 1 ==> adds_text_only(#[trigger] lines[i])
    &&& stops(lines.last())
}

/// The actions of a stream of `count` lines that is read to its end and
/// ends the run.
pub open spec fn read_to_the_end(count: nat) -> Seq<ActionView> {
    Seq::new(
        count,
        |i: int|
            if i < count - 1 {
                ActionView::ReadFrame
            } else {
                ActionView::Finish
            },
    )
}

/// A stream that adds text and then stops ends the run in the round that it
/// belongs to: the run is done, the history has grown by the assistant's
/// message and by nothing else, and no further request was asked for.
pub proof fn law_plain_answer_ends_the_run(model: Model, lines: Seq<Seq<char>>)
    requires
        model.wf(),
        model.phase == Phase::Streaming || model.phase == Phase::Accumulating,
        model.turn.calls.len() == 0,
        plain_answer(lines),
    ensures
        run_of(model, frames(lines)).phase == Phase::Done,
        run_of(model, frames(lines)).history == model.history.push(
            assistant_message(model.turn.text + lines_text(lines), None),
        ),
        actions_of(model, frames(lines)) == read_to_the_end(lines.len()),
    decreases lines.len(),
{
    let events = frames(lines);
    let first = step_of(model, events[0]);
    let rest = lines.drop_first();
    assert(events[0] == EventView::Frame { line: lines[0] });
    assert(events.drop_first() =~= frames(rest));
    assert(first == framed(model, lines[0]));
    lemma_absorbed(model, frame_of(lines[0]));
    if lines.len() == 1 {
        assert(lines[0] == lines.last());
        assert(lines_text(rest) =~= Seq::<char>::empty());
        assert(model.turn.text + lines_text(lines) =~= model.turn.text + line_text(lines[0]));
        let delta = frame_of(lines[0])->Ok_0->Decoded_0;
        let taken = Model {
            phase: Phase::Accumulating,
            turn: absorb_delta(model.turn, delta),
            ..model
        };
        assert(taken.turn.calls =~= model.turn.calls);
        assert(taken.turn.text =~= model.turn.text + line_text(lines[0]));
        assert(first.next == completed(taken, Some(FinishReason::Stop)).next);
        assert(run_of(first.next, frames(rest)) == first.next);
        assert(actions_of(first.next, frames(rest)) =~= Seq::<ActionView>::empty());
        assert(actions_of(model, events) =~= read_to_the_end(lines.len()));
    } else {
        assert(adds_text_only(lines[0]));
        assert(rest.last() == lines.last());
        assert forall|i: int| 0 <= i < rest.len() - 1 implies adds_text_only(
            #[trigger] rest[i],
        ) by {
            assert(rest[i] == lines[i + 1]);
        }
        assert(first.next.turn.calls =~= model.turn.calls);
        assert(first.next.turn.text =~= model.turn.text + line_text(lines[0]));
        assert(first.next.history == model.history);
        assert(first.action == ActionView::ReadFrame);
        law_plain_answer_ends_the_run(first.next, rest);
        assert((model.turn.text + line_text(lines[0])) + lines_text(rest) =~= model.turn.text
            + lines_text(lines));
        assert(actions_of(model, events) =~= read_to_the_end(lines.len()));
    }
}

/// A run on a history, answered with a success and a stream that adds text
/// and then stops, takes exactly one round: the request that the start asks
/// for is the only one, the run is done, and the history has grown by exactly
/// one message, the assistant's.
pub proof fn law_one_round(
    history: Seq<MessageView>,
    root: Seq<char>,
    status: u16,
    lines: Seq<Seq<char>>,
)
    requires
        requestable(history),
        crate::orchestrator::is_success(status),
        plain_answer(lines),
    ensures
        ({
            let events = seq![EventView::Opened { status }] + frames(lines);
            &&& run_of(initial(history, root), events).phase == Phase::Done
            &&& run_of(initial(history, root), events).history == history.push(
                assistant_message(lines_text(lines), None),
            )
            &&& !actions_of(initial(history, root), events).contains(ActionView::SendRequest)
        }),
{
    let start = initial(history, root);
    let events = seq![EventView::Opened { status }] + frames(lines);
    let opened = step_of(start, events[0]).next;
    assert(events.drop_first() =~= frames(lines));
    assert(start.wf());
    lemma_step(start, events[0]);
    law_plain_answer_ends_the_run(opened, lines);
    assert(Seq::<char>::empty() + lines_text(lines) =~= lines_text(lines));
    let actions = actions_of(start, events);
    assert(actions =~= seq![ActionView::ReadFrame] + read_to_the_end(lines.len()));
    assert forall|i: int| 0 <= i < actions.len() implies actions[i]
        != ActionView::SendRequest by {}
}

/// A capability that fails does not fail the run, whatever its error, one
/// for arguments that it could not use among them: the error's text becomes
/// the content of the tool message for the request, and the loop goes on to
/// the requests that are left or, with none left, to the next request to the
/// service.
pub proof fn law_tool_errors_do_not_fail(model: Model, error: ToolErrorView)
    requires
        model.wf(),
        model.phase == Phase::Executing,
    ensures
        ({
            let event = EventView::ToolFinished { outcome: Err(error) };
            let after = step_of(model, event).next;
            let reply = tool_message(model.asked[model.answered as int], error_text(error));
            &&& after.phase == Phase::Requesting || after.phase == Phase::Executing
            &&& after.failure is None
            &&& after.answered > model.answered
            &&& model.history.push(reply).is_prefix_of(after.history)
        }),
{
    let outcome = Err::<Seq<char>, ToolErrorView>(error);
    let reply = tool_message(model.asked[model.answered as int], result_content(outcome));
    let longer = model.history.push(reply);
    let next = Model { history: longer, answered: model.answered + 1, ..model };
    lemma_step(model, EventView::ToolFinished { outcome });
    lemma_push_keeps_order(model.history, reply);
    lemma_answer_recorded(model.history, model.asked, model.answered, reply);
    lemma_dispatched(next);
}

/// A request whose arguments its capability cannot read is answered at
/// once, with the error's text as the content of its tool message, and the
/// loop goes on to the requests that are left.
pub proof fn law_unreadable_arguments_are_answered(model: Model, content: Seq<char>)
    requires
        model.answered < model.asked.len(),
        plan_of(model.asked[model.answered as int], model.root) == PlanView::Reply(content),
    ensures
        ({
            let call = model.asked[model.answered as int];
            let told = Model {
                history: model.history.push(tool_message(call, content)),
                answered: model.answered + 1,
                ..model
            };
            &&& dispatched(model).next == dispatched(told).next
            &&& dispatched(model).action == dispatched(told).action
        }),
{
}

/// In a run that is between rounds, events of capabilities change nothing.
proof fn lemma_requesting_ignores_tools(
    model: Model,
    outcomes: Seq<Result<Seq<char>, ToolErrorView>>,
)
    requires
        model.phase == Phase::Requesting,
    ensures
        run_of(model, finishes(outcomes)) == model,
    decreases outcomes.len(),
{
    if outcomes.len() > 0 {
        assert(finishes(outcomes).drop_first() =~= finishes(outcomes.drop_first()));
        lemma_requesting_ignores_tools(model, outcomes.drop_first());
    }
}

/// Order of the answers: once as many capabilities have finished as requests
/// of a round were left, the next request to the service is due, every
/// request of the round has its tool message, and the tool messages stand
/// behind the assistant's message in the order in which the requests were
/// made.
pub proof fn law_answers_follow_requests(
    model: Model,
    outcomes: Seq<Result<Seq<char>, ToolErrorView>>,
)
    requires
        model.wf(),
        model.phase == Phase::Executing,
        outcomes.len() >= model.asked.len() - model.answered,
    ensures
        ({
            let after = run_of(model, finishes(outcomes));
            let count = model.asked.len();
            &&& after.wf()
            &&& after.phase == Phase::Requesting
            &&& after.history.len() > count
            &&& model.history.is_prefix_of(after.history)
            &&& after.history[after.history.len() - count - 1].tool_calls == Some(model.asked)
            &&& forall|j: int|
                0 <= j < count ==> answers(
                    after.history[after.history.len() - count + j],
                    #[trigger] model.asked[j],
                )
        }),
    decreases outcomes.len(),
{
    let events = finishes(outcomes);
    let first = step_of(model, events[0]).next;
    let rest = outcomes.drop_first();
    assert(events[0] == EventView::ToolFinished { outcome: outcomes[0] });
    assert(events.drop_first() =~= finishes(rest));
    lemma_step(model, events[0]);
    let reply = tool_message(model.asked[model.answered as int], result_content(outcomes[0]));
    let longer = model.history.push(reply);
    let next = Model { history: longer, answered: model.answered + 1, ..model };
    lemma_push_keeps_order(model.history, reply);
    lemma_answer_recorded(model.history, model.asked, model.answered, reply);
    lemma_dispatched(next);
    assert(first == dispatched(next).next);
    if first.phase == Phase::Requesting {
        lemma_requesting_ignores_tools(first, rest);
    } else {
        law_answers_follow_requests(first, rest);
        let after = run_of(first, finishes(rest));
        assert(model.history.is_prefix_of(after.history)) by {
            assert(model.history =~= after.history.subrange(0, model.history.len() as int));
        }
    }
}

/// A run that is done may be taken up again: with a new message of the user
/// behind it, its history is one that a request may be sent with, and the run
/// on it starts as any run does, with nothing left of the run before.
pub proof fn law_done_history_can_go_on(model: Model, prompt: MessageView)
    requires
        model.wf(),
        model.phase == Phase::Done,
        prompt.role == Role::User,
    ensures
        requestable(model.history.push(prompt)),
        initial(model.history.push(prompt), model.root).wf(),
        initial(model.history.push(prompt), model.root).phase == Phase::Requesting,
{
    lemma_push_keeps_order(model.history, prompt);
}

/// A line that does not end the round: it adds to the turn, or adds nothing.
pub open spec fn adds_only(line: Seq<char>) -> bool {
    match frame_of(line) {
        Ok(ParsedFrameView::Decoded(delta)) => delta.finish is None,
        Ok(ParsedFrameView::Terminator) => false,
        _ => true,
    }
}

/// An event that ends the round: the stream closes, or a line arrives that
/// is the sentinel or a chunk with a reason.
pub open spec fn ends_round(event: EventView) -> bool {
    match event {
        EventView::Closed => true,
        EventView::Frame { line } => !adds_only(line),
        _ => false,
    }
}

/// The deltas that a run of lines delivers, in their order.
pub open spec fn deltas_of(lines: Seq<Seq<char>>) -> Seq<StreamDeltaView>
    decreases lines.len(),
{
    if lines.len() == 0 {
        Seq::empty()
    } else {
        match frame_of(lines[0]) {
            Ok(ParsedFrameView::Decoded(delta)) => seq![delta] + deltas_of(lines.drop_first()),
            _ => deltas_of(lines.drop_first()),
        }
    }
}

/// Lines that do not end the round change the turn and nothing else: the
/// turn takes in the deltas that they deliver.
pub proof fn lemma_lines_fill_the_turn(model: Model, lines: Seq<Seq<char>>)
    requires
        model.wf(),
        model.phase == Phase::Streaming || model.phase == Phase::Accumulating,
        forall|i: int| 0 <= i < lines.len() ==> adds_only(#[trigger] lines[i]),
    ensures
        ({
            let after = run_of(model, frames(lines));
            &&& after.wf()
            &&& after.phase == Phase::Streaming || after.phase == Phase::Accumulating
            &&& after == Model {
                phase: after.phase,
                turn: absorb_deltas(model.turn, deltas_of(lines)),
                ..model
            }
        }),
    decreases lines.len(),
{
    if lines.len() > 0 {
        let events = frames(lines);
        let rest = lines.drop_first();
        assert(events[0] == EventView::Frame { line: lines[0] });
        assert(events.drop_first() =~= frames(rest));
        assert(adds_only(lines[0]));
        let next = step_of(model, events[0]).next;
        assert(next == absorbed(model, frame_of(lines[0])).next);
        lemma_absorbed(model, frame_of(lines[0]));
        assert forall|i: int| 0 <= i < rest.len() implies adds_only(#[trigger] rest[i]) by {
            assert(rest[i] == lines[i + 1]);
        }
        lemma_lines_fill_the_turn(next, rest);
        match frame_of(lines[0]) {
            Ok(ParsedFrameView::Decoded(delta)) => {
                let deltas = deltas_of(lines);
                assert(deltas[0] == delta);
                assert(deltas.drop_first() =~= deltas_of(rest));
            },
            _ => {},
        }
    }
}

/// Which phase the requests of a round are run from makes no difference.
proof fn lemma_dispatched_from_any_phase(model: Model, phase: Phase)
    ensures
        dispatched(Model { phase, ..model }) == dispatched(model),
    decreases model.asked.len() - model.answered,
{
    if model.answered < model.asked.len() {
        let call = model.asked[model.answered as int];
        match plan_of(call, model.root) {
            PlanView::Invoke(_) => {},
            PlanView::Reply(content) => {
                let told = Model {
                    history: model.history.push(tool_message(call, content)),
                    answered: model.answered + 1,
                    ..model
                };
                lemma_dispatched_from_any_phase(told, phase);
                assert(Model { phase, ..told } == Model {
                    history: model.history.push(tool_message(call, content)),
                    answered: model.answered + 1,
                    ..Model { phase, ..model }
                });
            },
        }
    }
}

/// Re-cutting is transparent to the run. Two streams may cut the text and
/// the requests of a turn into frames and fragments as they like: where they
/// deliver the same text, name the same identifiers in the same order of
/// first appearance, and give each identifier the same name and the same
/// arguments, the round ends the same way on both, with the same history,
/// the same action and the same events, whatever ends it.
pub proof fn law_recut_streams_run_alike(
    model: Model,
    first: Seq<Seq<char>>,
    second: Seq<Seq<char>>,
    closing: EventView,
)
    requires
        model.wf(),
        model.phase == Phase::Streaming,
        forall|i: int| 0 <= i < first.len() ==> adds_only(#[trigger] first[i]),
        forall|i: int| 0 <= i < second.len() ==> adds_only(#[trigger] second[i]),
        ends_round(closing),
        all_text(deltas_of(first)) == all_text(deltas_of(second)),
        ids_of(all_fragments(deltas_of(first))) == ids_of(all_fragments(deltas_of(second))),
        forall|id: Seq<char>|
            #![trigger name_of(all_fragments(deltas_of(first)), id)]
            ids_of(all_fragments(deltas_of(first))).contains(id) ==> name_of(
                all_fragments(deltas_of(first)),
                id,
            ) == name_of(all_fragments(deltas_of(second)), id),
        forall|id: Seq<char>|
            #![trigger arguments_of(all_fragments(deltas_of(first)), id)]
            ids_of(all_fragments(deltas_of(first))).contains(id) ==> arguments_of(
                all_fragments(deltas_of(first)),
                id,
            ) == arguments_of(all_fragments(deltas_of(second)), id),
    ensures
        step_of(run_of(model, frames(first)), closing) == step_of(
            run_of(model, frames(second)),
            closing,
        ),
{
    let one = run_of(model, frames(first));
    let other = run_of(model, frames(second));
    let pieces = all_fragments(deltas_of(first));
    let recut = all_fragments(deltas_of(second));
    lemma_lines_fill_the_turn(model, first);
    lemma_lines_fill_the_turn(model, second);
    law_frame_borders_do_not_matter(empty_turn(), deltas_of(first));
    law_frame_borders_do_not_matter(empty_turn(), deltas_of(second));
    law_requests_are_assembled(pieces);
    law_requests_are_assembled(recut);
    assert(assembled(pieces) =~= assembled(recut)) by {
        let ids = ids_of(pieces);
        assert forall|i: int| 0 <= i < ids.len() implies assembled(pieces)[i] == assembled(
            recut,
        )[i] by {
            assert(ids.contains(ids[i]));
        }
    }
    assert(one.turn == other.turn);
    assert(other == Model { phase: other.phase, ..one });
    match closing {
        EventView::Frame { line } => {
            match frame_of(line) {
                Ok(ParsedFrameView::Decoded(delta)) => {},
                _ => {
                    lemma_completed_from_any_phase(one, other.phase, None);
                },
            }
        },
        _ => {
            lemma_completed_from_any_phase(one, other.phase, None);
        },
    }
}

/// Which of the phases of an open stream a round is ended from makes no
/// difference.
proof fn lemma_completed_from_any_phase(model: Model, phase: Phase, reason: Option<FinishReason>)
    ensures
        completed(Model { phase, ..model }, reason) == completed(model, reason),
{
    let history = model.history.push(crate::accumulator::frozen(model.turn, reason).message);
    let round = Model {
        history,
        turn: empty_turn(),
        asked: model.turn.calls,
        answered: 0,
        ..model
    };
    lemma_dispatched_from_any_phase(round, phase);
    assert(Model { phase, ..round } == Model {
        history,
        turn: empty_turn(),
        asked: model.turn.calls,
        answered: 0,
        ..Model { phase, ..model }
    });
}

} // verus!
