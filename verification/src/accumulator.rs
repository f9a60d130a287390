//! Folding the pieces of one assistant turn into a whole message.

use crate::message::{assistant_message, call_views, text_view, Message, MessageView, ToolCallRequest, ToolCallView};
use vstd::prelude::*;

verus! {

/// Why the model ended its turn.
#[derive(Clone, Copy, Debug, PartialEq, Eq, Structural)]
pub enum FinishReason {
    /// The model asked for capabilities and waits for their results.
    ToolCalls,
    Stop,
    Length,
    ContentFilter,
    Error,
}

/// A piece of a request for a tool, as one frame delivers it.
#[derive(Clone, Debug, PartialEq, Eq)]
pub struct ToolCallFragment {
    /// The request that the piece belongs to.
    pub id: String,
    /// The capability's name; empty where the frame does not give it.
    pub name: String,
    /// The next part of the arguments.
    pub arguments: String,
}

impl View for ToolCallFragment {
    type V = ToolCallView;

    open spec fn view(&self) -> ToolCallView {
        ToolCallView { id: self.id@, name: self.name@, arguments: self.arguments@ }
    }
}

/// The fragments of a list, each by what it holds.
pub open spec fn fragment_views(fragments: Seq<ToolCallFragment>) -> Seq<ToolCallView> {
    fragments.map_values(|fragment: ToolCallFragment| fragment@)
}

/// What one frame adds to the turn.
#[derive(Clone, Debug, PartialEq, Eq)]
pub struct StreamDelta {
    /// The next part of the assistant's text.
    pub text: Option<String>,
    /// Pieces of requests for tools, in the order of the frame.
    pub tool_calls: Vec<ToolCallFragment>,
    /// Set on the frame that ends the turn.
    pub finish: Option<FinishReason>,
}

/// What a [`StreamDelta`] holds.
pub struct StreamDeltaView {
    pub text: Option<Seq<char>>,
    pub tool_calls: Seq<ToolCallView>,
    pub finish: Option<FinishReason>,
}

impl View for StreamDelta {
    type V = StreamDeltaView;

    open spec fn view(&self) -> StreamDeltaView {
        StreamDeltaView {
            text: text_view(self.text),
            tool_calls: fragment_views(self.tool_calls@),
            finish: self.finish,
        }
    }
}

/// The result of one round: the assistant's message and what ended the
/// stream.
#[derive(Clone, Debug, PartialEq, Eq)]
pub struct RoundOutcome {
    pub message: Message,
    /// `None` where the stream ended without the model giving a reason.
    pub reason: Option<FinishReason>,
}

/// What a [`RoundOutcome`] holds.
pub struct RoundOutcomeView {
    pub message: MessageView,
    pub reason: Option<FinishReason>,
}

impl View for RoundOutcome {
    type V = RoundOutcomeView;

    open spec fn view(&self) -> RoundOutcomeView {
        RoundOutcomeView { message: self.message@, reason: self.reason }
    }
}

/// The first position from `from` on at which a request has the identifier,
/// or the length of the list where none has.
pub open spec fn find_id(calls: Seq<ToolCallView>, id: Seq<char>, from: int) -> int
    decreases calls.len() - from,
{
    if from < 0 || from >= calls.len() {
        calls.len() as int
    } else if calls[from].id == id {
        from
    } else {
        find_id(calls, id, from + 1)
    }
}

/// A request with a further fragment of it taken in: the name is the first
/// one given that is not empty, the arguments follow each other.
pub open spec fn merged(call: ToolCallView, fragment: ToolCallView) -> ToolCallView {
    ToolCallView {
        id: call.id,
        name: if call.name.len() == 0 {
            fragment.name
        } else {
            call.name
        },
        arguments: call.arguments + fragment.arguments,
    }
}

/// The pending requests after one fragment: a fragment with a known
/// identifier extends that request in place, one with a new identifier starts
/// a request at the end.
pub open spec fn absorb_fragment(calls: Seq<ToolCallView>, fragment: ToolCallView) -> Seq<
    ToolCallView,
> {
    let at = find_id(calls, fragment.id, 0);
    if at < calls.len() {
        calls.update(at, merged(calls[at], fragment))
    } else {
        calls.push(fragment)
    }
}

/// The pending requests after a run of fragments, taken in order.
pub open spec fn absorb_fragments(calls: Seq<ToolCallView>, fragments: Seq<ToolCallView>) -> Seq<
    ToolCallView,
>
    decreases fragments.len(),
{
    if fragments.len() == 0 {
        calls
    } else {
        absorb_fragments(absorb_fragment(calls, fragments[0]), fragments.drop_first())
    }
}

/// The state of a turn that is being received.
pub struct TurnView {
    pub text: Seq<char>,
    pub calls: Seq<ToolCallView>,
}

/// A turn of which nothing has arrived.
pub open spec fn empty_turn() -> TurnView {
    TurnView { text: Seq::empty(), calls: Seq::empty() }
}

/// The turn after one delta: its text is appended, its fragments are taken in.
pub open spec fn absorb_delta(turn: TurnView, delta: StreamDeltaView) -> TurnView {
    TurnView {
        text: match delta.text {
            Some(text) => turn.text + text,
            None => turn.text,
        },
        calls: absorb_fragments(turn.calls, delta.tool_calls),
    }
}

/// Whether the requests of a turn are to be run: only where the model ended
/// the turn to wait for them, and asked for any.
pub open spec fn dispatches(turn: TurnView, reason: Option<FinishReason>) -> bool {
    reason == Some(FinishReason::ToolCalls) && turn.calls.len() > 0
}

/// The outcome that a turn is frozen into when its stream ends. Requests of
/// a turn that did not end to wait for them are dropped; a turn that ended to
/// wait for requests and made none counts as a plain stop.
pub open spec fn frozen(turn: TurnView, reason: Option<FinishReason>) -> RoundOutcomeView {
    RoundOutcomeView {
        message: assistant_message(
            turn.text,
            if dispatches(turn, reason) {
                Some(turn.calls)
            } else {
                None
            },
        ),
        reason: if reason == Some(FinishReason::ToolCalls) && turn.calls.len() == 0 {
            Some(FinishReason::Stop)
        } else {
            reason
        },
    }
}

/// Receives one assistant turn piece by piece.
pub struct TurnAccumulator {
    text: String,
    calls: Vec<ToolCallRequest>,
}

impl View for TurnAccumulator {
    type V = TurnView;

    closed spec fn view(&self) -> TurnView {
        TurnView { text: self.text@, calls: call_views(self.calls@) }
    }
}

impl TurnAccumulator {
    /// An accumulator for a turn of which nothing has arrived.
    pub fn new() -> (r: TurnAccumulator)
        ensures
            r@ == empty_turn(),
    {
        let r = TurnAccumulator { text: String::new(), calls: Vec::new() };
        assert(call_views(r.calls@) =~= Seq::empty());
        r
    }

    /// The text received so far.
    pub fn text(&self) -> (r: &str)
        ensures
            r@ == self@.text,
    {
        self.text.as_str()
    }

    /// The number of requests that are pending.
    pub fn pending(&self) -> (r: usize)
        ensures
            r == self@.calls.len(),
    {
        self.calls.len()
    }

    fn position(&self, id: &String) -> (r: usize)
        ensures
            r == find_id(self@.calls, id@, 0),
            r <= self.calls.len(),
    {
        let ghost calls = call_views(self.calls@);
        let mut i: usize = 0;
        while i < self.calls.len()
            invariant
                i <= self.calls.len(),
                calls == call_views(self.calls@),
                find_id(calls, id@, 0) == find_id(calls, id@, i as int),
            decreases self.calls.len() - i,
        {
            if self.calls[i].id == *id {
                return i;
            }
            i += 1;
        }
        i
    }

    /// Takes in one fragment of a request.
    pub fn absorb_fragment(&mut self, fragment: &ToolCallFragment)
        ensures
            final(self)@.text == old(self)@.text,
            final(self)@.calls == absorb_fragment(old(self)@.calls, fragment@),
    {
        let at = self.position(&fragment.id);
        if at < self.calls.len() {
            let name = if self.calls[at].name.as_str().is_empty() {
                fragment.name.clone()
            } else {
                self.calls[at].name.clone()
            };
            let mut arguments = self.calls[at].arguments.clone();
            arguments.append(fragment.arguments.as_str());
            let extended = ToolCallRequest { id: self.calls[at].id.clone(), name, arguments };
            self.calls.set(at, extended);
        } else {
            self.calls.push(
                ToolCallRequest {
                    id: fragment.id.clone(),
                    name: fragment.name.clone(),
                    arguments: fragment.arguments.clone(),
                },
            );
        }
        assert(call_views(self.calls@) =~= absorb_fragment(
            call_views(old(self).calls@),
            fragment@,
        ));
    }

    /// Takes in what one frame adds: its text, then its fragments in order.
    pub fn absorb(&mut self, delta: &StreamDelta)
        ensures
            final(self)@ == absorb_delta(old(self)@, delta@),
    {
        match &delta.text {
            Some(text) => {
                self.text.append(text.as_str());
            },
            None => {},
        }
        let ghost start = call_views(self.calls@);
        let ghost fragments = fragment_views(delta.tool_calls@);
        let ghost text = self.text@;
        let mut i: usize = 0;
        assert(fragments.skip(0) =~= fragments);
        while i < delta.tool_calls.len()
            invariant
                i <= delta.tool_calls.len(),
                fragments == fragment_views(delta.tool_calls@),
                self.text@ == text,
                absorb_fragments(start, fragments) == absorb_fragments(
                    call_views(self.calls@),
                    fragments.skip(i as int),
                ),
            decreases delta.tool_calls.len() - i,
        {
            let ghost before = call_views(self.calls@);
            self.absorb_fragment(&delta.tool_calls[i]);
            proof {
                let rest = fragments.skip(i as int);
                assert(rest[0] == delta.tool_calls[i as int]@);
                assert(rest.drop_first() =~= fragments.skip(i + 1));
            }
            i += 1;
        }
        assert(fragments.skip(i as int).len() == 0);
    }

    /// Ends the turn: gives its outcome and leaves the accumulator empty for
    /// the next round.
    pub fn freeze(&mut self, reason: Option<FinishReason>) -> (r: RoundOutcome)
        ensures
            r@ == frozen(old(self)@, reason),
            final(self)@ == empty_turn(),
    {
        let mut text = String::new();
        let mut calls: Vec<ToolCallRequest> = Vec::new();
        std::mem::swap(&mut self.text, &mut text);
        std::mem::swap(&mut self.calls, &mut calls);
        assert(call_views(self.calls@) =~= Seq::empty());
        let waits = match reason {
            Some(FinishReason::ToolCalls) => true,
            _ => false,
        };
        if waits && calls.len() > 0 {
            RoundOutcome { message: Message::assistant(text, calls), reason }
        } else {
            let outcome_reason = if waits {
                Some(FinishReason::Stop)
            } else {
                reason
            };
            RoundOutcome { message: Message::assistant(text, Vec::new()), reason: outcome_reason }
        }
    }
}

/// An outcome carries requests exactly where its reason is that the model
/// waits for them; the requests are then those of the turn, and there is one
/// at least.
pub proof fn law_outcome_reason_matches_requests(turn: TurnView, reason: Option<FinishReason>)
    ensures
        frozen(turn, reason).message.tool_calls is Some <==> frozen(turn, reason).reason == Some(
            FinishReason::ToolCalls,
        ),
        frozen(turn, reason).message.tool_calls is Some ==> frozen(turn, reason).message.tool_calls
            == Some(turn.calls) && turn.calls.len() > 0,
        frozen(turn, reason).message.role == crate::message::Role::Assistant,
        frozen(turn, reason).message.content == turn.text,
{
}

/// The turn after a run of deltas, taken in order.
pub open spec fn absorb_deltas(turn: TurnView, deltas: Seq<StreamDeltaView>) -> TurnView
    decreases deltas.len(),
{
    if deltas.len() == 0 {
        turn
    } else {
        absorb_deltas(absorb_delta(turn, deltas[0]), deltas.drop_first())
    }
}

/// The fragments of a run of deltas, in the order of their arrival.
pub open spec fn all_fragments(deltas: Seq<StreamDeltaView>) -> Seq<ToolCallView>
    decreases deltas.len(),
{
    if deltas.len() == 0 {
        Seq::empty()
    } else {
        deltas[0].tool_calls + all_fragments(deltas.drop_first())
    }
}

/// The text of a run of deltas, in the order of their arrival.
pub open spec fn all_text(deltas: Seq<StreamDeltaView>) -> Seq<char>
    decreases deltas.len(),
{
    if deltas.len() == 0 {
        Seq::empty()
    } else {
        match deltas[0].text {
            Some(text) => text + all_text(deltas.drop_first()),
            None => all_text(deltas.drop_first()),
        }
    }
}

/// `find_id` gives a position from `from` on, the request there has the
/// identifier, and no request between `from` and it has.
pub proof fn lemma_find_id(calls: Seq<ToolCallView>, id: Seq<char>, from: int)
    requires
        0 <= from <= calls.len(),
    ensures
        from <= find_id(calls, id, from) <= calls.len(),
        find_id(calls, id, from) < calls.len() ==> calls[find_id(calls, id, from)].id == id,
        forall|j: int| from <= j < find_id(calls, id, from) ==> calls[j].id != id,
    decreases calls.len() - from,
{
    if from < calls.len() && calls[from].id != id {
        lemma_find_id(calls, id, from + 1);
    }
}

/// `find_id` looks at identifiers only.
proof fn lemma_find_id_by_ids(
    calls: Seq<ToolCallView>,
    others: Seq<ToolCallView>,
    id: Seq<char>,
    from: int,
)
    requires
        0 <= from,
        calls.len() == others.len(),
        forall|j: int| 0 <= j < calls.len() ==> calls[j].id == others[j].id,
    ensures
        find_id(calls, id, from) == find_id(others, id, from),
    decreases calls.len() - from,
{
    if from < calls.len() && calls[from].id != id {
        lemma_find_id_by_ids(calls, others, id, from + 1);
    }
}

/// Where a request is found once another is added at the end.
proof fn lemma_find_id_push(
    calls: Seq<ToolCallView>,
    added: ToolCallView,
    id: Seq<char>,
    from: int,
)
    requires
        0 <= from <= calls.len(),
    ensures
        find_id(calls.push(added), id, from) == if find_id(calls, id, from) < calls.len() {
            find_id(calls, id, from)
        } else if added.id == id {
            calls.len() as int
        } else {
            calls.len() as int + 1
        },
    decreases calls.len() - from,
{
    let longer = calls.push(added);
    if from < calls.len() {
        assert(longer[from] == calls[from]);
        if calls[from].id != id {
            lemma_find_id_push(calls, added, id, from + 1);
        }
    } else {
        assert(longer[from] == added);
        assert(find_id(longer, id, from + 1) == longer.len());
    }
}

/// Two fragments of one request, taken in one after the other, leave what
/// the two leave when they arrive as one fragment.
pub proof fn law_fragment_split(
    calls: Seq<ToolCallView>,
    first: ToolCallView,
    second: ToolCallView,
)
    requires
        first.id == second.id,
    ensures
        absorb_fragment(absorb_fragment(calls, first), second) == absorb_fragment(
            calls,
            merged(first, second),
        ),
{
    let id = first.id;
    let at = find_id(calls, id, 0);
    let once = absorb_fragment(calls, first);
    let whole = merged(first, second);
    lemma_find_id(calls, id, 0);
    if at < calls.len() {
        lemma_find_id_by_ids(calls, once, id, 0);
        assert((calls[at].arguments + first.arguments) + second.arguments =~= calls[at].arguments
            + (first.arguments + second.arguments));
        assert(merged(merged(calls[at], first), second) == merged(calls[at], whole));
        assert(absorb_fragment(once, second) =~= absorb_fragment(calls, whole));
    } else {
        lemma_find_id_push(calls, first, id, 0);
        assert(once[at] == first);
        assert(absorb_fragment(once, second) =~= absorb_fragment(calls, whole));
    }
}

/// A run of fragments may be taken in as two runs, one after the other.
pub proof fn law_fragments_in_two_runs(
    calls: Seq<ToolCallView>,
    first: Seq<ToolCallView>,
    second: Seq<ToolCallView>,
)
    ensures
        absorb_fragments(calls, first + second) == absorb_fragments(
            absorb_fragments(calls, first),
            second,
        ),
    decreases first.len(),
{
    if first.len() == 0 {
        assert(first + second =~= second);
    } else {
        assert((first + second)[0] == first[0]);
        assert((first + second).drop_first() =~= first.drop_first() + second);
        law_fragments_in_two_runs(absorb_fragment(calls, first[0]), first.drop_first(), second);
    }
}

/// Fragmentation is transparent: wherever a stream of fragments holds two
/// neighbouring pieces of one request, the requests that come out are those
/// of the stream that holds the two as one piece.
pub proof fn law_fragmentation_is_transparent(
    calls: Seq<ToolCallView>,
    before: Seq<ToolCallView>,
    first: ToolCallView,
    second: ToolCallView,
    after: Seq<ToolCallView>,
)
    requires
        first.id == second.id,
    ensures
        absorb_fragments(calls, before + seq![first, second] + after) == absorb_fragments(
            calls,
            before + seq![merged(first, second)] + after,
        ),
{
    let whole = merged(first, second);
    let reached = absorb_fragments(calls, before);
    law_fragments_in_two_runs(calls, before + seq![first, second], after);
    law_fragments_in_two_runs(calls, before, seq![first, second]);
    law_fragments_in_two_runs(calls, before + seq![whole], after);
    law_fragments_in_two_runs(calls, before, seq![whole]);
    let pair = seq![first, second];
    assert(pair.drop_first() =~= seq![second]);
    assert(seq![second].drop_first() =~= Seq::<ToolCallView>::empty());
    assert(seq![whole].drop_first() =~= Seq::<ToolCallView>::empty());
    assert(absorb_fragments(reached, pair) == absorb_fragment(
        absorb_fragment(reached, first),
        second,
    )) by {
        reveal_with_fuel(absorb_fragments, 3);
    }
    assert(absorb_fragments(reached, seq![whole]) == absorb_fragment(reached, whole)) by {
        reveal_with_fuel(absorb_fragments, 2);
    }
    law_fragment_split(reached, first, second);
}

/// The borders between frames do not matter: a turn is its text and its
/// fragments in the order of their arrival, however the frames divided them.
pub proof fn law_frame_borders_do_not_matter(turn: TurnView, deltas: Seq<StreamDeltaView>)
    ensures
        absorb_deltas(turn, deltas) == (TurnView {
            text: turn.text + all_text(deltas),
            calls: absorb_fragments(turn.calls, all_fragments(deltas)),
        }),
    decreases deltas.len(),
{
    if deltas.len() == 0 {
        assert(turn.text + all_text(deltas) =~= turn.text);
    } else {
        let next = absorb_delta(turn, deltas[0]);
        let rest = deltas.drop_first();
        law_frame_borders_do_not_matter(next, rest);
        law_fragments_in_two_runs(turn.calls, deltas[0].tool_calls, all_fragments(rest));
        assert(next.text + all_text(rest) =~= turn.text + all_text(deltas));
    }
}

/// The identifiers of a stream of fragments, each once, in the order in
/// which they first appear.
pub open spec fn ids_of(fragments: Seq<ToolCallView>) -> Seq<Seq<char>>
    decreases fragments.len(),
{
    if fragments.len() == 0 {
        Seq::empty()
    } else {
        let before = ids_of(fragments.drop_last());
        if before.contains(fragments.last().id) {
            before
        } else {
            before.push(fragments.last().id)
        }
    }
}

/// The arguments that a stream of fragments gives for an identifier: those
/// of its fragments with that identifier, one after the other.
pub open spec fn arguments_of(fragments: Seq<ToolCallView>, id: Seq<char>) -> Seq<char>
    decreases fragments.len(),
{
    if fragments.len() == 0 {
        Seq::empty()
    } else if fragments.last().id == id {
        arguments_of(fragments.drop_last(), id) + fragments.last().arguments
    } else {
        arguments_of(fragments.drop_last(), id)
    }
}

/// The name that a stream of fragments gives for an identifier: the first
/// one that is not empty among its fragments with that identifier.
pub open spec fn name_of(fragments: Seq<ToolCallView>, id: Seq<char>) -> Seq<char>
    decreases fragments.len(),
{
    if fragments.len() == 0 {
        Seq::empty()
    } else {
        let before = name_of(fragments.drop_last(), id);
        if before.len() == 0 && fragments.last().id == id {
            fragments.last().name
        } else {
            before
        }
    }
}

/// The request that a stream of fragments makes under an identifier.
pub open spec fn request_of(fragments: Seq<ToolCallView>, id: Seq<char>) -> ToolCallView {
    ToolCallView { id, name: name_of(fragments, id), arguments: arguments_of(fragments, id) }
}

/// The requests that a stream of fragments makes: one for each identifier,
/// in the order in which the identifiers first appear.
pub open spec fn assembled(fragments: Seq<ToolCallView>) -> Seq<ToolCallView> {
    ids_of(fragments).map_values(|id: Seq<char>| request_of(fragments, id))
}

/// No identifier stands twice among those of a stream.
proof fn lemma_ids_are_distinct(fragments: Seq<ToolCallView>)
    ensures
        forall|i: int, j: int|
            0 <= i < j < ids_of(fragments).len() ==> ids_of(fragments)[i] != ids_of(fragments)[j],
    decreases fragments.len(),
{
    if fragments.len() > 0 {
        let before = ids_of(fragments.drop_last());
        lemma_ids_are_distinct(fragments.drop_last());
        if !before.contains(fragments.last().id) {
            let ids = before.push(fragments.last().id);
            assert forall|i: int, j: int| 0 <= i < j < ids.len() implies ids[i] != ids[j] by {
                if j == before.len() {
                    assert(before[i] == ids[i]);
                }
            }
        }
    }
}

/// A stream gives nothing for an identifier that is not among its own.
proof fn lemma_absent_id(fragments: Seq<ToolCallView>, id: Seq<char>)
    requires
        !ids_of(fragments).contains(id),
    ensures
        name_of(fragments, id).len() == 0,
        arguments_of(fragments, id).len() == 0,
    decreases fragments.len(),
{
    if fragments.len() > 0 {
        let before = ids_of(fragments.drop_last());
        let last = fragments.last().id;
        if before.contains(last) {
            assert(last != id);
        } else {
            let ids = before.push(last);
            assert(ids[before.len() as int] == last);
            assert(last != id);
            if before.contains(id) {
                let at = choose|i: int| 0 <= i < before.len() && before[i] == id;
                assert(ids[at] == id);
            }
        }
        lemma_absent_id(fragments.drop_last(), id);
    }
}

/// The requests that come out of a stream of fragments are those that the
/// stream makes: one for each identifier, in the order in which the
/// identifiers first appear, with the first name given that is not empty and
/// with the arguments of all its fragments, one after the other.
pub proof fn law_requests_are_assembled(fragments: Seq<ToolCallView>)
    ensures
        absorb_fragments(Seq::empty(), fragments) == assembled(fragments),
    decreases fragments.len(),
{
    if fragments.len() == 0 {
        assert(assembled(fragments) =~= Seq::<ToolCallView>::empty());
    } else {
        let earlier = fragments.drop_last();
        let last = fragments.last();
        let ids = ids_of(earlier);
        let calls = assembled(earlier);
        law_requests_are_assembled(earlier);
        assert(fragments =~= earlier + seq![last]);
        law_fragments_in_two_runs(Seq::empty(), earlier, seq![last]);
        assert(seq![last].drop_first() =~= Seq::<ToolCallView>::empty());
        assert(absorb_fragments(calls, seq![last]) == absorb_fragment(calls, last)) by {
            reveal_with_fuel(absorb_fragments, 2);
        }
        lemma_ids_are_distinct(earlier);
        lemma_find_id(calls, last.id, 0);
        let at = find_id(calls, last.id, 0);
        let after = absorb_fragment(calls, last);
        let whole = assembled(fragments);
        if ids.contains(last.id) {
            let known = choose|i: int| 0 <= i < ids.len() && ids[i] == last.id;
            assert(calls[known].id == last.id);
            assert(at < calls.len());
            assert(ids[at] == last.id);
            assert forall|i: int| 0 <= i < whole.len() implies whole[i] == after[i] by {
                if i != at {
                    assert(ids[i] != last.id);
                }
            }
            assert(after =~= whole);
        } else {
            assert forall|i: int| 0 <= i < calls.len() implies calls[i].id != last.id by {
                assert(ids[i] == calls[i].id);
            }
            assert(at == calls.len());
            lemma_absent_id(earlier, last.id);
            assert(arguments_of(earlier, last.id) + last.arguments =~= last.arguments);
            assert forall|i: int| 0 <= i < whole.len() implies whole[i] == after[i] by {
                if i < ids.len() {
                    assert(ids[i] != last.id);
                }
            }
            assert(after =~= whole);
        }
    }
}

/// Cutting the requests of a turn into other fragments changes nothing: two
/// streams of fragments that name the same identifiers in the same order of
/// first appearance, and give each identifier the same name and the same
/// arguments, come out as the same requests.
pub proof fn law_recutting_is_transparent(first: Seq<ToolCallView>, second: Seq<ToolCallView>)
    requires
        ids_of(first) == ids_of(second),
        forall|i: int|
            0 <= i < ids_of(first).len() ==> name_of(first, #[trigger] ids_of(first)[i]) == name_of(
                second,
                ids_of(first)[i],
            ),
        forall|i: int|
            0 <= i < ids_of(first).len() ==> arguments_of(first, #[trigger] ids_of(first)[i])
                == arguments_of(second, ids_of(first)[i]),
    ensures
        absorb_fragments(Seq::empty(), first) == absorb_fragments(Seq::empty(), second),
{
    law_requests_are_assembled(first);
    law_requests_are_assembled(second);
    assert(assembled(first) =~= assembled(second));
}

/// A turn that began empty holds the requests that its fragments make and
/// the text of its deltas, however the frames divided them.
pub proof fn law_turn_requests_are_assembled(deltas: Seq<StreamDeltaView>)
    ensures
        absorb_deltas(empty_turn(), deltas).calls == assembled(all_fragments(deltas)),
        absorb_deltas(empty_turn(), deltas).text == all_text(deltas),
{
    law_frame_borders_do_not_matter(empty_turn(), deltas);
    law_requests_are_assembled(all_fragments(deltas));
    assert(empty_turn().text + all_text(deltas) =~= all_text(deltas));
}

} // verus!
