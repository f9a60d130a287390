//! The wire contract of the completion service: what a streamed chunk means
//! and what a request holds.

use crate::accumulator::{fragment_views, FinishReason, StreamDelta, StreamDeltaView, ToolCallFragment};
use crate::json::{
    array_value, bool_value, empty_object, find_present, insert_member, integer_value, member,
    null_value, optional_text, present_member, read_optional_text, read_required_text,
    required_text, text_value, trees_of, value_items, value_member, value_text, value_tree,
    JsonTree,
};
use crate::message::{message_views, text_view, Message, MessageView, Role, ToolCallRequest, ToolCallView};
use crate::text::same_text;
use vstd::prelude::*;

verus! {

/// The reason that a tag of the service names.
pub open spec fn reason_of(tag: Seq<char>) -> Option<FinishReason> {
    if tag == "tool_calls"@ {
        Some(FinishReason::ToolCalls)
    } else if tag == "stop"@ {
        Some(FinishReason::Stop)
    } else if tag == "length"@ {
        Some(FinishReason::Length)
    } else if tag == "content_filter"@ {
        Some(FinishReason::ContentFilter)
    } else if tag == "error"@ {
        Some(FinishReason::Error)
    } else {
        None
    }
}

/// The reason under `finish_reason` in a choice: `Some(None)` where the
/// choice gives none, `None` where it gives what is no reason.
pub open spec fn finish_of(choice: JsonTree) -> Option<Option<FinishReason>> {
    match present_member(choice, "finish_reason"@) {
        None => Some(None),
        Some(JsonTree::Text(tag)) => match reason_of(tag) {
            Some(reason) => Some(Some(reason)),
            None => None,
        },
        Some(_) => None,
    }
}

/// The fragment that an entry of `tool_calls` holds: its `id`, and the
/// `name` and `arguments` of its `function`, each a string. The entry must
/// say of what `type` it is, in a string.
pub open spec fn fragment_of(entry: JsonTree) -> Option<ToolCallView> {
    match (required_text(entry, "id"@), required_text(entry, "type"@), member(entry, "function"@)) {
        (Some(id), Some(_), Some(function)) => match (
            required_text(function, "name"@),
            required_text(function, "arguments"@),
        ) {
            (Some(name), Some(arguments)) => Some(ToolCallView { id, name, arguments }),
            _ => None,
        },
        _ => None,
    }
}

/// The fragments of a list of entries, where each entry holds one.
pub open spec fn fragments_of(entries: Seq<JsonTree>) -> Option<Seq<ToolCallView>> {
    if forall|i: int| 0 <= i < entries.len() ==> (#[trigger] fragment_of(entries[i])) is Some {
        Some(Seq::new(entries.len(), |i: int| fragment_of(entries[i])->Some_0))
    } else {
        None
    }
}

/// The fragments under `tool_calls` in a delta; none where the member is
/// missing or `null`.
pub open spec fn delta_fragments(delta: JsonTree) -> Option<Seq<ToolCallView>> {
    match present_member(delta, "tool_calls"@) {
        None => Some(Seq::empty()),
        Some(JsonTree::Array(entries)) => fragments_of(entries),
        Some(_) => None,
    }
}

/// What a choice adds to the turn. Its `delta`, where it has one, holds a
/// `role` and may hold `content` and `tool_calls`.
pub open spec fn choice_delta(choice: JsonTree) -> Option<StreamDeltaView> {
    match finish_of(choice) {
        None => None,
        Some(finish) => match present_member(choice, "delta"@) {
            None => Some(StreamDeltaView { text: None, tool_calls: Seq::empty(), finish }),
            Some(delta) => match (
                required_text(delta, "role"@),
                optional_text(delta, "content"@),
                delta_fragments(delta),
            ) {
                (Some(_), Some(text), Some(tool_calls)) => Some(
                    StreamDeltaView { text, tool_calls, finish },
                ),
                _ => None,
            },
        },
    }
}

/// What a chunk of the stream adds to the turn: the chunk holds an `id` and
/// a list `choices`, of which the first counts. `None` where the chunk has
/// another shape.
pub open spec fn delta_of(chunk: JsonTree) -> Option<StreamDeltaView> {
    match (required_text(chunk, "id"@), member(chunk, "choices"@)) {
        (Some(_), Some(JsonTree::Array(choices))) => if choices.len() == 0 {
            None
        } else {
            choice_delta(choices[0])
        },
        _ => None,
    }
}

/// The reason that a tag of the service names.
pub fn parse_reason(tag: &str) -> (r: Option<FinishReason>)
    ensures
        r == reason_of(tag@),
{
    if same_text(tag, "tool_calls") {
        Some(FinishReason::ToolCalls)
    } else if same_text(tag, "stop") {
        Some(FinishReason::Stop)
    } else if same_text(tag, "length") {
        Some(FinishReason::Length)
    } else if same_text(tag, "content_filter") {
        Some(FinishReason::ContentFilter)
    } else if same_text(tag, "error") {
        Some(FinishReason::Error)
    } else {
        None
    }
}

fn decode_finish(choice: &serde_json::Value) -> (r: Option<Option<FinishReason>>)
    ensures
        r == finish_of(value_tree(*choice)),
{
    match find_present(choice, "finish_reason") {
        None => Some(None),
        Some(found) => match value_text(found) {
            Some(tag) => match parse_reason(tag) {
                Some(reason) => Some(Some(reason)),
                None => None,
            },
            None => None,
        },
    }
}

fn decode_fragment(entry: &serde_json::Value) -> (r: Option<ToolCallFragment>)
    ensures
        match r {
            Some(fragment) => fragment_of(value_tree(*entry)) == Some(fragment@),
            None => fragment_of(value_tree(*entry)) is None,
        },
{
    let id = read_required_text(entry, "id");
    let kind = read_required_text(entry, "type");
    let function = value_member(entry, "function");
    match (id, kind, function) {
        (Some(id), Some(_), Some(function)) => {
            let name = read_required_text(function, "name");
            let arguments = read_required_text(function, "arguments");
            match (name, arguments) {
                (Some(name), Some(arguments)) => Some(ToolCallFragment { id, name, arguments }),
                _ => None,
            }
        },
        _ => None,
    }
}

fn decode_fragments(entries: &Vec<serde_json::Value>) -> (r: Option<Vec<ToolCallFragment>>)
    ensures
        match r {
            Some(fragments) => fragments_of(trees_of(entries@)) == Some(
                fragment_views(fragments@),
            ),
            None => fragments_of(trees_of(entries@)) is None,
        },
{
    let ghost trees = trees_of(entries@);
    let mut out: Vec<ToolCallFragment> = Vec::new();
    let mut i: usize = 0;
    while i < entries.len()
        invariant
            i <= entries.len(),
            out.len() == i,
            trees == trees_of(entries@),
            forall|j: int| 0 <= j < i ==> (#[trigger] fragment_of(trees[j])) == Some(out[j]@),
        decreases entries.len() - i,
    {
        match decode_fragment(&entries[i]) {
            Some(fragment) => {
                out.push(fragment);
            },
            None => {
                assert(fragment_of(trees[i as int]) is None);
                return None;
            },
        }
        i += 1;
    }
    assert(fragments_of(trees)->Some_0 =~= fragment_views(out@));
    Some(out)
}

fn decode_delta_fragments(delta: &serde_json::Value) -> (r: Option<Vec<ToolCallFragment>>)
    ensures
        match r {
            Some(fragments) => delta_fragments(value_tree(*delta)) == Some(
                fragment_views(fragments@),
            ),
            None => delta_fragments(value_tree(*delta)) is None,
        },
{
    match find_present(delta, "tool_calls") {
        None => {
            let out: Vec<ToolCallFragment> = Vec::new();
            assert(fragment_views(out@) =~= Seq::empty());
            Some(out)
        },
        Some(found) => match value_items(found) {
            Some(entries) => decode_fragments(entries),
            None => None,
        },
    }
}

fn decode_choice(choice: &serde_json::Value) -> (r: Option<StreamDelta>)
    ensures
        match r {
            Some(delta) => choice_delta(value_tree(*choice)) == Some(delta@),
            None => choice_delta(value_tree(*choice)) is None,
        },
{
    let finish = match decode_finish(choice) {
        Some(finish) => finish,
        None => {
            return None;
        },
    };
    match find_present(choice, "delta") {
        None => {
            let tool_calls: Vec<ToolCallFragment> = Vec::new();
            assert(fragment_views(tool_calls@) =~= Seq::empty());
            Some(StreamDelta { text: None, tool_calls, finish })
        },
        Some(delta) => {
            let role = read_required_text(delta, "role");
            let text = read_optional_text(delta, "content");
            let tool_calls = decode_delta_fragments(delta);
            match (role, text, tool_calls) {
                (Some(_), Some(text), Some(tool_calls)) => Some(
                    StreamDelta { text, tool_calls, finish },
                ),
                _ => None,
            }
        },
    }
}

/// Decodes one chunk of the stream.
pub fn decode_delta(chunk: &serde_json::Value) -> (r: Option<StreamDelta>)
    ensures
        match r {
            Some(delta) => delta_of(value_tree(*chunk)) == Some(delta@),
            None => delta_of(value_tree(*chunk)) is None,
        },
{
    let id = read_required_text(chunk, "id");
    let choices = value_member(chunk, "choices");
    match (id, choices) {
        (Some(_), Some(choices)) => match value_items(choices) {
            Some(items) => if items.len() == 0 {
                None
            } else {
                decode_choice(&items[0])
            },
            None => None,
        },
        _ => None,
    }
}

/// The model that requests are made to.
pub open spec fn default_model_name() -> Seq<char> {
    "google/gemini-2.5-flash-preview:nitro"@
}

/// The model that requests are made to.
pub fn default_model() -> (r: &'static str)
    ensures
        r@ == default_model_name(),
{
    "google/gemini-2.5-flash-preview:nitro"
}

/// The name of a role on the wire.
pub open spec fn role_name(role: Role) -> Seq<char> {
    match role {
        Role::System => "system"@,
        Role::User => "user"@,
        Role::Assistant => "assistant"@,
        Role::Tool => "tool"@,
        Role::Developer => "developer"@,
    }
}

/// A string, or `null` where there is none.
pub open spec fn text_or_null(text: Option<Seq<char>>) -> JsonTree {
    match text {
        Some(text) => JsonTree::Text(text),
        None => JsonTree::Null,
    }
}

/// A request for a tool on the wire.
pub open spec fn call_tree(call: ToolCallView) -> JsonTree {
    JsonTree::Object(
        Map::empty().insert("id"@, JsonTree::Text(call.id)).insert(
            "type"@,
            JsonTree::Text("function"@),
        ).insert(
            "function"@,
            JsonTree::Object(
                Map::empty().insert("name"@, JsonTree::Text(call.name)).insert(
                    "arguments"@,
                    JsonTree::Text(call.arguments),
                ),
            ),
        ),
    )
}

/// A message on the wire: all five members, `null` for what it lacks.
pub open spec fn message_tree(message: MessageView) -> JsonTree {
    JsonTree::Object(
        Map::empty().insert("role"@, JsonTree::Text(role_name(message.role))).insert(
            "content"@,
            JsonTree::Text(message.content),
        ).insert("tool_call_id"@, text_or_null(message.tool_call_id)).insert(
            "name"@,
            text_or_null(message.name),
        ).insert(
            "tool_calls"@,
            match message.tool_calls {
                Some(calls) => JsonTree::Array(calls.map_values(|call: ToolCallView| call_tree(call))),
                None => JsonTree::Null,
            },
        ),
    )
}

/// The request for one streamed completion: the model, the whole history in
/// its order, streaming switched on, temperature zero, and the capabilities
/// on offer.
pub open spec fn request_tree(model: Seq<char>, history: Seq<MessageView>, tools: JsonTree) -> JsonTree {
    JsonTree::Object(
        Map::empty().insert("model"@, JsonTree::Text(model)).insert(
            "messages"@,
            JsonTree::Array(history.map_values(|message: MessageView| message_tree(message))),
        ).insert("stream"@, JsonTree::Bool(true)).insert("temperature"@, JsonTree::Integer(0)).insert(
            "tools"@,
            tools,
        ),
    )
}

/// The name of a role on the wire.
pub fn role_text(role: Role) -> (r: &'static str)
    ensures
        r@ == role_name(role),
{
    match role {
        Role::System => "system",
        Role::User => "user",
        Role::Assistant => "assistant",
        Role::Tool => "tool",
        Role::Developer => "developer",
    }
}

fn encode_text_or_null(text: &Option<String>) -> (r: serde_json::Value)
    ensures
        value_tree(r) == text_or_null(text_view(*text)),
{
    match text {
        Some(text) => text_value(text.as_str()),
        None => null_value(),
    }
}

fn encode_call(call: &ToolCallRequest) -> (r: serde_json::Value)
    ensures
        value_tree(r) == call_tree(call@),
{
    let mut function = empty_object();
    insert_member(&mut function, "name", text_value(call.name.as_str()));
    insert_member(&mut function, "arguments", text_value(call.arguments.as_str()));
    let mut out = empty_object();
    insert_member(&mut out, "id", text_value(call.id.as_str()));
    insert_member(&mut out, "type", text_value("function"));
    insert_member(&mut out, "function", function);
    out
}

fn encode_calls(calls: &Vec<ToolCallRequest>) -> (r: serde_json::Value)
    ensures
        value_tree(r) == JsonTree::Array(
            crate::message::call_views(calls@).map_values(|call: ToolCallView| call_tree(call)),
        ),
{
    let mut items: Vec<serde_json::Value> = Vec::new();
    let mut i: usize = 0;
    while i < calls.len()
        invariant
            i <= calls.len(),
            items.len() == i,
            forall|j: int| 0 <= j < i ==> value_tree(#[trigger] items[j]) == call_tree(calls[j]@),
        decreases calls.len() - i,
    {
        items.push(encode_call(&calls[i]));
        i += 1;
    }
    assert(trees_of(items@) =~= crate::message::call_views(calls@).map_values(
        |call: ToolCallView| call_tree(call),
    ));
    array_value(items)
}

/// Encodes one message.
pub fn encode_message(message: &Message) -> (r: serde_json::Value)
    ensures
        value_tree(r) == message_tree(message@),
{
    let calls = match &message.tool_calls {
        Some(calls) => encode_calls(calls),
        None => null_value(),
    };
    let mut out = empty_object();
    insert_member(&mut out, "role", text_value(role_text(message.role)));
    insert_member(&mut out, "content", text_value(message.content.as_str()));
    insert_member(&mut out, "tool_call_id", encode_text_or_null(&message.tool_call_id));
    insert_member(&mut out, "name", encode_text_or_null(&message.name));
    insert_member(&mut out, "tool_calls", calls);
    out
}

/// Encodes the request for one streamed completion.
pub fn encode_request(model: &str, history: &Vec<Message>, tools: serde_json::Value) -> (r:
    serde_json::Value)
    ensures
        value_tree(r) == request_tree(model@, message_views(history@), value_tree(tools)),
{
    let mut items: Vec<serde_json::Value> = Vec::new();
    let mut i: usize = 0;
    while i < history.len()
        invariant
            i <= history.len(),
            items.len() == i,
            forall|j: int|
                0 <= j < i ==> value_tree(#[trigger] items[j]) == message_tree(history[j]@),
        decreases history.len() - i,
    {
        items.push(encode_message(&history[i]));
        i += 1;
    }
    assert(trees_of(items@) =~= message_views(history@).map_values(
        |message: MessageView| message_tree(message),
    ));
    let mut out = empty_object();
    insert_member(&mut out, "model", text_value(model));
    insert_member(&mut out, "messages", array_value(items));
    insert_member(&mut out, "stream", bool_value(true));
    insert_member(&mut out, "temperature", integer_value(0));
    insert_member(&mut out, "tools", tools);
    out
}

} // verus!
