//! Messages, the requests for tools that they carry, and the rules on the
//! order of a conversation.

use vstd::prelude::*;

verus! {

/// Who a message is from.
#[derive(Clone, Copy, Debug, PartialEq, Eq, Structural)]
pub enum Role {
    System,
    User,
    Assistant,
    Tool,
    Developer,
}

/// A request by the model to run a capability.
#[derive(Clone, Debug, PartialEq, Eq)]
pub struct ToolCallRequest {
    /// Links the request to the tool message that answers it.
    pub id: String,
    /// The capability asked for.
    pub name: String,
    /// The arguments, encoded as the capability expects them.
    pub arguments: String,
}

/// What a [`ToolCallRequest`] holds.
pub struct ToolCallView {
    pub id: Seq<char>,
    pub name: Seq<char>,
    pub arguments: Seq<char>,
}

impl View for ToolCallRequest {
    type V = ToolCallView;

    open spec fn view(&self) -> ToolCallView {
        ToolCallView { id: self.id@, name: self.name@, arguments: self.arguments@ }
    }
}

/// One turn of the conversation.
#[derive(Clone, Debug, PartialEq, Eq)]
pub struct Message {
    pub role: Role,
    pub content: String,
    /// On a tool message, the request that it answers.
    pub tool_call_id: Option<String>,
    /// On a tool message, the capability that ran.
    pub name: Option<String>,
    /// On an assistant message, the capabilities that the model asked for.
    pub tool_calls: Option<Vec<ToolCallRequest>>,
}

/// What a [`Message`] holds.
pub struct MessageView {
    pub role: Role,
    pub content: Seq<char>,
    pub tool_call_id: Option<Seq<char>>,
    pub name: Option<Seq<char>>,
    pub tool_calls: Option<Seq<ToolCallView>>,
}

/// The requests of a list, each by what it holds.
pub open spec fn call_views(calls: Seq<ToolCallRequest>) -> Seq<ToolCallView> {
    calls.map_values(|call: ToolCallRequest| call@)
}

/// The messages of a list, each by what it holds.
pub open spec fn message_views(messages: Seq<Message>) -> Seq<MessageView> {
    messages.map_values(|message: Message| message@)
}

pub open spec fn text_view(text: Option<String>) -> Option<Seq<char>> {
    match text {
        Some(t) => Some(t@),
        None => None,
    }
}

impl View for Message {
    type V = MessageView;

    open spec fn view(&self) -> MessageView {
        MessageView {
            role: self.role,
            content: self.content@,
            tool_call_id: text_view(self.tool_call_id),
            name: text_view(self.name),
            tool_calls: match self.tool_calls {
                Some(calls) => Some(call_views(calls@)),
                None => None,
            },
        }
    }
}

/// A message that carries text and nothing else.
pub open spec fn plain_message(role: Role, content: Seq<char>) -> MessageView {
    MessageView { role, content, tool_call_id: None, name: None, tool_calls: None }
}

/// The assistant's turn: its text and, where it asked for any, its requests.
pub open spec fn assistant_message(
    content: Seq<char>,
    tool_calls: Option<Seq<ToolCallView>>,
) -> MessageView {
    MessageView { role: Role::Assistant, content, tool_call_id: None, name: None, tool_calls }
}

/// The answer to one request.
pub open spec fn tool_message(call: ToolCallView, content: Seq<char>) -> MessageView {
    MessageView {
        role: Role::Tool,
        content,
        tool_call_id: Some(call.id),
        name: Some(call.name),
        tool_calls: None,
    }
}

/// Whether a tool message answers a request: it names the request's
/// identifier and its capability.
pub open spec fn answers(message: MessageView, call: ToolCallView) -> bool {
    &&& message.role == Role::Tool
    &&& message.tool_call_id == Some(call.id)
    &&& message.name == Some(call.name)
}

/// Whether the messages at `at` and behind it are both of the assistant.
pub open spec fn assistants_meet(history: Seq<MessageView>, at: int) -> bool {
    history[at].role == Role::Assistant && history[at + 1].role == Role::Assistant
}

/// No assistant message follows another directly.
pub open spec fn no_adjacent_assistants(history: Seq<MessageView>) -> bool {
    forall|i: int| 0 <= i < history.len() - 1 ==> !#[trigger] assistants_meet(history, i)
}

/// What a history must be for a request to be sent: not empty, ending with a
/// user or a tool message, and without two assistant messages in a row.
pub open spec fn requestable(history: Seq<MessageView>) -> bool {
    &&& history.len() > 0
    &&& (history.last().role == Role::User || history.last().role == Role::Tool)
    &&& no_adjacent_assistants(history)
}

impl ToolCallRequest {
    /// A request with the same contents.
    pub fn duplicate(&self) -> (r: ToolCallRequest)
        ensures
            r@ == self@,
    {
        ToolCallRequest {
            id: self.id.clone(),
            name: self.name.clone(),
            arguments: self.arguments.clone(),
        }
    }
}

/// A list with the same requests.
pub fn duplicate_calls(calls: &Vec<ToolCallRequest>) -> (r: Vec<ToolCallRequest>)
    ensures
        call_views(r@) == call_views(calls@),
{
    let mut out: Vec<ToolCallRequest> = Vec::new();
    let mut i: usize = 0;
    while i < calls.len()
        invariant
            i <= calls.len(),
            out.len() == i,
            forall|j: int| 0 <= j < i ==> out[j]@ == calls[j]@,
        decreases calls.len() - i,
    {
        out.push(calls[i].duplicate());
        i += 1;
    }
    assert(call_views(out@) =~= call_views(calls@));
    out
}

impl Message {
    /// A message of the user.
    pub fn user(content: &str) -> (r: Message)
        ensures
            r@ == plain_message(Role::User, content@),
    {
        Message {
            role: Role::User,
            content: content.to_owned(),
            tool_call_id: None,
            name: None,
            tool_calls: None,
        }
    }

    /// A system message.
    pub fn system(content: &str) -> (r: Message)
        ensures
            r@ == plain_message(Role::System, content@),
    {
        Message {
            role: Role::System,
            content: content.to_owned(),
            tool_call_id: None,
            name: None,
            tool_calls: None,
        }
    }

    /// The assistant's turn. An empty list of requests is no list.
    pub fn assistant(content: String, tool_calls: Vec<ToolCallRequest>) -> (r: Message)
        ensures
            r@ == assistant_message(
                content@,
                if tool_calls@.len() > 0 {
                    Some(call_views(tool_calls@))
                } else {
                    None
                },
            ),
    {
        let calls = if tool_calls.len() > 0 {
            Some(tool_calls)
        } else {
            None
        };
        Message { role: Role::Assistant, content, tool_call_id: None, name: None, tool_calls: calls }
    }

    /// The answer to `call`, with `content` as what the capability gave.
    pub fn tool(call: &ToolCallRequest, content: String) -> (r: Message)
        ensures
            r@ == tool_message(call@, content@),
    {
        Message {
            role: Role::Tool,
            content,
            tool_call_id: Some(call.id.clone()),
            name: Some(call.name.clone()),
            tool_calls: None,
        }
    }
}

/// The history that a conversation starts from: the system's instructions,
/// then the user's prompt.
pub fn seed_conversation(system_prompt: &str, prompt: &str) -> (r: Vec<Message>)
    ensures
        message_views(r@) == seq![
            plain_message(Role::System, system_prompt@),
            plain_message(Role::User, prompt@),
        ],
        requestable(message_views(r@)),
{
    let mut out: Vec<Message> = Vec::new();
    out.push(Message::system(system_prompt));
    out.push(Message::user(prompt));
    assert(message_views(out@) =~= seq![
        plain_message(Role::System, system_prompt@),
        plain_message(Role::User, prompt@),
    ]);
    out
}

/// Whether a request may be sent with this history.
pub fn is_requestable(history: &Vec<Message>) -> (r: bool)
    ensures
        r == requestable(message_views(history@)),
{
    let n = history.len();
    if n == 0 {
        return false;
    }
    let last_ok = match history[n - 1].role {
        Role::User => true,
        Role::Tool => true,
        _ => false,
    };
    if !last_ok {
        return false;
    }
    let ghost views = message_views(history@);
    let mut i: usize = 0;
    while i + 1 < n
        invariant
            n == history.len(),
            views == message_views(history@),
            i < n,
            forall|j: int| 0 <= j < i ==> !#[trigger] assistants_meet(views, j),
        decreases n - i,
    {
        let first = match history[i].role {
            Role::Assistant => true,
            _ => false,
        };
        let second = match history[i + 1].role {
            Role::Assistant => true,
            _ => false,
        };
        if first && second {
            assert(assistants_meet(views, i as int));
            return false;
        }
        i += 1;
    }
    true
}

} // verus!
