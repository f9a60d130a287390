//! The capabilities that the model may ask for: what is advertised of each,
//! how its arguments are read, and how a result becomes a message.

use crate::json::{
    array_value, empty_object, insert_member, json_document, json_text, parse_value,
    read_required_text, render_value, required_text, text_value, value_tree, JsonTree,
};
use crate::message::{ToolCallRequest, ToolCallView};
use crate::text::{joined, same_text};
use vstd::prelude::*;

verus! {

/// A capability that is wired in.
#[derive(Clone, Copy, Debug, PartialEq, Eq, Structural)]
pub enum Capability {
    /// Reads a text file of the workspace.
    ReadFile,
}

/// Why a capability gave no result. None of these ends the conversation: the
/// model is told and may correct itself.
#[derive(Clone, Debug, PartialEq, Eq)]
pub enum ToolError {
    /// There is no file at the path.
    NotFound(String),
    /// The file at the path is not UTF-8 text.
    NotUtf8(String),
    /// The arguments are not what the capability expects.
    InvalidArguments(String),
    /// The capability ran and failed.
    ExecutionFailed(String),
}

/// What a [`ToolError`] holds.
pub enum ToolErrorView {
    NotFound(Seq<char>),
    NotUtf8(Seq<char>),
    InvalidArguments(Seq<char>),
    ExecutionFailed(Seq<char>),
}

impl View for ToolError {
    type V = ToolErrorView;

    open spec fn view(&self) -> ToolErrorView {
        match self {
            ToolError::NotFound(path) => ToolErrorView::NotFound(path@),
            ToolError::NotUtf8(path) => ToolErrorView::NotUtf8(path@),
            ToolError::InvalidArguments(message) => ToolErrorView::InvalidArguments(message@),
            ToolError::ExecutionFailed(message) => ToolErrorView::ExecutionFailed(message@),
        }
    }
}

/// Work that only the caller can do for a capability.
#[derive(Clone, Debug, PartialEq, Eq)]
pub enum Invocation {
    /// Read the file at `path` as text.
    ReadFile { path: String },
}

/// What an [`Invocation`] holds.
pub enum InvocationView {
    ReadFile { path: Seq<char> },
}

impl View for Invocation {
    type V = InvocationView;

    open spec fn view(&self) -> InvocationView {
        match self {
            Invocation::ReadFile { path } => InvocationView::ReadFile { path: path@ },
        }
    }
}

/// What is done about one request: work for the caller, or an answer that
/// needs none.
#[derive(Clone, Debug, PartialEq, Eq)]
pub enum Plan {
    Invoke(Invocation),
    Reply(String),
}

/// What a [`Plan`] holds.
pub enum PlanView {
    Invoke(InvocationView),
    Reply(Seq<char>),
}

impl View for Plan {
    type V = PlanView;

    open spec fn view(&self) -> PlanView {
        match self {
            Plan::Invoke(invocation) => PlanView::Invoke(invocation@),
            Plan::Reply(content) => PlanView::Reply(content@),
        }
    }
}

/// The result of a capability, by what it holds.
pub open spec fn outcome_view(outcome: Result<String, ToolError>) -> Result<
    Seq<char>,
    ToolErrorView,
> {
    match outcome {
        Ok(text) => Ok(text@),
        Err(error) => Err(error@),
    }
}

/// The name under which a capability is advertised and asked for.
pub open spec fn capability_name(capability: Capability) -> Seq<char> {
    match capability {
        Capability::ReadFile => "read_file"@,
    }
}

/// What the model is told that a capability does.
pub open spec fn capability_description(capability: Capability) -> Seq<char> {
    match capability {
        Capability::ReadFile =>
            "Read a **text** file in the current workspace and return its complete UTF-8 contents as a string."@,
    }
}

/// What the model is told of the `path` argument.
pub open spec fn path_description() -> Seq<char> {
    "Relative path from the project root to the file to read (e.g. \"src/index.ts\"). Must stay inside the workspace."@
}

/// The capability of a name, where one has it.
pub open spec fn capability_named(name: Seq<char>) -> Option<Capability> {
    if name == capability_name(Capability::ReadFile) {
        Some(Capability::ReadFile)
    } else {
        None
    }
}

/// The schema of a capability's arguments.
pub open spec fn parameters_tree(capability: Capability) -> JsonTree {
    match capability {
        Capability::ReadFile => JsonTree::Object(
            Map::empty().insert("type"@, JsonTree::Text("object"@)).insert(
                "properties"@,
                JsonTree::Object(
                    Map::empty().insert(
                        "path"@,
                        JsonTree::Object(
                            Map::empty().insert("type"@, JsonTree::Text("string"@)).insert(
                                "description"@,
                                JsonTree::Text(path_description()),
                            ),
                        ),
                    ),
                ),
            ).insert("required"@, JsonTree::Array(seq![JsonTree::Text("path"@)])),
        ),
    }
}

/// The entry that advertises a capability to the service.
pub open spec fn schema_tree(capability: Capability) -> JsonTree {
    JsonTree::Object(
        Map::empty().insert("type"@, JsonTree::Text("function"@)).insert(
            "function"@,
            JsonTree::Object(
                Map::empty().insert("name"@, JsonTree::Text(capability_name(capability))).insert(
                    "description"@,
                    JsonTree::Text(capability_description(capability)),
                ).insert("parameters"@, parameters_tree(capability)),
            ),
        ),
    )
}

/// The capabilities on offer, one entry each.
pub open spec fn tools_tree() -> JsonTree {
    JsonTree::Array(seq![schema_tree(Capability::ReadFile)])
}

/// What an error reads as where the model is told of it.
pub open spec fn error_text(error: ToolErrorView) -> Seq<char> {
    match error {
        ToolErrorView::NotFound(path) => "file not found: "@ + path,
        ToolErrorView::NotUtf8(path) => "file is not valid UTF-8: "@ + path,
        ToolErrorView::InvalidArguments(message) => "invalid arguments: "@ + message,
        ToolErrorView::ExecutionFailed(message) => "execution failed: "@ + message,
    }
}

/// What `read_file` says of arguments that it cannot read.
pub open spec fn read_file_hint() -> Seq<char> {
    "read_file expects a JSON object with a string member \"path\""@
}

/// A path of the workspace, placed under the workspace's root.
pub open spec fn resolved(root: Seq<char>, relative: Seq<char>) -> Seq<char> {
    root + "/"@ + relative
}

/// The path that the arguments of `read_file` name: they are a JSON object
/// with a string under `path`.
pub open spec fn read_file_path(arguments: Seq<char>) -> Option<Seq<char>> {
    match json_document(arguments) {
        Some(tree) => required_text(tree, "path"@),
        None => None,
    }
}

/// The path that a document names as the argument of `read_file`.
pub fn path_argument(document: &serde_json::Value) -> (r: Option<String>)
    ensures
        crate::message::text_view(r) == required_text(value_tree(*document), "path"@),
{
    read_required_text(document, "path")
}

/// The work that a capability asks of the caller for given arguments, or
/// the error where the arguments are not what it expects.
pub open spec fn prepared(capability: Capability, arguments: Seq<char>, root: Seq<char>) -> Result<
    InvocationView,
    ToolErrorView,
> {
    match capability {
        Capability::ReadFile => match read_file_path(arguments) {
            Some(relative) => Ok(InvocationView::ReadFile { path: resolved(root, relative) }),
            None => Err(ToolErrorView::InvalidArguments(read_file_hint())),
        },
    }
}

/// What a text result is sent to the model as.
pub open spec fn text_result_tree(text: Seq<char>) -> JsonTree {
    JsonTree::Object(Map::empty().insert("textContent"@, JsonTree::Text(text)))
}

/// The content of the tool message for a result: a text as a JSON object
/// that holds it under `textContent`, an error as its text.
pub open spec fn result_content(outcome: Result<Seq<char>, ToolErrorView>) -> Seq<char> {
    match outcome {
        Ok(text) => json_text(text_result_tree(text)),
        Err(error) => error_text(error),
    }
}

/// What is done about a request. One for a capability that is not wired in
/// is answered with empty content; one with arguments that cannot be read is
/// answered with the error; any other is work for the caller.
pub open spec fn plan_of(call: ToolCallView, root: Seq<char>) -> PlanView {
    match capability_named(call.name) {
        None => PlanView::Reply(Seq::empty()),
        Some(capability) => match prepared(capability, call.arguments, root) {
            Ok(invocation) => PlanView::Invoke(invocation),
            Err(error) => PlanView::Reply(error_text(error)),
        },
    }
}

/// Arguments that `read_file` cannot read are answered with the error that
/// says so: its text is the content of the request's tool message.
pub proof fn law_invalid_arguments_become_the_answer(call: ToolCallView, root: Seq<char>)
    requires
        capability_named(call.name) == Some(Capability::ReadFile),
        read_file_path(call.arguments) is None,
    ensures
        plan_of(call, root) == PlanView::Reply(
            error_text(ToolErrorView::InvalidArguments(read_file_hint())),
        ),
{
}

impl Capability {
    /// The capability of a name, where one has it.
    pub fn lookup(name: &str) -> (r: Option<Capability>)
        ensures
            r == capability_named(name@),
    {
        if same_text(name, "read_file") {
            Some(Capability::ReadFile)
        } else {
            None
        }
    }

    /// The name under which the capability is advertised.
    pub fn name(&self) -> (r: &'static str)
        ensures
            r@ == capability_name(*self),
    {
        match self {
            Capability::ReadFile => "read_file",
        }
    }

    /// What the model is told that the capability does.
    pub fn description(&self) -> (r: &'static str)
        ensures
            r@ == capability_description(*self),
    {
        match self {
            Capability::ReadFile =>
                "Read a **text** file in the current workspace and return its complete UTF-8 contents as a string.",
        }
    }

    /// The schema of the capability's arguments.
    pub fn parameters(&self) -> (r: serde_json::Value)
        ensures
            value_tree(r) == parameters_tree(*self),
    {
        match self {
            Capability::ReadFile => {
                let mut path = empty_object();
                insert_member(&mut path, "type", text_value("string"));
                insert_member(
                    &mut path,
                    "description",
                    text_value(
                        "Relative path from the project root to the file to read (e.g. \"src/index.ts\"). Must stay inside the workspace.",
                    ),
                );
                let mut properties = empty_object();
                insert_member(&mut properties, "path", path);
                let mut required: Vec<serde_json::Value> = Vec::new();
                required.push(text_value("path"));
                assert(crate::json::trees_of(required@) =~= seq![JsonTree::Text("path"@)]);
                let mut out = empty_object();
                insert_member(&mut out, "type", text_value("object"));
                insert_member(&mut out, "properties", properties);
                insert_member(&mut out, "required", array_value(required));
                out
            },
        }
    }

    /// The entry that advertises the capability to the service.
    pub fn schema(&self) -> (r: serde_json::Value)
        ensures
            value_tree(r) == schema_tree(*self),
    {
        let mut function = empty_object();
        insert_member(&mut function, "name", text_value(self.name()));
        insert_member(&mut function, "description", text_value(self.description()));
        insert_member(&mut function, "parameters", self.parameters());
        let mut out = empty_object();
        insert_member(&mut out, "type", text_value("function"));
        insert_member(&mut out, "function", function);
        out
    }

    /// Reads the arguments of a request for this capability and says what
    /// the caller is to do; the arguments are decoded here, just before the
    /// capability runs.
    pub fn prepare(&self, arguments: &str, root: &str) -> (r: Result<Invocation, ToolError>)
        ensures
            match r {
                Ok(invocation) => prepared(*self, arguments@, root@) == Ok::<
                    InvocationView,
                    ToolErrorView,
                >(invocation@),
                Err(error) => prepared(*self, arguments@, root@) == Err::<
                    InvocationView,
                    ToolErrorView,
                >(error@),
            },
    {
        match self {
            Capability::ReadFile => {
                let relative = match parse_value(arguments) {
                    Some(document) => path_argument(&document),
                    None => None,
                };
                match relative {
                    Some(relative) => {
                        let under = joined(root, "/");
                        Ok(Invocation::ReadFile { path: joined(under.as_str(), relative.as_str()) })
                    },
                    None => Err(
                        ToolError::InvalidArguments(
                            "read_file expects a JSON object with a string member \"path\"".to_owned(),
                        ),
                    ),
                }
            },
        }
    }
}

/// The capabilities on offer, as the request advertises them.
pub fn tool_schemas() -> (r: serde_json::Value)
    ensures
        value_tree(r) == tools_tree(),
{
    let mut entries: Vec<serde_json::Value> = Vec::new();
    entries.push(Capability::ReadFile.schema());
    assert(crate::json::trees_of(entries@) =~= seq![schema_tree(Capability::ReadFile)]);
    array_value(entries)
}

impl ToolError {
    /// What the error reads as where the model is told of it.
    pub fn describe(&self) -> (r: String)
        ensures
            r@ == error_text(self@),
    {
        match self {
            ToolError::NotFound(path) => joined("file not found: ", path.as_str()),
            ToolError::NotUtf8(path) => joined("file is not valid UTF-8: ", path.as_str()),
            ToolError::InvalidArguments(message) => joined("invalid arguments: ", message.as_str()),
            ToolError::ExecutionFailed(message) => joined("execution failed: ", message.as_str()),
        }
    }
}

/// The content of the tool message for a result.
pub fn encode_result(outcome: &Result<String, ToolError>) -> (r: String)
    ensures
        r@ == result_content(outcome_view(*outcome)),
{
    match outcome {
        Ok(text) => {
            let mut object = empty_object();
            insert_member(&mut object, "textContent", text_value(text.as_str()));
            render_value(&object)
        },
        Err(error) => error.describe(),
    }
}

/// Decides what is done about a request.
pub fn plan(call: &ToolCallRequest, root: &str) -> (r: Plan)
    ensures
        r@ == plan_of(call@, root@),
{
    match Capability::lookup(call.name.as_str()) {
        None => Plan::Reply(String::new()),
        Some(capability) => match capability.prepare(call.arguments.as_str(), root) {
            Ok(invocation) => Plan::Invoke(invocation),
            Err(error) => Plan::Reply(error.describe()),
        },
    }
}

} // verus!
