use chat_orchestrator::message::ToolCallRequest;
use chat_orchestrator::tools::{
    encode_result, path_argument, plan, tool_schemas, Capability, Invocation, Plan, ToolError,
};

fn request(name: &str, arguments: &str) -> ToolCallRequest {
    ToolCallRequest {
        id: "call_1".to_string(),
        name: name.to_string(),
        arguments: arguments.to_string(),
    }
}

const HINT: &str = "read_file expects a JSON object with a string member \"path\"";

#[test]
fn read_file_is_the_capability_on_offer() {
    assert_eq!(Capability::lookup("read_file"), Some(Capability::ReadFile));
    assert_eq!(Capability::lookup("Read_file"), None);
    assert_eq!(Capability::lookup("read_file "), None);
    assert_eq!(Capability::lookup(""), None);
    assert_eq!(Capability::ReadFile.name(), "read_file");
    assert_eq!(
        Capability::ReadFile.description(),
        "Read a **text** file in the current workspace and return its complete UTF-8 contents as a string."
    );
}

#[test]
fn schema_entry_has_the_advertised_form() {
    let expected = "{\"function\":{\"description\":\"Read a **text** file in the current workspace and return its complete UTF-8 contents as a string.\",\"name\":\"read_file\",\"parameters\":{\"properties\":{\"path\":{\"description\":\"Relative path from the project root to the file to read (e.g. \\\"src/index.ts\\\"). Must stay inside the workspace.\",\"type\":\"string\"}},\"required\":[\"path\"],\"type\":\"object\"}},\"type\":\"function\"}";
    assert_eq!(serde_json::to_string(&Capability::ReadFile.schema()).unwrap(), expected);
    assert_eq!(serde_json::to_string(&tool_schemas()).unwrap(), format!("[{}]", expected));
}

#[test]
fn parameters_name_the_path_as_required() {
    let parameters = Capability::ReadFile.parameters();
    assert_eq!(parameters.get("type").and_then(|v| v.as_str()), Some("object"));
    assert_eq!(
        parameters.pointer("/properties/path/type").and_then(|v| v.as_str()),
        Some("string")
    );
    let required = parameters.get("required").and_then(|v| v.as_array()).unwrap();
    assert_eq!(required.len(), 1);
    assert_eq!(required[0].as_str(), Some("path"));
}

#[test]
fn path_is_placed_under_the_root() {
    assert_eq!(
        Capability::ReadFile.prepare("{\"path\":\"src/main\"}", "/work/space"),
        Ok(Invocation::ReadFile { path: "/work/space/src/main".to_string() })
    );
    assert_eq!(
        Capability::ReadFile.prepare(" { \"other\" : 1, \"path\" : \"a b.txt\" } ", ""),
        Ok(Invocation::ReadFile { path: "/a b.txt".to_string() })
    );
}

#[test]
fn arguments_that_cannot_be_read_are_invalid() {
    for arguments in ["", "{", "not json", "[]", "\"src/main\"", "{}", "{\"path\":7}", "{\"path\":null}", "{\"Path\":\"x\"}"] {
        assert_eq!(
            Capability::ReadFile.prepare(arguments, "/ws"),
            Err(ToolError::InvalidArguments(HINT.to_string())),
            "{}",
            arguments
        );
    }
}

#[test]
fn every_error_has_its_text() {
    assert_eq!(ToolError::NotFound("/ws/a".to_string()).describe(), "file not found: /ws/a");
    assert_eq!(
        ToolError::NotUtf8("/ws/b".to_string()).describe(),
        "file is not valid UTF-8: /ws/b"
    );
    assert_eq!(
        ToolError::InvalidArguments("no path".to_string()).describe(),
        "invalid arguments: no path"
    );
    assert_eq!(
        ToolError::ExecutionFailed("disk".to_string()).describe(),
        "execution failed: disk"
    );
}

#[test]
fn text_result_is_encoded_under_text_content() {
    assert_eq!(
        encode_result(&Ok("fn main(){}".to_string())),
        "{\"textContent\":\"fn main(){}\"}"
    );
    assert_eq!(
        encode_result(&Ok("a \"quoted\"\nline".to_string())),
        "{\"textContent\":\"a \\\"quoted\\\"\\nline\"}"
    );
    assert_eq!(encode_result(&Ok(String::new())), "{\"textContent\":\"\"}");
}

#[test]
fn error_result_is_its_text() {
    assert_eq!(
        encode_result(&Err(ToolError::NotFound("/ws/missing".to_string()))),
        "file not found: /ws/missing"
    );
    assert_eq!(
        encode_result(&Err(ToolError::InvalidArguments(HINT.to_string()))),
        format!("invalid arguments: {}", HINT)
    );
}

#[test]
fn plan_invokes_what_needs_work() {
    assert_eq!(
        plan(&request("read_file", "{\"path\":\"src/main\"}"), "/ws"),
        Plan::Invoke(Invocation::ReadFile { path: "/ws/src/main".to_string() })
    );
}

#[test]
fn plan_answers_what_needs_none() {
    assert_eq!(plan(&request("write_file", "{\"path\":\"x\"}"), "/ws"), Plan::Reply(String::new()));
    assert_eq!(
        plan(&request("read_file", "{\"file\":\"x\"}"), "/ws"),
        Plan::Reply(format!("invalid arguments: {}", HINT))
    );
}

#[test]
fn path_argument_is_the_string_under_path() {
    let mut document = serde_json::Map::new();
    document.insert("path".to_string(), serde_json::Value::String("a/b".to_string()));
    assert_eq!(path_argument(&serde_json::Value::Object(document)), Some("a/b".to_string()));
    assert_eq!(path_argument(&serde_json::Value::String("a/b".to_string())), None);
    assert_eq!(path_argument(&serde_json::Value::Object(serde_json::Map::new())), None);
}
