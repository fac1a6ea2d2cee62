//! What the tools of the remote server answer.

use henka::json::Json;
use henka::json::Number;
use henka::json::Object;
use henka::proxy::mcp::parse_result;
use henka::proxy::mcp::tool_arguments;
use henka::proxy::mcp::Block;
use henka::proxy::mcp::McpClientError;
use henka::proxy::mcp::ToolResult;
use serde_json::Value;

fn json(text: &str) -> Value {
    serde_json::from_str(text).unwrap()
}

/// A value as the library holds it.
fn lib(value: &Value) -> Json {
    match value {
        Value::Null => Json::Null,
        Value::Bool(b) => Json::Bool(*b),
        Value::Number(n) => Json::Number(match (n.as_u64(), n.as_i64()) {
            (Some(n), _) => Number::Unsigned(n),
            (None, Some(n)) => Number::Negative(n),
            _ => Number::Decimal(n.to_string()),
        }),
        Value::String(s) => Json::Text(s.clone()),
        Value::Array(list) => Json::List(list.iter().map(lib).collect()),
        Value::Object(map) => {
            let mut object = Object::new();
            for (key, value) in map {
                object = object.with(key, lib(value));
            }
            Json::Object(object)
        }
    }
}

/// A value of the library, to be looked at.
fn out(value: &Json) -> Value {
    match value {
        Json::Null => Value::Null,
        Json::Bool(b) => Value::Bool(*b),
        Json::Number(Number::Unsigned(n)) => Value::from(*n),
        Json::Number(Number::Negative(n)) => Value::from(*n),
        Json::Number(Number::Decimal(text)) => json(text),
        Json::Text(s) => Value::String(s.clone()),
        Json::List(list) => Value::Array(list.iter().map(out).collect()),
        Json::Object(object) => Value::Object(
            object.keys().into_iter().map(|key| { let v = out(object.get(&key).unwrap()); (key, v) }).collect(),
        ),
    }
}

fn success(content: Vec<Block>) -> ToolResult {
    ToolResult { content, is_error: Some(false), structured_content: None }
}

fn error(content: Vec<Block>) -> ToolResult {
    ToolResult { content, is_error: Some(true), structured_content: None }
}

fn structured(value: Value) -> ToolResult {
    ToolResult {
        content: vec![Block::Text(value.to_string())],
        is_error: Some(false),
        structured_content: Some(lib(&value)),
    }
}

/// What a tool answers, with its text read and its value written out.
fn answer(tool: &str, result: ToolResult) -> Result<Value, McpClientError> {
    let read = match result.first_text() {
        Some(text) => match serde_json::from_str::<Value>(text) {
            Ok(value) => Ok(lib(&value)),
            Err(e) => Err(e.to_string()),
        },
        None => Ok(Json::Null),
    };
    let shown = match &result.structured_content {
        Some(value) => out(value).to_string(),
        None => String::new(),
    };
    parse_result(tool, result, read, &shown).map(|v| out(&v))
}

#[test]
fn text_content_is_parsed_as_json() {
    let result = success(vec![Block::Text(r#"{"count":2}"#.to_string())]);
    let value = answer("find-usages", result).unwrap();
    assert_eq!(value, json(r#"{ "count": 2 }"#));
}

#[test]
fn text_error_result_carries_the_message() {
    let result = error(vec![Block::Text("project `p` is not registered".to_string())]);
    let err = answer("rename", result).unwrap_err();
    assert!(
        matches!(err, McpClientError::ToolError { .. }),
        "expected a tool error, got {err:?}"
    );
    assert!(err.message().contains("not registered"), "got: {err:?}");
}

#[test]
fn structured_only_error_result_is_still_an_error() {
    // A failure that carries no text block must not fall through to the
    // structured-content path and come back as a successful response.
    let mut result = structured(json(r#"{ "message": "no such project" }"#));
    result.is_error = Some(true);
    let err = answer("rename", result).unwrap_err();
    assert!(
        matches!(err, McpClientError::ToolError { .. }),
        "expected a tool error, got {err:?}"
    );
    assert!(err.message().contains("no such project"), "got: {err:?}");
}

#[test]
fn structured_success_is_returned_as_is() {
    let result = structured(json(r#"{ "count": 0 }"#));
    assert_eq!(
        answer("find-usages", result).unwrap(),
        json(r#"{ "count": 0 }"#)
    );
}

#[test]
fn malformed_text_json_is_reported() {
    let result = success(vec![Block::Text("not json".to_string())]);
    let err = answer("rename", result).unwrap_err();
    assert!(matches!(err, McpClientError::BadJson { .. }), "got {err:?}");
}

#[test]
fn empty_result_is_reported() {
    let err = answer("rename", success(vec![])).unwrap_err();
    assert!(matches!(err, McpClientError::EmptyResult { .. }), "got {err:?}");
}

#[test]
fn an_error_with_a_value_alone_shows_it() {
    let result = ToolResult {
        content: vec![Block::Other],
        is_error: Some(true),
        structured_content: Some(lib(&json(r#"{"message": "no such project"}"#))),
    };
    let err = answer("rename", result).unwrap_err();
    assert_eq!(err.message(), r#"MCP tool `rename` returned an error: {"message":"no such project"}"#);
    let err = answer("rename", error(vec![])).unwrap_err();
    assert_eq!(err.message(), "MCP tool `rename` returned an error: no message");
}

#[test]
fn a_value_alone_is_the_answer() {
    let result = ToolResult {
        content: vec![Block::Other],
        is_error: None,
        structured_content: Some(lib(&json("[1]"))),
    };
    assert_eq!(answer("x", result), Ok(json("[1]")));
}

#[test]
fn what_is_said_of_errors_is_exact() {
    let text = |s: &str| s.to_string();
    assert_eq!(
        McpClientError::Connect { url: text("U"), source: text("S") }.message(),
        "cannot connect to henka at U: S. Check HENKA_URL, that henka-server is running on the host, and that --allowed-host (HENKA_MCP_ALLOWED_HOST) accepts the container's Host header."
    );
    assert_eq!(McpClientError::Call { tool: text("T"), source: text("S") }.message(), "MCP call `T` failed: S");
    assert_eq!(
        McpClientError::ToolError { tool: text("T"), message: text("M") }.message(),
        "MCP tool `T` returned an error: M"
    );
    assert_eq!(McpClientError::EmptyResult { tool: text("T") }.message(), "MCP tool `T` returned no text content");
    assert_eq!(
        McpClientError::BadJson { tool: text("T"), source: text("S") }.message(),
        "MCP tool `T` returned malformed JSON: S"
    );
}

#[test]
fn arguments_are_objects() {
    let of = |text: &str| tool_arguments(lib(&json(text))).map(|o| out(&Json::Object(o)));
    assert_eq!(of(r#"{"a": 1}"#), Some(json(r#"{"a": 1}"#)));
    assert_eq!(of("null"), None);
    assert_eq!(of("[1]"), Some(json(r#"{"_": [1]}"#)));
}
