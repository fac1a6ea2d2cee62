//! What tools are asked and what queries answer.

use henka::json::Json;
use henka::json::Number;
use henka::json::Object;
use henka::operation::OperationDescriptor;
use henka::operation::OperationKind;
use henka::operation::Target;
use henka::operation::TargetKind;
use henka::edit::Position;
use henka::edit::Range;
use henka::language::Language;
use henka::ops;
use henka::protocol::McpErrorKind;
use serde_json::Value;

fn json(text: &str) -> Value {
    serde_json::from_str(text).unwrap()
}

/// A value as the library holds it.
fn lib(value: &Value) -> Json {
    match value {
        Value::Null => Json::Null,
        Value::Bool(b) => Json::Bool(*b),
        Value::Number(n) => Json::Number(match (n.as_u64(), n.as_i64()) {
            (Some(n), _) => Number::Unsigned(n),
            (None, Some(n)) => Number::Negative(n),
            _ => Number::Decimal(n.to_string()),
        }),
        Value::String(s) => Json::Text(s.clone()),
        Value::Array(list) => Json::List(list.iter().map(lib).collect()),
        Value::Object(map) => {
            let mut object = Object::new();
            for (key, value) in map {
                object = object.with(key, lib(value));
            }
            Json::Object(object)
        }
    }
}

/// A value of the library, to be looked at.
fn out(value: &Json) -> Value {
    match value {
        Json::Null => Value::Null,
        Json::Bool(b) => Value::Bool(*b),
        Json::Number(Number::Unsigned(n)) => Value::from(*n),
        Json::Number(Number::Negative(n)) => Value::from(*n),
        Json::Number(Number::Decimal(text)) => json(text),
        Json::Text(s) => Value::String(s.clone()),
        Json::List(list) => Value::Array(list.iter().map(out).collect()),
        Json::Object(object) => Value::Object(
            object.keys().into_iter().map(|key| { let v = out(object.get(&key).unwrap()); (key, v) }).collect(),
        ),
    }
}

fn merge_query_results(results: Vec<Value>, limit: Option<usize>) -> Value {
    let results: Vec<Json> = results.iter().map(lib).collect();
    assert!(ops::can_merge(&results));
    out(&ops::merge_query_results(results, limit))
}

fn result_limit(params: &Value, schema: &Value) -> Option<usize> {
    ops::result_limit(&lib(params), &lib(schema))
}

/// The arguments of a call.
fn args(text: &str) -> Object {
    match lib(&json(text)) {
        Json::Object(object) => object,
        other => panic!("not an object: {other:?}"),
    }
}

#[test]
fn merging_one_result_leaves_it_alone() {
    let one = json(r#"{ "count": 1, "symbols": [{ "name": "Foo" }] }"#);
    assert_eq!(merge_query_results(vec![one.clone()], None), one);
}

#[test]
fn merging_concatenates_lists_adds_counts_and_ors_flags() {
    let merged = merge_query_results(
        vec![
            json(r#"{ "count": 2, "symbols": ["a", "b"], "truncated": false }"#),
            json(r#"{ "count": 1, "symbols": ["c"], "truncated": true }"#),
        ],
        None,
    );
    assert_eq!(
        merged,
        json(r#"{ "count": 3, "symbols": ["a", "b", "c"], "truncated": true }"#)
    );
}

#[test]
fn merging_keeps_keys_only_one_language_reported() {
    let merged = merge_query_results(
        vec![json(r#"{ "symbols": [] }"#), json(r#"{ "symbols": [], "truncated": true }"#)],
        None,
    );
    assert_eq!(merged, json(r#"{ "symbols": [], "truncated": true }"#));
}

#[test]
fn merging_nothing_is_an_empty_result() {
    assert_eq!(merge_query_results(vec![], None), json("{}"));
}
#[test]
fn merged_lists_are_cut_back_to_the_limit() {
    // Each language returned one match under `limit: 1`, so neither capped
    // its own answer; their concatenation is cut back and flagged, while
    // `count` still reports everything that matched.
    let merged = merge_query_results(
        vec![json(r#"{ "count": 1, "symbols": ["a"] }"#), json(r#"{ "count": 1, "symbols": ["b"] }"#)],
        Some(1),
    );
    assert_eq!(merged, json(r#"{ "count": 2, "symbols": ["a"], "truncated": true }"#));
}

#[test]
fn a_merged_list_within_the_limit_is_not_flagged() {
    let merged = merge_query_results(
        vec![json(r#"{ "count": 1, "symbols": ["a"] }"#), json(r#"{ "count": 1, "symbols": ["b"] }"#)],
        Some(2),
    );
    assert_eq!(merged, json(r#"{ "count": 2, "symbols": ["a", "b"] }"#));
}

#[test]
fn the_limit_is_the_callers_else_the_operations_default() {
    let schema = json(r#"{ "properties": { "limit": { "default": 200 } } }"#);
    assert_eq!(result_limit(&json(r#"{ "limit": 5 }"#), &schema), Some(5));
    assert_eq!(result_limit(&json("{}"), &schema), Some(200));
    assert_eq!(result_limit(&json("{}"), &json(r#"{ "properties": {} }"#)), None);
}

#[test]
fn counts_that_do_not_add_cannot_be_merged() {
    let big = lib(&json(r#"{ "count": 18446744073709551615 }"#));
    let one = lib(&json(r#"{ "count": 1 }"#));
    assert!(!ops::can_merge(&vec![big.clone(), one]));
    assert!(ops::can_merge(&vec![big, lib(&json(r#"{ "count": 0 }"#))]));
}

#[test]
fn the_first_of_two_values_that_do_not_merge_stays() {
    let merged = merge_query_results(
        vec![json(r#"{ "a": "x", "b": -1, "c": {"n": 1} }"#), json(r#"{ "a": "y", "b": 2, "c": {"n": 2} }"#)],
        None,
    );
    assert_eq!(merged, json(r#"{ "a": "x", "b": -1, "c": {"n": 3} }"#));
}

#[test]
fn a_call_names_its_project() {
    assert_eq!(ops::project_id(&args(r#"{"project": "p"}"#)).ok(), Some("p".to_string()));
    let refused = ops::project_id(&args("{}")).err().unwrap();
    assert!(matches!(refused.kind, McpErrorKind::InvalidParams));
    assert_eq!(refused.message, "missing required `project`");
}

#[test]
fn optional_arguments_of_a_call() {
    let given = args(r#"{"workspace": "/w", "expect": "f", "dry_run": false}"#);
    assert_eq!(ops::workspace(&given).as_deref(), Some("/w"));
    assert_eq!(ops::expect(&given).as_deref(), Some("f"));
    assert!(!ops::dry_run(&given));
    let none = args("{}");
    assert_eq!(ops::workspace(&none), None);
    assert_eq!(ops::expect(&none), None);
    assert!(ops::dry_run(&none));
}

#[test]
fn targets_are_read_by_their_kind() {
    let given = args(
        r#"{"file": "/p/a.rs", "line": 1, "character": 2,
            "start_line": 3, "start_character": 4, "end_line": 5, "end_character": 6}"#,
    );
    assert_eq!(
        ops::parse_target(&given, TargetKind::Position).ok(),
        Some(Target::Position { file: "/p/a.rs".to_string(), position: Position::new(1, 2) })
    );
    assert_eq!(
        ops::parse_target(&given, TargetKind::Selection).ok(),
        Some(Target::Selection {
            file: "/p/a.rs".to_string(),
            range: Range::new(Position::new(3, 4), Position::new(5, 6)),
        })
    );
    assert_eq!(
        ops::parse_target(&given, TargetKind::File).ok(),
        Some(Target::File { file: "/p/a.rs".to_string() })
    );
    assert_eq!(ops::parse_target(&args("{}"), TargetKind::Project).ok(), Some(Target::Project));
    for kind in [TargetKind::Position, TargetKind::Selection, TargetKind::File] {
        assert!(ops::parse_target(&args("{}"), kind).is_err());
    }
    assert!(ops::parse_target(&args(r#"{"file": "/p/a.rs"}"#), TargetKind::Position).is_err());
}

#[test]
fn an_operation_gets_the_arguments_that_the_envelope_leaves() {
    let given = args(
        r#"{"project": "p", "workspace": "/w", "expect": "f", "dry_run": true, "file": "/p/a.rs",
            "line": 1, "character": 2, "new_name": "g", "limit": 3}"#,
    );
    assert_eq!(out(&ops::operation_params(&given)), json(r#"{"new_name": "g", "limit": 3}"#));
}

#[test]
fn a_tool_describes_its_operation() {
    let tool = ops::operation_tool(&OperationDescriptor {
        id: "rename".to_string(),
        title: "Rename".to_string(),
        description: "Renames a symbol.".to_string(),
        kind: OperationKind::Edit,
        target: TargetKind::Position,
        params_schema: lib(&json(
            r#"{"type": "object", "properties": {"new_name": {"type": "string"}}, "required": ["new_name"]}"#,
        )),
        languages: vec![Language::Rust],
    });
    assert_eq!(tool.name, "rename");
    let schema = out(&Json::Object(tool.input_schema));
    assert_eq!(schema["type"], json(r#""object""#));
    assert_eq!(schema["properties"]["new_name"], json(r#"{"type": "string"}"#));
    assert!(schema["required"].as_array().unwrap().contains(&json(r#""project""#)));
    assert!(schema["required"].as_array().unwrap().contains(&json(r#""new_name""#)));
    assert!(schema["properties"].get("dry_run").is_some());
}

#[test]
fn workspace_is_stripped_from_operation_params() {
    let params = out(&ops::operation_params(&args(
        r#"{ "project": "p", "workspace": "/some/wt", "file": "A.java", "text": "x" }"#,
    )));
    assert!(params.get("workspace").is_none());
    assert_eq!(params.get("text").and_then(Value::as_str), Some("x"));
}
