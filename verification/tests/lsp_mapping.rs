//! What the language-server surface makes of requests and answers.

use henka::json::Json;
use henka::json::Number;
use henka::json::Object;
use henka::edit::Position;
use henka::lsp::mapping;
use henka::lsp::mapping::Identity;
use henka::operation::Target;
use serde_json::Value;

fn json(text: &str) -> Value {
    serde_json::from_str(text).unwrap()
}

/// A value as the library holds it.
fn lib(value: &Value) -> Json {
    match value {
        Value::Null => Json::Null,
        Value::Bool(b) => Json::Bool(*b),
        Value::Number(n) => Json::Number(match (n.as_u64(), n.as_i64()) {
            (Some(n), _) => Number::Unsigned(n),
            (None, Some(n)) => Number::Negative(n),
            _ => Number::Decimal(n.to_string()),
        }),
        Value::String(s) => Json::Text(s.clone()),
        Value::Array(list) => Json::List(list.iter().map(lib).collect()),
        Value::Object(map) => {
            let mut object = Object::new();
            for (key, value) in map {
                object = object.with(key, lib(value));
            }
            Json::Object(object)
        }
    }
}

/// A value of the library, to be looked at.
fn out(value: &Json) -> Value {
    match value {
        Json::Null => Value::Null,
        Json::Bool(b) => Value::Bool(*b),
        Json::Number(Number::Unsigned(n)) => Value::from(*n),
        Json::Number(Number::Negative(n)) => Value::from(*n),
        Json::Number(Number::Decimal(text)) => json(text),
        Json::Text(s) => Value::String(s.clone()),
        Json::List(list) => Value::Array(list.iter().map(out).collect()),
        Json::Object(object) => Value::Object(
            object.keys().into_iter().map(|key| { let v = out(object.get(&key).unwrap()); (key, v) }).collect(),
        ),
    }
}

fn identity(params: &Value) -> Option<Identity> {
    mapping::identity(&lib(params))
}

fn locations(query: &Value, key: &str, folder: &str) -> Value {
    out(&mapping::locations(&lib(query), key, folder))
}

fn hover(query: &Value) -> Value {
    out(&mapping::hover(&lib(query)))
}

fn outline(query: &Value) -> Value {
    out(&mapping::outline(&lib(query)))
}

fn call_hierarchy_items(query: &Value) -> Value {
    assert!(mapping::handles_can_carry(&lib(query)));
    out(&mapping::call_hierarchy_items(&lib(query)))
}

fn calls(query: &Value, direction: &str) -> Value {
    assert!(mapping::calls_can_carry(&lib(query), direction));
    out(&mapping::calls(&lib(query), direction))
}

#[test]
fn identity_splits_the_workspace_basename() {
    let params = json(r#"{ "workspaceFolders": [{ "uri": "file:///root/stargate.rewind" }] }"#);
    let id = identity(&params).unwrap();
    assert_eq!(id.project_id, "stargate");
    assert_eq!(id.folder, "/root/stargate.rewind".to_string());
    // A dotted folder names a distinct working copy to target.
    assert_eq!(id.workspace, Some("/root/stargate.rewind".to_string()));

    let params = json(r#"{ "rootUri": "file:///root/stargate" }"#);
    let id = identity(&params).unwrap();
    assert_eq!(id.project_id, "stargate");
    assert!(id.folder.ends_with("/stargate"));
    // The base checkout has no separate workspace, so operations use the
    // project root (and the on-base fast path).
    assert_eq!(id.workspace, None);
}

#[test]
fn locations_carry_uri_range_and_source() {
    let query = json(r#"{
        "usages": [{
            "file": "src/auth.rs",
            "start_line": 41, "start_character": 9,
            "end_line": 41, "end_character": 22,
            "text": "  return validate(token);"
        }]
    }"#);
    let out = locations(&query, "usages", "/root/svc");
    let loc = &out[0];
    assert_eq!(loc["uri"], json(r#""file:///root/svc/src/auth.rs""#));
    assert_eq!(loc["range"]["start"]["line"], json("41"));
    assert_eq!(loc["range"]["end"]["character"], json("22"));
    // The source line rides along as an extra field, unchanged.
    assert_eq!(loc["text"], json(r#""  return validate(token);""#));
}

#[test]
fn context_window_is_carried_when_present() {
    let query = json(r#"{
        "definitions": [{
            "file": "a.rs", "start_line": 2, "start_character": 0,
            "end_line": 2, "end_character": 5,
            "text": "three", "context": "two\nthree\nfour", "context_start_line": 1
        }]
    }"#);
    let out = locations(&query, "definitions", "/p");
    assert_eq!(out[0]["context"], json(r#""two\nthree\nfour""#));
    assert_eq!(out[0]["context_start_line"], json("1"));
}

#[test]
fn hover_wraps_text_as_markdown_or_is_null() {
    let out = hover(&json(r#"{ "text": "`fn f()`", "start_line": 4, "start_character": 3, "end_line": 4, "end_character": 6 }"#));
    assert_eq!(out["contents"]["value"], json(r#""`fn f()`""#));
    assert_eq!(out["range"]["start"]["line"], json("4"));
    assert_eq!(hover(&json(r#"{ "text": "" }"#)), Value::Null);
}

#[test]
fn outline_nests_children_and_keeps_kind_names() {
    let query = json(r#"{
        "symbols": [{
            "name": "Foo", "kind": "class",
            "start_line": 2, "start_character": 13, "end_line": 2, "end_character": 16,
            "body_start_line": 2, "body_end_line": 4,
            "text": "class Foo {",
            "children": [{
                "name": "size", "kind": "method", "detail": "() -> int",
                "start_line": 3, "start_character": 6, "end_line": 3, "end_character": 10,
                "body_start_line": 3, "body_end_line": 3, "text": "  int size() {}"
            }]
        }]
    }"#);
    let out = outline(&query);
    let class = &out[0];
    assert_eq!(class["name"], json(r#""Foo""#));
    assert_eq!(class["kind"], json(r#""class""#));
    assert_eq!(class["selectionRange"]["start"]["character"], json("13"));
    assert_eq!(class["range"]["end"]["line"], json("4"));
    assert_eq!(class["text"], json(r#""class Foo {""#));
    let method = &class["children"][0];
    assert_eq!(method["name"], json(r#""size""#));
    assert_eq!(method["detail"], json(r#""() -> int""#));
    // Single-line symbol: `range` must still contain `selectionRange`, so it
    // ends at the name's end column rather than an empty column 0.
    assert_eq!(method["range"]["start"]["line"], json("3"));
    assert_eq!(method["range"]["end"]["line"], json("3"));
    assert_eq!(method["range"]["end"]["character"], json("10"));
    assert_eq!(method["selectionRange"]["end"]["character"], json("10"));
}

#[test]
fn prepare_returns_the_opaque_item_with_source() {
    let query = json(r#"{
        "items": [{
            "name": "run", "kind": "method",
            "text": "  void run() {}",
            "item": { "name": "run", "kind": 6, "uri": "file:///p/Foo.java", "data": { "x": 1 } }
        }]
    }"#);
    let out = call_hierarchy_items(&query);
    let item = &out[0];
    // The server's own handle survives verbatim...
    assert_eq!(item["data"]["x"], json("1"));
    assert_eq!(item["uri"], json(r#""file:///p/Foo.java""#));
    // ...with the source carried alongside.
    assert_eq!(item["text"], json(r#""  void run() {}""#));
}

#[test]
fn calls_map_to_direction_and_from_ranges() {
    let query = json(r#"{
        "calls": [{
            "from": {
                "name": "go", "text": "  void go() {}",
                "item": { "name": "go", "kind": 6, "uri": "file:///p/C.java", "data": {} }
            },
            "ranges": [{
                "file": "C.java", "start_line": 2, "start_character": 4,
                "end_line": 2, "end_character": 10, "text": "    go();"
            }]
        }]
    }"#);
    let out = calls(&query, "from");
    let call = &out[0];
    // `from` is the opaque item itself (a valid CallHierarchyItem to keep
    // walking from), with the source carried alongside.
    assert_eq!(call["from"]["name"], json(r#""go""#));
    assert_eq!(call["from"]["uri"], json(r#""file:///p/C.java""#));
    assert_eq!(call["from"]["text"], json(r#""  void go() {}""#));
    assert_eq!(call["fromRanges"][0]["start"]["line"], json("2"));
    assert_eq!(call["fromRanges"][0]["text"], json(r#""    go();""#));
}

#[test]
fn targets_come_from_the_document_of_a_request() {
    let params = lib(&json(
        r#"{"textDocument": {"uri": "file:///p/a%20b.rs"}, "position": {"line": 4, "character": 5}}"#,
    ));
    assert_eq!(mapping::text_document_uri(&params), Ok("file:///p/a%20b.rs"));
    assert_eq!(
        mapping::position_target(&params),
        Ok(Target::Position { file: "/p/a b.rs".to_string(), position: Position::new(4, 5) })
    );
    assert_eq!(mapping::file_target(&params), Ok(Target::File { file: "/p/a b.rs".to_string() }));
    assert!(mapping::position_target(&lib(&json("{}"))).is_err());
    assert!(mapping::file_target(&lib(&json("{}"))).is_err());
}

#[test]
fn values_that_are_no_handles_cannot_carry_text() {
    let query = lib(&json(r#"{"items": [{"text": "x", "item": 3}]}"#));
    assert!(!mapping::handles_can_carry(&query));
    let query = lib(&json(r#"{"calls": [{"from": {"text": "x", "item": 3}, "ranges": []}]}"#));
    assert!(!mapping::calls_can_carry(&query, "from"));
}
