//! What language servers answer, as queries report it.

use henka::convert::call_item_uris;
use henka::convert::call_uris;
use henka::convert::context_lines_param;
use henka::convert::goto_uris;
use henka::convert::location_uris;
use henka::convert::match_uris;
use henka::edit::FileOperation;
use henka::edit::PositionEncoding;
use henka::edit::WorkspaceEdit;
use henka::json::Json;
use henka::json::Number;
use henka::json::Object;
use henka::language::Language;
use henka::operation::LanguageRoute;
use henka::source::Source;
use henka::source::MAX_CONTEXT_LINES;
use henka::source::MAX_TEXT_CHARS;
use henka::uri::uri_to_path;
use henka::wire::Malformed;
use serde_json::Value;

fn json(text: &str) -> Value {
    serde_json::from_str(text).unwrap()
}

/// A value as the library holds it.
fn lib(value: &Value) -> Json {
    match value {
        Value::Null => Json::Null,
        Value::Bool(b) => Json::Bool(*b),
        Value::Number(n) => Json::Number(match (n.as_u64(), n.as_i64()) {
            (Some(n), _) => Number::Unsigned(n),
            (None, Some(n)) => Number::Negative(n),
            _ => Number::Decimal(n.to_string()),
        }),
        Value::String(s) => Json::Text(s.clone()),
        Value::Array(list) => Json::List(list.iter().map(lib).collect()),
        Value::Object(map) => {
            let mut object = Object::new();
            for (key, value) in map {
                object = object.with(key, lib(value));
            }
            Json::Object(object)
        }
    }
}

/// A value of the library, to be looked at.
fn out(value: &Json) -> Value {
    match value {
        Json::Null => Value::Null,
        Json::Bool(b) => Value::Bool(*b),
        Json::Number(Number::Unsigned(n)) => Value::from(*n),
        Json::Number(Number::Negative(n)) => Value::from(*n),
        Json::Number(Number::Decimal(text)) => json(text),
        Json::Text(s) => Value::String(s.clone()),
        Json::List(list) => Value::Array(list.iter().map(out).collect()),
        Json::Object(object) => Value::Object(
            object.keys().into_iter().map(|key| { let v = out(object.get(&key).unwrap()); (key, v) }).collect(),
        ),
    }
}

fn to_core_workspace_edit(value: Value) -> Result<WorkspaceEdit, Malformed> {
    henka::wire_edit::to_core_workspace_edit(&lib(&value))
}

fn locations_to_query(value: Value, source: &Source) -> Result<Value, Malformed> {
    henka::convert::locations_to_query(&lib(&value), source).map(|v| out(&v))
}

fn goto_to_query(value: Value, source: &Source, key: &str) -> Result<Value, Malformed> {
    henka::convert::goto_to_query(&lib(&value), source, key).map(|v| out(&v))
}

fn hover_to_query(value: Value) -> Result<Value, Malformed> {
    henka::convert::hover_to_query(&lib(&value)).map(|v| out(&v))
}

fn document_symbols_to_query(value: Value, source: &Source, uri: &str) -> Result<Value, Malformed> {
    henka::convert::document_symbols_to_query(&lib(&value), source, uri).map(|v| out(&v))
}

fn call_hierarchy_items_to_query(value: Value, source: &Source) -> Result<Value, Malformed> {
    henka::convert::call_hierarchy_items_to_query(&lib(&value), source).map(|v| out(&v))
}

fn incoming_calls_to_query(value: Value, source: &Source) -> Result<Value, Malformed> {
    henka::convert::incoming_calls_to_query(&lib(&value), source).map(|v| out(&v))
}

fn outgoing_calls_to_query(value: Value, source: &Source, from: &str) -> Result<Value, Malformed> {
    henka::convert::outgoing_calls_to_query(&lib(&value), source, from).map(|v| out(&v))
}

fn symbols_to_query(value: Value, source: &Source, limit: usize) -> Result<Value, Malformed> {
    henka::convert::symbols_to_query(&lib(&value), source, limit).map(|v| out(&v))
}

fn call_hierarchy_item_route(params: &Value) -> LanguageRoute {
    henka::convert::call_hierarchy_item_route(&lib(params))
}

/// A source rooted at a path that holds no files, so results carry locations
/// but no quoted text.
fn at_root(root: &str) -> Source {
    Source::new(root, root.to_string(), 0)
}

/// Some files under one root.
struct Tree {
    files: Vec<(String, String)>,
}

impl Tree {
    fn new(files: &[(&str, &str)]) -> Tree {
        Tree { files: files.iter().map(|(n, t)| (format!("/tree/{n}"), t.to_string())).collect() }
    }

    fn path(&self, name: &str) -> String {
        format!("/tree/{name}")
    }

    fn source(&self, context_lines: usize) -> Source {
        let mut source = Source::new("/tree", "/tree".to_string(), context_lines);
        for (file, text) in &self.files {
            source.provide(file.clone(), Some(text.clone()));
        }
        source
    }
}

/// One file under a root, and its path.
fn tree(name: &str, content: &str) -> (Tree, String) {
    let tree = Tree::new(&[(name, content)]);
    let file = tree.path(name);
    (tree, file)
}

/// The `file://` URI for a test path.
fn path_to_uri(path: &str) -> String {
    format!("file://{path}")
}

#[test]
fn maps_changes_map() {
    let value = json(r#"{
        "changes": {
            "file:///proj/A.java": [
                { "range": {"start": {"line": 1, "character": 4}, "end": {"line": 1, "character": 7}}, "newText": "bar" }
            ]
        }
    }"#);
    let edit = to_core_workspace_edit(value).unwrap();
    assert_eq!(edit.files.len(), 1);
    assert_eq!(edit.files[0].path, "/proj/A.java".to_string());
    assert_eq!(edit.files[0].edits[0].new_text, "bar");
}

#[test]
fn maps_document_changes() {
    let value = json(r#"{
        "documentChanges": [
            {
                "textDocument": { "uri": "file:///proj/B.java", "version": 1 },
                "edits": [
                    { "range": {"start": {"line": 0, "character": 0}, "end": {"line": 0, "character": 3}}, "newText": "Baz" }
                ]
            }
        ]
    }"#);
    let edit = to_core_workspace_edit(value).unwrap();
    assert_eq!(edit.files.len(), 1);
    assert_eq!(edit.files[0].path, "/proj/B.java".to_string());
}

#[test]
fn maps_rename_file_operation() {
    let value = json(r#"{
        "documentChanges": [
            {
                "textDocument": { "uri": "file:///proj/Old.java", "version": 1 },
                "edits": [
                    { "range": {"start": {"line": 0, "character": 6}, "end": {"line": 0, "character": 9}}, "newText": "New" }
                ]
            },
            { "kind": "rename", "oldUri": "file:///proj/Old.java", "newUri": "file:///proj/New.java" }
        ]
    }"#);
    let edit = to_core_workspace_edit(value).unwrap();
    assert_eq!(edit.files.len(), 1);
    assert_eq!(
        edit.file_ops,
        vec![FileOperation::Rename {
            from: "/proj/Old.java".to_string(),
            to: "/proj/New.java".to_string(),
        }]
    );
}

#[test]
fn null_edit_is_empty() {
    assert!(to_core_workspace_edit(Value::Null).unwrap().is_empty());
}

#[test]
fn decodes_uri() {
    assert_eq!(
        uri_to_path("file:///a/b%20c/D.java"),
        "/a/b c/D.java".to_string()
    );
}

#[test]
fn outgoing_calls_quote_call_sites_in_the_queried_file() {
    // The call sites are in the file we asked about, not in the callee's.
    let dir = Tree::new(&[
        ("Caller.java", "class Caller {\n  void go() {\n    target(1);\n  }\n}\n"),
        ("Target.java", "class Target {\n  void target(int n) {}\n}\n"),
    ]);
    let caller_uri = path_to_uri(&dir.path("Caller.java"));
    let target_uri = path_to_uri(&dir.path("Target.java"));

    let value = json(&r#"[{
        "to": {
            "name": "target",
            "kind": 6,
            "uri": "@TARGET@",
            "range": {"start": {"line": 1, "character": 2}, "end": {"line": 1, "character": 24}},
            "selectionRange": {"start": {"line": 1, "character": 7}, "end": {"line": 1, "character": 13}}
        },
        "fromRanges": [
            {"start": {"line": 2, "character": 4}, "end": {"line": 2, "character": 10}}
        ]
    }]"#.replace("@TARGET@", &target_uri));
    let source = dir.source(0);
    let out = outgoing_calls_to_query(value, &source, &caller_uri).unwrap();

    let call = &out["calls"][0];
    // The callee is quoted from its own declaration...
    assert_eq!(call["to"]["file"], json(r#""Target.java""#));
    assert_eq!(call["to"]["text"], json(r#""  void target(int n) {}""#));
    // ...while the call site is quoted from the file we asked about.
    assert_eq!(call["ranges"][0]["file"], json(r#""Caller.java""#));
    assert_eq!(call["ranges"][0]["text"], json(r#""    target(1);""#));
}

#[test]
fn a_method_that_calls_nothing_is_an_empty_result() {
    let out = outgoing_calls_to_query(Value::Null, &at_root("/proj"), "file:///proj/a.rs").unwrap();
    assert_eq!(out, json(r#"{ "count": 0, "calls": [] }"#));
}

#[test]
fn incoming_calls_quote_the_caller_and_its_call_sites() {
    let (dir, file) = tree(
        "Caller.java",
        "class Caller {\n  void go() {\n    target(1);\n  }\n}\n",
    );
    let uri = path_to_uri(&file);
    let value = json(&r#"[{
        "from": {
            "name": "go",
            "kind": 6,
            "uri": "@URI@",
            "range": {"start": {"line": 1, "character": 2}, "end": {"line": 3, "character": 3}},
            "selectionRange": {"start": {"line": 1, "character": 7}, "end": {"line": 1, "character": 9}},
            "data": { "opaque": "keep-me" }
        },
        "fromRanges": [
            {"start": {"line": 2, "character": 4}, "end": {"line": 2, "character": 10}}
        ]
    }]"#.replace("@URI@", &uri));
    let source = dir.source(0);
    let out = incoming_calls_to_query(value, &source).unwrap();

    assert_eq!(out["count"], json("1"));
    let call = &out["calls"][0];
    // The caller: its declaration line, and a handle to keep walking.
    assert_eq!(call["from"]["name"], json(r#""go""#));
    assert_eq!(call["from"]["text"], json(r#""  void go() {""#));
    assert_eq!(call["from"]["item"]["data"]["opaque"], json(r#""keep-me""#));
    // The call site: the line the call is written on.
    assert_eq!(call["ranges"][0]["file"], json(r#""Caller.java""#));
    assert_eq!(call["ranges"][0]["start_line"], json("2"));
    assert_eq!(call["ranges"][0]["text"], json(r#""    target(1);""#));
}

#[test]
fn a_method_with_no_callers_is_an_empty_result() {
    let out = incoming_calls_to_query(Value::Null, &at_root("/proj")).unwrap();
    assert_eq!(out, json(r#"{ "count": 0, "calls": [] }"#));
    let out = incoming_calls_to_query(json("[]"), &at_root("/proj")).unwrap();
    assert_eq!(out["count"], json("0"));
}

#[test]
fn call_hierarchy_item_keeps_the_servers_own_handle() {
    let (dir, file) = tree("Foo.java", "class Foo {\n  void run() {}\n}\n");
    let uri = path_to_uri(&file);
    let value = json(&r#"[{
        "name": "run",
        "kind": 6,
        "detail": "Foo.run()",
        "uri": "@URI@",
        "range": {"start": {"line": 1, "character": 2}, "end": {"line": 1, "character": 16}},
        "selectionRange": {"start": {"line": 1, "character": 7}, "end": {"line": 1, "character": 10}},
        "data": { "opaque": "jdtls-private" }
    }]"#.replace("@URI@", &uri));
    let source = dir.source(0);
    let out = call_hierarchy_items_to_query(value, &source).unwrap();

    assert_eq!(out["count"], json("1"));
    let item = &out["items"][0];
    assert_eq!(item["name"], json(r#""run""#));
    assert_eq!(item["kind"], json(r#""method""#));
    assert_eq!(item["file"], json(r#""Foo.java""#));
    assert_eq!(item["start_line"], json("1"));
    assert_eq!(item["start_character"], json("7"));
    assert_eq!(item["body_end_line"], json("1"));
    assert_eq!(item["detail"], json(r#""Foo.run()""#));
    assert_eq!(item["text"], json(r#""  void run() {}""#));
    // The server's private data survives untouched, so the item can be
    // handed back on the follow-up call.
    assert_eq!(item["item"]["data"]["opaque"], json(r#""jdtls-private""#));
}

#[test]
fn a_call_hierarchy_item_routes_to_the_server_that_issued_it() {
    let route = |uri: &str| call_hierarchy_item_route(&json(&r#"{ "item": { "uri": "@URI@" } }"#.replace("@URI@", &uri)));

    assert_eq!(
        route("file:///proj/src/Foo.java"),
        LanguageRoute::Language(Language::Java)
    );
    // jdtls hands back its own handle for a class it only has as bytecode:
    // the source name is in the path, its metadata in the query string.
    let jdt = "jdt://contents/java.base/java.io/PrintStream.java\
               ?=proj/%5C/jre%5C/java.base=/maven.pomderived=/true=/=/false=/=/PrintStream.class";
    assert_eq!(route(jdt), LanguageRoute::Language(Language::Java));
    // An item Henka cannot place names itself in the route, so dispatch can
    // say which handle it refused rather than trying every server.
    assert_eq!(
        route("nowhere://opaque/handle"),
        LanguageRoute::Unplaceable("nowhere://opaque/handle".into())
    );
    // No item at all: nothing to route by.
    assert_eq!(
        call_hierarchy_item_route(&json("{}")),
        LanguageRoute::Unspecified
    );
}

#[test]
fn call_hierarchy_on_a_position_that_resolves_to_nothing_is_empty() {
    let out = call_hierarchy_items_to_query(Value::Null, &at_root("/proj")).unwrap();
    assert_eq!(out, json(r#"{ "count": 0, "items": [] }"#));
}

#[test]
fn outline_nests_children_and_quotes_declarations() {
    let (dir, file) = tree(
        "Foo.java",
        "package p;\n\npublic class Foo {\n  int size() { return 1; }\n}\n",
    );
    let uri = path_to_uri(&file);
    let value = json(r#"[{
        "name": "Foo",
        "kind": 5,
        "range": {"start": {"line": 2, "character": 0}, "end": {"line": 4, "character": 1}},
        "selectionRange": {"start": {"line": 2, "character": 13}, "end": {"line": 2, "character": 16}},
        "children": [{
            "name": "size",
            "kind": 6,
            "detail": "() : int",
            "range": {"start": {"line": 3, "character": 2}, "end": {"line": 3, "character": 26}},
            "selectionRange": {"start": {"line": 3, "character": 6}, "end": {"line": 3, "character": 10}}
        }]
    }]"#);
    let source = dir.source(0);
    let out = document_symbols_to_query(value, &source, &uri).unwrap();

    assert_eq!(out["count"], json("1"));
    let class = &out["symbols"][0];
    assert_eq!(class["kind"], json(r#""class""#));
    assert_eq!(class["text"], json(r#""public class Foo {""#));
    // Addressed by its name, with the declaration's extent alongside.
    assert_eq!(class["start_line"], json("2"));
    assert_eq!(class["start_character"], json("13"));
    assert_eq!(class["body_end_line"], json("4"));

    let method = &class["children"][0];
    assert_eq!(method["name"], json(r#""size""#));
    assert_eq!(method["detail"], json(r#""() : int""#));
    assert_eq!(method["text"], json(r#""  int size() { return 1; }""#));
    assert_eq!(method["children"], json("[]"));
}

#[test]
fn outline_accepts_the_flat_symbol_information_form() {
    let value = json(r#"[{
        "name": "helper",
        "kind": 12,
        "location": {
            "uri": "file:///proj/a.ts",
            "range": {"start": {"line": 7, "character": 9}, "end": {"line": 7, "character": 15}}
        },
        "containerName": "mod"
    }]"#);
    let out = document_symbols_to_query(value, &at_root("/proj"), "file:///proj/a.ts").unwrap();
    let sym = &out["symbols"][0];
    assert_eq!(sym["kind"], json(r#""function""#));
    assert_eq!(sym["container_name"], json(r#""mod""#));
    assert_eq!(sym["start_line"], json("7"));
    // No nesting is reported rather than inferred from names.
    assert_eq!(sym["children"], json("[]"));
}

#[test]
fn a_flat_symbol_is_quoted_by_its_first_line() {
    let (dir, file) = tree("a.ts", "// head\nexport function helper() {\n  return 1;\n}\n// tail\n");
    let uri = path_to_uri(&file);
    let value = json(&format!(
        r#"[{{"name": "helper", "kind": 12, "location": {{"uri": "{uri}",
            "range": {{"start": {{"line": 1, "character": 7}}, "end": {{"line": 3, "character": 1}}}}}}}}]"#
    ));
    let out = document_symbols_to_query(value.clone(), &dir.source(0), &uri).unwrap();
    let sym = &out["symbols"][0];
    assert_eq!(sym["text"], json(r#""export function helper() {""#));
    assert_eq!(sym["start_line"], json("1"));
    assert_eq!(sym["end_line"], json("3"));
    assert_eq!(sym["body_end_line"], json("3"));
    let out = document_symbols_to_query(value, &dir.source(1), &uri).unwrap();
    assert_eq!(out["symbols"][0]["context"], json(r#""// head\nexport function helper() {\n  return 1;""#));
    assert_eq!(out["symbols"][0]["context_start_line"], json("0"));
}

#[test]
fn every_kind_of_symbol_has_a_name_of_its_own() {
    let named = |kind: u32| {
        let value = json(&format!(
            r#"[{{"name": "x", "kind": {kind}, "range": {{"start": {{"line": 0, "character": 0}}, "end": {{"line": 0, "character": 1}}}}}}]"#
        ));
        let out = document_symbols_to_query(value, &at_root("/proj"), "file:///proj/a.ts").unwrap();
        out["symbols"][0]["kind"].as_str().unwrap().to_string()
    };
    let names: Vec<String> = (0..40).map(named).collect();
    for (kind, name) in
        [(0, "0"), (5, "class"), (6, "method"), (12, "function"), (22, "enum_member"), (26, "type_parameter"), (27, "27")]
    {
        assert_eq!(names[kind], name);
    }
    for kind in 1..=26 {
        assert!(!names[kind].is_empty() && names[kind].chars().all(|c| c.is_ascii_lowercase() || c == '_'));
    }
    for a in 0..names.len() {
        for b in 0..a {
            assert_ne!(names[a], names[b]);
        }
    }
}

#[test]
fn outline_of_a_file_without_symbols_is_empty() {
    let out = document_symbols_to_query(Value::Null, &at_root("/proj"), "file:///proj/a.ts").unwrap();
    assert_eq!(out, json(r#"{ "count": 0, "symbols": [] }"#));
}

#[test]
fn hover_reads_markup_content() {
    let value = json(r#"{
        "contents": { "kind": "markdown", "value": "`fn foo() -> u32`\n\nDoes a thing." },
        "range": {"start": {"line": 4, "character": 3}, "end": {"line": 4, "character": 6}}
    }"#);
    let out = hover_to_query(value).unwrap();
    assert_eq!(out["text"], json(r#""`fn foo() -> u32`\n\nDoes a thing.""#));
    assert_eq!(out["start_line"], json("4"));
    assert_eq!(out["end_character"], json("6"));
}

#[test]
fn hover_fences_a_language_tagged_string() {
    let value = json(r#"{ "contents": { "language": "java", "value": "String name" } }"#);
    let out = hover_to_query(value).unwrap();
    assert_eq!(out["text"], json(r#""```java\nString name\n```""#));
}

#[test]
fn hover_joins_a_list_of_parts_and_drops_empties() {
    let value = json(r#"{ "contents": [
        { "language": "ts", "value": "const x: number" },
        "",
        "The count of things."
    ]}"#);
    let out = hover_to_query(value).unwrap();
    assert_eq!(
        out["text"],
        json(r#""```ts\nconst x: number\n```\n\nThe count of things.""#)
    );
}

#[test]
fn hover_accepts_a_bare_string() {
    let out = hover_to_query(json(r#"{ "contents": "plain words" }"#)).unwrap();
    assert_eq!(out["text"], json(r#""plain words""#));
}

#[test]
fn hover_with_nothing_to_say_is_empty_not_an_error() {
    let out = hover_to_query(Value::Null).unwrap();
    assert_eq!(out, json(r#"{ "text": "" }"#));
    // No range means no coordinates, not a malformed result.
    let out = hover_to_query(json(r#"{ "contents": "x" }"#)).unwrap();
    assert!(out.get("start_line").is_none());
}

#[test]
fn goto_accepts_a_single_location() {
    let (dir, file) = tree("Foo.java", "package p;\nclass Foo {}\n");
    let value = json(&r#"{
        "uri": "@FILE@",
        "range": {"start": {"line": 1, "character": 6}, "end": {"line": 1, "character": 9}}
    }"#.replace("@FILE@", &path_to_uri(&file)));
    let source = dir.source(0);
    let out = goto_to_query(value, &source, "definitions").unwrap();
    assert_eq!(out["count"], json("1"));
    assert_eq!(out["definitions"][0]["file"], json(r#""Foo.java""#));
    assert_eq!(out["definitions"][0]["text"], json(r#""class Foo {}""#));
}

#[test]
fn goto_accepts_a_location_array() {
    let value = json(r#"[
        {
            "uri": "file:///proj/A.ts",
            "range": {"start": {"line": 0, "character": 0}, "end": {"line": 0, "character": 3}}
        },
        {
            "uri": "file:///proj/B.ts",
            "range": {"start": {"line": 1, "character": 0}, "end": {"line": 1, "character": 3}}
        }
    ]"#);
    let out = goto_to_query(value, &at_root("/proj"), "definitions").unwrap();
    assert_eq!(out["count"], json("2"));
    assert_eq!(out["definitions"][1]["file"], json(r#""B.ts""#));
}

#[test]
fn goto_link_prefers_the_selection_range() {
    let value = json(r#"[{
        "targetUri": "file:///proj/src/lib.rs",
        "targetRange": {"start": {"line": 10, "character": 0}, "end": {"line": 20, "character": 1}},
        "targetSelectionRange": {"start": {"line": 10, "character": 7}, "end": {"line": 10, "character": 10}}
    }]"#);
    let out = goto_to_query(value, &at_root("/proj"), "definitions").unwrap();
    assert_eq!(out["definitions"][0]["start_character"], json("7"));
    assert_eq!(out["definitions"][0]["end_line"], json("10"));
}

#[test]
fn goto_link_without_a_selection_range_uses_the_target_range() {
    let value = json(r#"[{
        "targetUri": "file:///proj/src/lib.rs",
        "targetRange": {"start": {"line": 10, "character": 0}, "end": {"line": 20, "character": 1}}
    }]"#);
    let out = goto_to_query(value, &at_root("/proj"), "definitions").unwrap();
    assert_eq!(out["definitions"][0]["end_line"], json("20"));
}

#[test]
fn goto_nothing_found_is_an_empty_result() {
    let out = goto_to_query(Value::Null, &at_root("/proj"), "definitions").unwrap();
    assert_eq!(out, json(r#"{ "count": 0, "definitions": [] }"#));
    let out = goto_to_query(json("[]"), &at_root("/proj"), "definitions").unwrap();
    assert_eq!(out, json(r#"{ "count": 0, "definitions": [] }"#));
}

#[test]
fn usage_quotes_the_line_it_points_at() {
    let (dir, file) = tree(
        "auth.ts",
        "import x;\nfunction f() {\n  return validateToken(token);\n}\n",
    );
    let value = json(&r#"[{
        "uri": "@FILE@",
        "range": {"start": {"line": 2, "character": 9}, "end": {"line": 2, "character": 22}}
    }]"#.replace("@FILE@", &path_to_uri(&file)));
    let source = dir.source(0);
    let out = locations_to_query(value, &source).unwrap();
    assert_eq!(out["usages"][0]["file"], json(r#""auth.ts""#));
    assert_eq!(out["usages"][0]["text"], json(r#""  return validateToken(token);""#));
    // No window was asked for, so none is paid for.
    assert!(out["usages"][0].get("context").is_none());
}

#[test]
fn multiline_range_ending_at_character_zero_stops_at_the_line_before() {
    let (dir, file) = tree("a.rs", "one\ntwo\nthree\nfour\n");
    // An end of {line: 2, character: 0} is exclusive: the range covers
    // lines 1 and 2 of the file, not line 3.
    let value = json(&r#"[{
        "uri": "@FILE@",
        "range": {"start": {"line": 1, "character": 0}, "end": {"line": 2, "character": 0}}
    }]"#.replace("@FILE@", &path_to_uri(&file)));
    let source = dir.source(1);
    let out = locations_to_query(value, &source).unwrap();
    assert_eq!(out["usages"][0]["text"], json(r#""two""#));
    assert_eq!(out["usages"][0]["context"], json(r#""one\ntwo\nthree""#));
    assert_eq!(out["usages"][0]["context_start_line"], json("0"));
}

#[test]
fn multiline_range_ending_mid_line_includes_that_line() {
    let (dir, file) = tree("a.rs", "one\ntwo\nthree\nfour\n");
    let value = json(&r#"[{
        "uri": "@FILE@",
        "range": {"start": {"line": 1, "character": 0}, "end": {"line": 2, "character": 2}}
    }]"#.replace("@FILE@", &path_to_uri(&file)));
    let source = dir.source(0);
    let out = locations_to_query(value, &source).unwrap();
    assert_eq!(out["usages"][0]["text"], json(r#""two\nthree""#));
}

#[test]
fn context_lines_widen_the_window_and_report_its_start() {
    let (dir, file) = tree("a.rs", "one\ntwo\nthree\nfour\nfive\n");
    let value = json(&r#"[{
        "uri": "@FILE@",
        "range": {"start": {"line": 2, "character": 0}, "end": {"line": 2, "character": 5}}
    }]"#.replace("@FILE@", &path_to_uri(&file)));
    let source = dir.source(1);
    let out = locations_to_query(value, &source).unwrap();
    assert_eq!(out["usages"][0]["text"], json(r#""three""#));
    assert_eq!(out["usages"][0]["context"], json(r#""two\nthree\nfour""#));
    assert_eq!(out["usages"][0]["context_start_line"], json("1"));
}

#[test]
fn context_window_is_clamped_at_the_file_edges() {
    let (dir, file) = tree("a.rs", "one\ntwo\n");
    let value = json(&r#"[{
        "uri": "@FILE@",
        "range": {"start": {"line": 0, "character": 0}, "end": {"line": 0, "character": 3}}
    }]"#.replace("@FILE@", &path_to_uri(&file)));
    let source = dir.source(5);
    let out = locations_to_query(value, &source).unwrap();
    assert_eq!(out["usages"][0]["context"], json(r#""one\ntwo""#));
    assert_eq!(out["usages"][0]["context_start_line"], json("0"));
}

#[test]
fn text_is_read_from_the_overlaid_working_copy() {
    // The URI addresses the base checkout, but the request was answered
    // against a sibling working copy whose content differs.
    let value = json(&r#"[{
        "uri": "@URI@",
        "range": {"start": {"line": 0, "character": 4}, "end": {"line": 0, "character": 12}}
    }]"#.replace("@URI@", &path_to_uri("/base/a.rs")));
    let mut source = Source::new("/base", "/work".to_string(), 0);
    source.provide("/base/a.rs".to_string(), Some("let base = 1;\n".to_string()));
    source.provide("/work/a.rs".to_string(), Some("let overlaid = 1;\n".to_string()));
    let out = locations_to_query(value, &source).unwrap();
    assert_eq!(out["usages"][0]["text"], json(r#""let overlaid = 1;""#));
}

#[test]
fn unreadable_file_loses_its_text_not_its_place() {
    let value = json(r#"[{
        "uri": "file:///proj/gone.rs",
        "range": {"start": {"line": 0, "character": 0}, "end": {"line": 0, "character": 3}}
    }]"#);
    let out = locations_to_query(value, &at_root("/proj")).unwrap();
    assert_eq!(out["count"], json("1"));
    assert_eq!(out["usages"][0]["file"], json(r#""gone.rs""#));
    assert!(out["usages"][0].get("text").is_none());
}

#[test]
fn range_past_the_end_of_the_file_quotes_nothing() {
    let (dir, file) = tree("a.rs", "one\n");
    let value = json(&r#"[{
        "uri": "@FILE@",
        "range": {"start": {"line": 40, "character": 0}, "end": {"line": 40, "character": 3}}
    }]"#.replace("@FILE@", &path_to_uri(&file)));
    let source = dir.source(0);
    let out = locations_to_query(value, &source).unwrap();
    assert!(out["usages"][0].get("text").is_none());
}

#[test]
fn over_long_line_is_truncated() {
    let long = "x".repeat(MAX_TEXT_CHARS + 50);
    let (dir, file) = tree("min.js", &format!("{long}\n"));
    let value = json(&r#"[{
        "uri": "@FILE@",
        "range": {"start": {"line": 0, "character": 0}, "end": {"line": 0, "character": 1}}
    }]"#.replace("@FILE@", &path_to_uri(&file)));
    let source = dir.source(0);
    let out = locations_to_query(value, &source).unwrap();
    let text = out["usages"][0]["text"].as_str().unwrap();
    assert_eq!(text.chars().count(), MAX_TEXT_CHARS + 1);
    assert!(text.ends_with('…'));
}

#[test]
fn context_lines_are_clamped_to_the_cap() {
    let source = Source::new("/proj", "/proj".to_string(), 999);
    assert_eq!(source.context_lines(), MAX_CONTEXT_LINES);
}

#[test]
fn symbol_quotes_its_declaring_line() {
    let (dir, file) = tree("Foo.java", "package p;\n\npublic class Foo {\n}\n");
    let value = json(&r#"[{
        "name": "Foo",
        "kind": 5,
        "location": {
            "uri": "@FILE@",
            "range": {"start": {"line": 2, "character": 13}, "end": {"line": 2, "character": 16}}
        }
    }]"#.replace("@FILE@", &path_to_uri(&file)));
    let source = dir.source(0);
    let out = symbols_to_query(value, &source, 10).unwrap();
    assert_eq!(out["symbols"][0]["text"], json(r#""public class Foo {""#));
}

#[test]
fn null_usages_report_a_count() {
    let out = locations_to_query(Value::Null, &at_root("/proj")).unwrap();
    assert_eq!(out, json(r#"{ "count": 0, "usages": [] }"#));
}

#[test]
fn null_symbol_search_is_empty() {
    let out = symbols_to_query(Value::Null, &at_root("/proj"), 10).unwrap();
    assert_eq!(out, json(r#"{ "count": 0, "symbols": [] }"#));
}

#[test]
fn symbol_path_relative_to_root() {
    let value = json(r#"[{
        "name": "Foo",
        "kind": 5,
        "location": {
            "uri": "file:///proj/src/Foo.java",
            "range": {"start": {"line": 1, "character": 0}, "end": {"line": 1, "character": 3}}
        }
    }]"#);
    let out = symbols_to_query(value, &at_root("/proj"), 10).unwrap();
    assert_eq!(out["symbols"][0]["file"], json(r#""src/Foo.java""#));
    assert_eq!(out["symbols"][0]["kind"], json(r#""class""#));
}

#[test]
fn symbol_path_outside_root_stays_absolute() {
    let value = json(r#"[{
        "name": "Foo",
        "kind": 5,
        "location": {
            "uri": "file:///other/Foo.java",
            "range": {"start": {"line": 0, "character": 0}, "end": {"line": 0, "character": 3}}
        }
    }]"#);
    let out = symbols_to_query(value, &at_root("/proj"), 10).unwrap();
    assert_eq!(out["symbols"][0]["file"], json(r#""/other/Foo.java""#));
}

#[test]
fn container_name_present_and_absent() {
    let value = json(r#"[
        {
            "name": "bar",
            "kind": 6,
            "location": {
                "uri": "file:///proj/Foo.java",
                "range": {"start": {"line": 2, "character": 0}, "end": {"line": 2, "character": 3}}
            },
            "containerName": "Foo"
        },
        {
            "name": "Foo",
            "kind": 5,
            "location": {
                "uri": "file:///proj/Foo.java",
                "range": {"start": {"line": 0, "character": 0}, "end": {"line": 0, "character": 3}}
            }
        }
    ]"#);
    let out = symbols_to_query(value, &at_root("/proj"), 10).unwrap();
    assert_eq!(out["symbols"][0]["container_name"], json(r#""Foo""#));
    assert!(out["symbols"][1].get("container_name").is_none());
}

#[test]
fn symbol_missing_range_is_dropped_not_fatal() {
    let value = json(r#"[
        {
            "name": "Unresolved",
            "kind": 5,
            "location": { "uri": "file:///proj/Foo.java" }
        },
        {
            "name": "Resolved",
            "kind": 5,
            "location": {
                "uri": "file:///proj/Foo.java",
                "range": {"start": {"line": 0, "character": 0}, "end": {"line": 0, "character": 3}}
            }
        }
    ]"#);
    let out = symbols_to_query(value, &at_root("/proj"), 10).unwrap();
    assert_eq!(out["count"], json("1"));
    assert_eq!(out["symbols"][0]["name"], json(r#""Resolved""#));
}

#[test]
fn symbol_search_quotes_only_the_matches_it_returns() {
    // Quoting a match reads its file and scans it; a broad search that
    // returns two of two thousand matches must pay that for two, so the
    // source cache must hold only the files behind the returned symbols.
    let names: Vec<String> = (0..5).map(|i| format!("Foo{i}.java")).collect();
    let texts: Vec<String> = (0..5).map(|i| format!("class Foo{i} {{}}\n")).collect();
    let files: Vec<(&str, &str)> = (0..5).map(|i| (names[i].as_str(), texts[i].as_str())).collect();
    let dir = Tree::new(&files);
    let matches: Vec<Value> = (0..5)
        .map(|i| {
            let file = dir.path(&names[i]);
            json(&r#"{
                "name": "@NAME@",
                "kind": 5,
                "location": {
                    "uri": "@FILE@",
                    "range": {"start": {"line": 0, "character": 6}, "end": {"line": 0, "character": 10}}
                }
            }"#.replace("@NAME@", &format!("Foo{i}")).replace("@FILE@", &path_to_uri(&file)))
        })
        .collect();
    let source = dir.source(0);

    let out = symbols_to_query(Value::Array(matches.clone()), &source, 2).unwrap();
    let read = match_uris(&lib(&Value::Array(matches)), 2);

    assert_eq!(out["count"], json("5"));
    assert_eq!(out["symbols"][0]["text"], json(r#""class Foo0 {}""#));
    assert_eq!(out["symbols"][1]["text"], json(r#""class Foo1 {}""#));
    assert_eq!(read.len(), 2, "only the returned matches are read");
}

#[test]
fn symbol_search_truncates_and_reports_total() {
    let matches: Vec<Value> = (0..5)
        .map(|i| {
            json(&r#"{
                "name": "@NAME@",
                "kind": 5,
                "location": {
                    "uri": "@URI@",
                    "range": {"start": {"line": 0, "character": 0}, "end": {"line": 0, "character": 3}}
                }
            }"#.replace("@NAME@", &format!("Foo{i}")).replace("@URI@", &format!("file:///proj/Foo{i}.java")))
        })
        .collect();
    let out = symbols_to_query(Value::Array(matches), &at_root("/proj"), 2).unwrap();
    assert_eq!(out["count"], json("5"));
    assert_eq!(out["symbols"].as_array().unwrap().len(), 2);
    assert_eq!(out["truncated"], json("true"));
}

#[test]
fn encodings_and_places_of_edits_are_exact() {
    let edit = to_core_workspace_edit(json(r#"{"changes": {"file:///p/a%20b.rs": [
        {"range": {"start": {"line": 3, "character": 1}, "end": {"line": 4, "character": 2}}, "newText": "x"}
    ]}}"#)).unwrap();
    assert_eq!(edit.encoding, PositionEncoding::Utf16);
    assert_eq!(edit.files[0].path, "/p/a b.rs");
    assert_eq!(edit.files[0].edits[0].range.start.line, 3);
    assert_eq!(edit.files[0].edits[0].range.start.character, 1);
    assert_eq!(edit.files[0].edits[0].range.end.line, 4);
    assert_eq!(edit.files[0].edits[0].range.end.character, 2);
}

#[test]
fn files_come_to_be_and_go_away() {
    let edit = to_core_workspace_edit(json(r#"{"documentChanges": [
        {"kind": "create", "uri": "file:///p/new.rs"},
        {"kind": "delete", "uri": "file:///p/old.rs"}
    ]}"#)).unwrap();
    assert_eq!(
        edit.file_ops,
        vec![
            FileOperation::Create { path: "/p/new.rs".to_string() },
            FileOperation::Delete { path: "/p/old.rs".to_string() },
        ]
    );
}

#[test]
fn values_of_another_shape_are_refused() {
    assert_eq!(to_core_workspace_edit(json("[1, 2, 3]")), Err(Malformed));
    assert_eq!(to_core_workspace_edit(json(r#""edit""#)), Err(Malformed));
    assert_eq!(locations_to_query(json(r#"[{"uri": 3}]"#), &at_root("/p")), Err(Malformed));
    assert_eq!(goto_to_query(json("7"), &at_root("/p"), "definitions"), Err(Malformed));
    assert_eq!(symbols_to_query(json(r#"[{"name": "x"}]"#), &at_root("/p"), 5), Err(Malformed));
    assert_eq!(call_hierarchy_items_to_query(json("true"), &at_root("/p")), Err(Malformed));
    assert_eq!(incoming_calls_to_query(json("{}"), &at_root("/p")), Err(Malformed));
}

#[test]
fn handles_that_cannot_be_read_are_left_out() {
    let found = call_hierarchy_items_to_query(json("[true]"), &at_root("/p")).unwrap();
    assert_eq!(found, json(r#"{ "count": 0, "items": [] }"#));
    let found = incoming_calls_to_query(json(r#"[true, {"from": {}}]"#), &at_root("/p")).unwrap();
    assert_eq!(found, json(r#"{ "count": 0, "calls": [] }"#));
}

#[test]
fn structures_may_arrive_as_arrays() {
    let value = json(r#"[["file:///p/a.rs", [[1, 2], [3, 4]]]]"#);
    let out = locations_to_query(value, &at_root("/p")).unwrap();
    assert_eq!(
        out["usages"][0],
        json(r#"{"file": "a.rs", "start_line": 1, "start_character": 2, "end_line": 3, "end_character": 4}"#)
    );
}

#[test]
fn the_files_to_read_are_those_that_get_quoted() {
    let a = r#"{"uri": "file:///p/a.rs", "range": {"start": {"line": 0, "character": 0}, "end": {"line": 0, "character": 1}}}"#;
    assert_eq!(location_uris(&lib(&json(&format!("[{a}]")))), vec!["file:///p/a.rs"]);
    assert_eq!(goto_uris(&lib(&json(a))), vec!["file:///p/a.rs"]);
    let item = r#"{"name": "f", "kind": 12, "uri": "file:///p/b.rs",
        "range": {"start": {"line": 0, "character": 0}, "end": {"line": 0, "character": 1}},
        "selectionRange": {"start": {"line": 0, "character": 0}, "end": {"line": 0, "character": 1}}}"#;
    assert_eq!(call_item_uris(&lib(&json(&format!("[{item}]")))), vec!["file:///p/b.rs"]);
    let call = format!(r#"[{{"to": {item}, "fromRanges": [{{"start": {{"line": 0, "character": 0}}, "end": {{"line": 0, "character": 1}}}}]}}]"#);
    let uris = call_uris(&lib(&json(&call)), "to", Some("file:///p/a.rs"));
    assert!(uris.contains(&"file:///p/a.rs".to_string()));
    assert!(uris.contains(&"file:///p/b.rs".to_string()));
}

#[test]
fn the_context_parameter_is_described() {
    let described = out(&context_lines_param());
    assert_eq!(described["type"], json(r#""integer""#));
}
