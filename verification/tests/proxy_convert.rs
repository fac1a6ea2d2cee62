//! URIs and places of the proxy.

use henka::json::Json;
use henka::json::Number;
use henka::json::Object;
use henka::proxy::convert;
use henka::proxy::convert::path_to_uri;
use henka::proxy::convert::uri_to_path;
use henka::wire::Location;
use serde_json::Value;

fn json(text: &str) -> Value {
    serde_json::from_str(text).unwrap()
}

/// A value as the library holds it.
fn lib(value: &Value) -> Json {
    match value {
        Value::Null => Json::Null,
        Value::Bool(b) => Json::Bool(*b),
        Value::Number(n) => Json::Number(match (n.as_u64(), n.as_i64()) {
            (Some(n), _) => Number::Unsigned(n),
            (None, Some(n)) => Number::Negative(n),
            _ => Number::Decimal(n.to_string()),
        }),
        Value::String(s) => Json::Text(s.clone()),
        Value::Array(list) => Json::List(list.iter().map(lib).collect()),
        Value::Object(map) => {
            let mut object = Object::new();
            for (key, value) in map {
                object = object.with(key, lib(value));
            }
            Json::Object(object)
        }
    }
}

fn usages_to_locations(value: Value, workspace: &str) -> Result<Vec<Location>, String> {
    let value = lib(&value);
    assert!(convert::can_locate(&value, workspace));
    Ok(convert::usages_to_locations(&value, workspace))
}

#[test]
fn uri_to_path_strips_prefix_and_decodes() {
    let uri = "file:///root/stargate/src/Foo%20Bar.java";
    assert_eq!(
        uri_to_path(uri).unwrap(),
        "/root/stargate/src/Foo Bar.java"
    );
}

#[test]
fn path_to_uri_encodes_spaces() {
    let uri = path_to_uri("/tmp/a b.txt").unwrap();
    assert_eq!(uri.as_str(), "file:///tmp/a%20b.txt");
}

#[test]
fn uri_roundtrip() {
    let p = "/root/stargate/src/Foo.java";
    let uri = path_to_uri(p).unwrap();
    assert_eq!(uri_to_path(&uri).unwrap(), p);
}

#[test]
fn usages_response_maps_to_locations() {
    let response = json(r#"{
        "count": 2,
        "usages": [
            { "file": "src/Foo.java", "start_line": 3, "start_character": 4,
              "end_line": 3, "end_character": 7 },
            { "file": "src/Bar.java", "start_line": 10, "start_character": 0,
              "end_line": 10, "end_character": 3 }
        ]
    }"#);
    let root = "/root/stargate";
    let locs = usages_to_locations(response, root).unwrap();
    assert_eq!(locs.len(), 2);
    assert_eq!(locs[0].uri.as_str(), "file:///root/stargate/src/Foo.java");
    assert_eq!(locs[0].range.start.line, 3);
    assert_eq!(locs[0].range.end.character, 7);
}

#[test]
fn null_or_missing_usages_becomes_empty() {
    assert!(usages_to_locations(json("null"), "/x").unwrap().is_empty());
    assert!(
        usages_to_locations(json(r#"{ "count": 0 }"#), "/x")
            .unwrap()
            .is_empty()
    );
}

#[test]
fn only_files_have_paths() {
    assert_eq!(uri_to_path("http://x/a"), None);
    assert_eq!(uri_to_path("file://host/a").as_deref(), Some("/a"));
    assert_eq!(uri_to_path("file://host").as_deref(), Some("/"));
    assert_eq!(uri_to_path("file:///a%C3%A4").as_deref(), Some("/a\u{e4}"));
    assert_eq!(uri_to_path("file:///a%ff"), None);
    assert_eq!(uri_to_path("file:///100%").as_deref(), Some("/100%"));
}

#[test]
fn what_cannot_stand_in_a_uri_is_escaped() {
    assert!(convert::can_make_uri("/a"));
    assert_eq!(path_to_uri("/a\"<>`?#{}b").as_deref(), Some("file:///a%22%3C%3E%60%3F%23%7B%7Db"));
    assert_eq!(path_to_uri("/\u{e4}").as_deref(), Some("file:///%C3%A4"));
    assert_eq!(path_to_uri("rel/a").as_deref(), Some("file:///rel/a"));
    assert_eq!(path_to_uri("/a/b.rs").as_deref(), Some("file:///a/b.rs"));
}

#[test]
fn what_no_uri_can_hold_has_none() {
    assert_eq!(path_to_uri("/a[b"), None);
    let value = json(r#"{"usages": [{"file": "a[b"}, {"file": "c"}, {}]}"#);
    let found = usages_to_locations(value, "/w").unwrap();
    assert_eq!(found.len(), 1);
    assert_eq!(found[0].uri, "file:///w/c");
    assert_eq!(found[0].range.end.line, 0);
}

#[test]
fn uris_of_paths_read_back() {
    for p in ["/", "/a b", "/\u{1f600}/x?y#z", "/a//b", "/\u{7f}\u{1}"] {
        assert_eq!(uri_to_path(&path_to_uri(p).unwrap()).as_deref(), Some(p));
    }
}
