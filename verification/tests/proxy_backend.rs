//! What the proxy can do, and how it does it.

use henka::json::Json;
use henka::json::Number;
use henka::json::Object;
use henka::edit::Position;
use henka::edit::PositionEncoding;
use henka::proxy::backend;
use henka::proxy::backend::accepts_utf16;
use henka::proxy::backend::advertise_capabilities;
use henka::proxy::backend::unfiltered_capabilities;
use henka::proxy::documents::Documents;
use henka::proxy::session::Binding;
use henka::proxy::session::LspErrorCode;
use henka::proxy::session::OperationDescriptor;
use henka::proxy::session::TargetKind;
use serde_json::Value;

fn json(text: &str) -> Value {
    serde_json::from_str(text).unwrap()
}

/// A value as the library holds it.
fn lib(value: &Value) -> Json {
    match value {
        Value::Null => Json::Null,
        Value::Bool(b) => Json::Bool(*b),
        Value::Number(n) => Json::Number(match (n.as_u64(), n.as_i64()) {
            (Some(n), _) => Number::Unsigned(n),
            (None, Some(n)) => Number::Negative(n),
            _ => Number::Decimal(n.to_string()),
        }),
        Value::String(s) => Json::Text(s.clone()),
        Value::Array(list) => Json::List(list.iter().map(lib).collect()),
        Value::Object(map) => {
            let mut object = Object::new();
            for (key, value) in map {
                object = object.with(key, lib(value));
            }
            Json::Object(object)
        }
    }
}

/// A value of the library, to be looked at.
fn out(value: &Json) -> Value {
    match value {
        Json::Null => Value::Null,
        Json::Bool(b) => Value::Bool(*b),
        Json::Number(Number::Unsigned(n)) => Value::from(*n),
        Json::Number(Number::Negative(n)) => Value::from(*n),
        Json::Number(Number::Decimal(text)) => json(text),
        Json::Text(s) => Value::String(s.clone()),
        Json::List(list) => Value::Array(list.iter().map(out).collect()),
        Json::Object(object) => Value::Object(
            object.keys().into_iter().map(|key| { let v = out(object.get(&key).unwrap()); (key, v) }).collect(),
        ),
    }
}

fn desc(id: &str, kind: Option<&str>) -> OperationDescriptor {
    OperationDescriptor {
        id: id.into(),
        title: id.into(),
        code_action_kind: kind.map(str::to_string),
        target: TargetKind::Position,
        languages: Vec::new(),
    }
}

#[test]
fn empty_catalog_advertises_nothing_but_the_base() {
    // A project henka knows but has no operations for: there is genuinely
    // nothing to offer, and the base capabilities stand alone.
    let caps = advertise_capabilities(&vec![]);
    assert!(caps.references_provider.is_none());
    assert!(caps.rename_provider.is_none());
    assert!(caps.code_action_provider.is_none());
    assert!(caps.execute_command_provider.is_none());
    assert_eq!(caps.position_encoding, Some(PositionEncoding::Utf16));
    assert!(caps.text_document_sync.is_some());
}

#[test]
fn unbound_session_advertises_every_surface() {
    // Nothing to filter by, so nothing is filtered out — otherwise the
    // client would never send a request that could retry the binding.
    let caps = unfiltered_capabilities();
    assert!(caps.references_provider.is_some());
    assert!(caps.rename_provider.is_some());
    assert!(caps.execute_command_provider.is_some());
    let Some(opts) = caps.code_action_provider else {
        panic!("code_action_provider not set");
    };
    assert_eq!(opts.resolve_provider, Some(true));
    assert!(
        opts.code_action_kinds.is_none(),
        "no catalog means no kind list to advertise"
    );
    assert_eq!(caps.position_encoding, Some(PositionEncoding::Utf16));
}

#[test]
fn references_op_advertises_references_provider() {
    let caps = advertise_capabilities(&vec![desc("find-usages", None)]);
    assert!(matches!(caps.references_provider, Some(true)));
}

#[test]
fn code_action_ops_are_collected_into_kinds() {
    let ops = vec![
        desc("extract-variable", Some("refactor.extract.variable")),
        desc("inline", Some("refactor.inline")),
    ];
    let caps = advertise_capabilities(&ops);
    let Some(opts) = caps.code_action_provider else {
        panic!("code_action_provider not set");
    };
    assert_eq!(opts.resolve_provider, Some(true));
    let kinds = opts.code_action_kinds.unwrap();
    assert!(kinds.iter().any(|k| k.as_str() == "refactor.extract.variable"));
    assert!(kinds.iter().any(|k| k.as_str() == "refactor.inline"));
}

#[test]
fn exec_command_ops_gate_execute_command_provider() {
    let caps = advertise_capabilities(&vec![desc("change-signature", None), desc("move", None)]);
    let opts = caps.execute_command_provider.unwrap();
    assert!(opts.commands.contains(&"henka.change-signature".to_string()));
    assert!(opts.commands.contains(&"henka.move".to_string()));
}

#[test]
fn utf16_client_default_is_accepted() {
    // A client that declared no encodings list defaults to UTF-16.
    let params = lib(&json(r#"{"capabilities": {}}"#));
    assert!(accepts_utf16(&params));
}

#[test]
fn utf8_only_client_rejected() {
    let params = lib(&json(r#"{"capabilities": {"general": {"positionEncodings": ["utf-8"]}}}"#));
    assert!(!accepts_utf16(&params));
}

#[test]
fn a_rename_can_be_tried_first() {
    let caps = advertise_capabilities(&vec![desc("rename", None)]);
    assert_eq!(caps.rename_provider.unwrap().prepare_provider, Some(true));
    assert_eq!(caps.references_provider, None);
}

#[test]
fn commands_come_in_their_own_order() {
    let caps = advertise_capabilities(&vec![desc("move", None), desc("change-signature", None)]);
    assert_eq!(
        caps.execute_command_provider.unwrap().commands,
        vec!["henka.change-signature".to_string(), "henka.move".to_string()]
    );
}

#[test]
fn an_editor_that_connects_is_taken_up_or_refused() {
    let of = |text: &str| backend::receive_client(&lib(&json(text)));
    assert_eq!(of(r#"{"workspaceFolders": [{"uri": "file:///a%20b", "name": "x"}]}"#), Ok("/a b".to_string()));
    assert_eq!(of(r#"{"rootUri": "file:///r", "rootPath": "/p"}"#), Ok("/r".to_string()));
    assert_eq!(of(r#"{"rootUri": null, "rootPath": "/p"}"#), Ok("/p".to_string()));
    let refused = of(r#"{"workspaceFolders": [{"uri": "file:///a"}, {"uri": "file:///b"}]}"#).unwrap_err();
    assert_eq!(refused.code, LspErrorCode::InvalidParams);
    assert_eq!(refused.message, "henka-lsp-proxy supports a single workspace folder; initialize sent 2");
    assert_eq!(of("{}").unwrap_err().message, backend::NO_WORKSPACE);
    assert_eq!(of(r#"{"workspaceFolders": [{"uri": "http://x"}], "rootPath": "/p"}"#).unwrap_err().message, backend::NO_WORKSPACE);
    let refused = of(r#"{"capabilities": {"general": {"positionEncodings": ["utf-8"]}}, "rootPath": "/p"}"#).unwrap_err();
    assert_eq!(refused.message, backend::WRONG_ENCODING);
}

#[test]
fn the_state_of_a_project_is_told() {
    let status = lib(&json(r#"{"vcs": {"revision": "abc", "digest": "d1", "changed_files": ["x", "y"]}}"#));
    assert_eq!(
        backend::status_message("p", &status),
        "henka sees project `p` at revision abc (digest d1, 2 changed files)"
    );
    assert_eq!(
        backend::status_message("p", &lib(&json("{}"))),
        "henka sees project `p` at revision <none> (digest <clean>, 0 changed files)"
    );
}

#[test]
fn requests_become_calls() {
    let binding = Binding {
        project_id: "p".to_string(),
        workspace_path: "/w".to_string(),
        operations: Vec::new(),
    };
    assert_eq!(
        out(&backend::references_args(&binding, "/w/a.rs", Position::new(1, 2), true)),
        json(r#"{"file": "/w/a.rs", "line": 1, "character": 2, "include_declaration": true, "project": "p", "workspace": "/w"}"#)
    );
    assert_eq!(
        out(&backend::rename_args(&binding, "/w/a.rs", Position::new(1, 2), "g")),
        json(r#"{"file": "/w/a.rs", "line": 1, "character": 2, "new_name": "g", "dry_run": true, "project": "p", "workspace": "/w"}"#)
    );
}

#[test]
fn requests_about_other_things_than_files_are_refused() {
    assert_eq!(backend::request_file("file:///a.rs"), Ok("/a.rs".to_string()));
    let refused = backend::request_file("untitled:1").unwrap_err();
    assert_eq!(refused.code, LspErrorCode::InvalidParams);
    assert_eq!(refused.message, "textDocument.uri is not a file:// URI");
}

#[test]
fn the_last_change_to_a_document_counts() {
    let mut documents = Documents::new();
    backend::note_changes(&mut documents, "file:///a", &vec!["one".to_string(), "two".to_string()]);
    assert!(backend::ensure_buffer_saved(&documents, "file:///a", "/a", Some("two")).is_ok());
    let refused = backend::ensure_buffer_saved(&documents, "file:///a", "/a", Some("one")).unwrap_err();
    assert_eq!(refused.code, LspErrorCode::InvalidParams);
    assert!(refused.message.contains("`/a` has unsaved changes"));
    backend::note_changes(&mut documents, "file:///a", &vec![]);
    assert!(backend::ensure_buffer_saved(&documents, "file:///a", "/a", Some("two")).is_ok());
}

#[test]
fn an_answer_without_an_edit_is_reported() {
    let answer = lib(&json(r#"{"edit": {"files": []}}"#));
    assert_eq!(out(backend::edit_from_response(&answer, "rename").unwrap()), json(r#"{"files": []}"#));
    let refused = backend::edit_from_response(&lib(&json("{}")), "rename").unwrap_err();
    assert_eq!(refused.code, LspErrorCode::InternalError);
    assert_eq!(
        refused.message,
        "`rename` dry_run response carries no `edit` field \u{2014} is henka-server new enough?"
    );
}
