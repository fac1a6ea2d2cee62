//! What is known while an editor is connected to the proxy.

use henka::json::Json;
use henka::json::Number;
use henka::json::Object;
use henka::proxy::backend::offered_capabilities;
use henka::proxy::mcp::McpClientError;
use henka::proxy::session;
use henka::proxy::session::unregistered_message;
use henka::proxy::session::Lookup;
use henka::proxy::session::LspErrorCode;
use henka::proxy::session::OperationDescriptor;
use henka::proxy::session::Session;
use henka::proxy::session::TargetKind;
use serde_json::Value;

fn json(text: &str) -> Value {
    serde_json::from_str(text).unwrap()
}

/// A value as the library holds it.
fn lib(value: &Value) -> Json {
    match value {
        Value::Null => Json::Null,
        Value::Bool(b) => Json::Bool(*b),
        Value::Number(n) => Json::Number(match (n.as_u64(), n.as_i64()) {
            (Some(n), _) => Number::Unsigned(n),
            (None, Some(n)) => Number::Negative(n),
            _ => Number::Decimal(n.to_string()),
        }),
        Value::String(s) => Json::Text(s.clone()),
        Value::Array(list) => Json::List(list.iter().map(lib).collect()),
        Value::Object(map) => {
            let mut object = Object::new();
            for (key, value) in map {
                object = object.with(key, lib(value));
            }
            Json::Object(object)
        }
    }
}

/// A value of the library, to be looked at.
fn out(value: &Json) -> Value {
    match value {
        Json::Null => Value::Null,
        Json::Bool(b) => Value::Bool(*b),
        Json::Number(Number::Unsigned(n)) => Value::from(*n),
        Json::Number(Number::Negative(n)) => Value::from(*n),
        Json::Number(Number::Decimal(text)) => json(text),
        Json::Text(s) => Value::String(s.clone()),
        Json::List(list) => Value::Array(list.iter().map(out).collect()),
        Json::Object(object) => Value::Object(
            object.keys().into_iter().map(|key| { let v = out(object.get(&key).unwrap()); (key, v) }).collect(),
        ),
    }
}

fn merge_envelope(params: Value, project: &str, workspace: &str) -> Value {
    out(&session::merge_envelope(lib(&params), project, workspace))
}

fn client_supports_document_changes(params: &Value) -> bool {
    session::client_supports_document_changes(&lib(params))
}

fn descriptor(value: Value) -> OperationDescriptor {
    session::read_descriptor(&lib(&value)).unwrap()
}

#[test]
fn envelope_wins_over_caller_supplied_project() {
    // A client that accidentally sets `project` gets it overridden — the
    // id resolved for the session is authoritative.
    let merged = merge_envelope(
        json(r#"{ "project": "wrong", "file": "Foo.java" }"#),
        "stargate",
        "/root/stargate",
    );
    assert_eq!(merged["project"], json(r#""stargate""#));
    assert_eq!(merged["file"], json(r#""Foo.java""#));
}

#[test]
fn workspace_carries_the_full_container_path() {
    let merged = merge_envelope(json("{}"), "stargate", "/root/stargate.feature1");
    assert_eq!(merged["workspace"], json(r#""/root/stargate.feature1""#));
}

#[test]
fn non_object_params_still_produce_an_envelope() {
    let merged = merge_envelope(json(r#""nonsense""#), "stargate", "/root/stargate");
    assert_eq!(
        merged,
        json(r#"{ "project": "stargate", "workspace": "/root/stargate" }"#)
    );
}

#[test]
fn document_changes_support_defaults_to_false() {
    // Absent capability means the client can only be handed `changes`.
    assert!(!client_supports_document_changes(
        &json(r#"{"capabilities": {}}"#)
    ));
}

#[test]
fn document_changes_support_is_read_from_capabilities() {
    let params = json(
        r#"{"capabilities": {"workspace": {"workspaceEdit": {"documentChanges": true}}}}"#,
    );
    assert!(client_supports_document_changes(&params));
}

#[test]
fn target_kind_deserializes_from_lowercase() {
    // Henka serializes TargetKind with lowercase names. The proxy must
    // decode them the same way to keep the code-action target dispatch
    // honest — a mis-decoded kind sends a position where a selection was
    // meant.
    let desc = descriptor(json(r#"{
        "id": "extract-variable",
        "title": "Extract variable",
        "code_action_kind": "refactor.extract.variable",
        "target": "selection"
    }"#));
    assert_eq!(desc.target, TargetKind::Selection);
}

#[test]
fn missing_target_defaults_to_position() {
    // Older henka-server payloads didn't include `target`; the default
    // preserves the previous behaviour for those descriptors.
    let desc = descriptor(json(r#"{
        "id": "find-usages",
        "title": "Find usages",
        "code_action_kind": null
    }"#));
    assert_eq!(desc.target, TargetKind::Position);
    assert_eq!(desc.code_action_kind, None);
}

#[test]
fn an_operation_applies_only_to_its_languages() {
    let desc = descriptor(json(r#"{
        "id": "organize-imports",
        "title": "Organize imports",
        "code_action_kind": "source.organizeImports",
        "languages": ["java"]
    }"#));
    assert!(desc.applies_to("/root/p/src/Foo.java"));
    // The catalog is per-project, so a Java-only op comes back for a
    // project that also holds Rust. It must not be offered on the buffer.
    assert!(!desc.applies_to("/root/p/src/lib.rs"));
}

#[test]
fn an_unknown_extension_is_left_to_henka() {
    let desc = descriptor(json(r#"{
        "id": "organize-imports",
        "title": "Organize imports",
        "languages": ["java"]
    }"#));
    // Not something the proxy's extension table knows: hiding the action
    // would be a guess, and henka rejects the op itself if it doesn't fit.
    assert!(desc.applies_to("/root/p/notes.txt"));
}

#[test]
fn a_descriptor_naming_no_languages_applies_everywhere() {
    let desc = descriptor(json(r#"{
        "id": "rename",
        "title": "Rename"
    }"#));
    assert!(desc.applies_to("/root/p/src/lib.rs"));
}

#[test]
fn unregistered_message_names_both_ways_out() {
    let message = unregistered_message("/root/trino.io");
    assert!(message.contains("/root/trino.io"), "got: {message}");
    assert!(message.contains("trino-io"), "got: {message}");
    assert!(message.contains("register_project"), "got: {message}");
    assert!(message.contains("HENKA_PROXY_PROJECT"), "got: {message}");
}

fn fresh(project: Option<&str>) -> Session<()> {
    Session::new((), "/root/svc".to_string(), project.map(str::to_string), &lib(&json("{}")))
}

#[test]
fn a_session_is_bound_by_what_the_server_answers() {
    let mut session = fresh(None);
    assert_eq!(session.lookup(), Lookup::ListProjects);
    let projects = json(r#"[{"id": "a", "root": "/x"}, {"id": "b", "root": "/root/svc"}]"#);
    let id = session.lookup_project_id(Ok(lib(&projects)), "").unwrap();
    assert_eq!(id, "b");
    assert!(session.binding().is_none());
    let operations = json(r#"[{"id": "rename", "title": "Rename"}]"#);
    session.bind(id, Ok(lib(&operations)), "").unwrap();
    assert_eq!(session.lookup(), Lookup::Bound);
    let binding = session.binding().unwrap();
    assert_eq!(binding.project_id, "b");
    assert_eq!(binding.workspace_path, "/root/svc");
    assert_eq!(binding.operation("rename").unwrap().title, "Rename");
    assert!(binding.operation("move").is_none());
    assert_eq!(
        out(&binding.call_args(lib(&json(r#"{"x": 1}"#)))),
        json(r#"{"x": 1, "project": "b", "workspace": "/root/svc"}"#)
    );
}

#[test]
fn what_is_offered_follows_the_binding() {
    let mut session = fresh(Some("given"));
    let offered = offered_capabilities(&session);
    assert_eq!(offered.references_provider, Some(true));
    assert!(offered.execute_command_provider.is_some());
    session.bind("given".to_string(), Ok(lib(&json(r#"[{"id": "rename", "title": "Rename"}]"#))), "").unwrap();
    let offered = offered_capabilities(&session);
    assert_eq!(offered.references_provider, None);
    assert!(offered.rename_provider.is_some());
    assert!(offered.execute_command_provider.is_none());
}

#[test]
fn a_failed_attempt_binds_nothing() {
    let mut session = fresh(Some("given"));
    assert_eq!(session.lookup(), Lookup::ListOperations("given".to_string()));
    let refused = session
        .bind("given".to_string(), Err(McpClientError::EmptyResult { tool: "list_operations".to_string() }), "")
        .unwrap_err();
    assert_eq!(refused.code, LspErrorCode::InternalError);
    assert_eq!(refused.message, "MCP tool `list_operations` returned no text content");
    let refused = session.bind("given".to_string(), Ok(lib(&json("[{}]"))), "missing field `id`").unwrap_err();
    assert_eq!(refused.message, "MCP tool `list_operations` returned malformed JSON: missing field `id`");
    assert!(session.binding().is_none());
    assert_eq!(session.lookup(), Lookup::ListOperations("given".to_string()));
}

#[test]
fn a_folder_without_a_project_is_named() {
    let session = fresh(None);
    let refused = session.lookup_project_id(Ok(lib(&json("[]"))), "").unwrap_err();
    assert_eq!(refused.code, LspErrorCode::InvalidParams);
    assert_eq!(refused.message, unregistered_message("/root/svc"));
    let refused = session.lookup_project_id(Ok(lib(&json("[1]"))), "no").unwrap_err();
    assert_eq!(refused.message, "MCP tool `list_projects` returned malformed JSON: no");
    let refused = session
        .lookup_project_id(
            Err(McpClientError::Call { tool: "list_projects".to_string(), source: "gone".to_string() }),
            "",
        )
        .unwrap_err();
    assert_eq!(refused.message, "MCP call `list_projects` failed: gone");
}

#[test]
fn what_is_said_without_a_project_is_exact() {
    assert_eq!(
        session::unregistered_message_as("/p", "id"),
        "henka has no project rooted at `/p`, and none registered under the id `id` its directory name would imply. Register it on the host with `register_project` against that path, or set HENKA_PROXY_PROJECT to the id it is registered under \u{2014} the proxy will not auto-register."
    );
}

#[test]
fn targets_are_names_or_names_alone() {
    let of = |target: &str| {
        session::read_descriptor(&lib(&json(&format!(r#"{{"id": "x", "title": "X", "target": {target}}}"#))))
            .map(|d| d.target)
    };
    assert_eq!(of(r#""position""#), Ok(TargetKind::Position));
    assert_eq!(of(r#""file""#), Ok(TargetKind::File));
    assert_eq!(of(r#""project""#), Ok(TargetKind::Project));
    assert_eq!(of(r#"{"selection": null}"#), Ok(TargetKind::Selection));
    assert!(of(r#"{"selection": 1}"#).is_err());
    assert!(of(r#""Position""#).is_err());
    assert!(of("null").is_err());
    assert_eq!(TargetKind::default(), TargetKind::Position);
}
