//! Sessions of editors with the server.

use henka::edit::Position;
use henka::error::Error;
use henka::error::ErrorKind;
use henka::json::Json;
use henka::json::Number;
use henka::json::Object;
use henka::language::Language;
use henka::lsp::session;
use henka::lsp::session::Fail;
use henka::lsp::session::Incoming;
use henka::lsp::session::Session;
use henka::lsp::session::Shape;
use henka::lsp::session::Step;
use henka::mcp::DispatchResult;
use henka::operation::OperationDescriptor;
use henka::operation::OperationKind;
use henka::operation::Target;
use henka::operation::TargetKind;
use serde_json::Value;

fn json(text: &str) -> Value {
    serde_json::from_str(text).unwrap()
}

/// A value as the library holds it.
fn lib(value: &Value) -> Json {
    match value {
        Value::Null => Json::Null,
        Value::Bool(b) => Json::Bool(*b),
        Value::Number(n) => Json::Number(match (n.as_u64(), n.as_i64()) {
            (Some(n), _) => Number::Unsigned(n),
            (None, Some(n)) => Number::Negative(n),
            _ => Number::Decimal(n.to_string()),
        }),
        Value::String(s) => Json::Text(s.clone()),
        Value::Array(list) => Json::List(list.iter().map(lib).collect()),
        Value::Object(map) => {
            let mut object = Object::new();
            for (key, value) in map {
                object = object.with(key, lib(value));
            }
            Json::Object(object)
        }
    }
}

/// A value of the library, to be looked at.
fn out(value: &Json) -> Value {
    match value {
        Json::Null => Value::Null,
        Json::Bool(b) => Value::Bool(*b),
        Json::Number(Number::Unsigned(n)) => Value::from(*n),
        Json::Number(Number::Negative(n)) => Value::from(*n),
        Json::Number(Number::Decimal(text)) => json(text),
        Json::Text(s) => Value::String(s.clone()),
        Json::List(list) => Value::Array(list.iter().map(out).collect()),
        Json::Object(object) => Value::Object(
            object.keys().into_iter().map(|key| { let v = out(object.get(&key).unwrap()); (key, v) }).collect(),
        ),
    }
}

fn opened() -> Session {
    let mut session = Session::new();
    let params = lib(&json(r#"{"rootUri": "file:///root/svc.feature"}"#));
    assert!(matches!(session.on_request("initialize", &params), Ok(Step::Welcome)));
    session
}

fn at_document() -> Json {
    lib(&json(r#"{"textDocument": {"uri": "file:///root/svc/a.rs"}, "position": {"line": 1, "character": 2}, "newName": "g"}"#))
}

#[test]
fn messages_are_told_apart() {
    assert!(matches!(session::read_incoming(&lib(&json(r#"{"method": "exit"}"#))), Incoming::Exit));
    assert!(matches!(session::read_incoming(&lib(&json(r#"{"method": "initialized"}"#))), Incoming::Notification));
    let Incoming::Request { id, method, params } =
        session::read_incoming(&lib(&json(r#"{"id": 3, "method": "shutdown", "params": {"x": 1}}"#)))
    else {
        panic!("not a request");
    };
    assert_eq!(out(&id), json("3"));
    assert_eq!(method, "shutdown");
    assert_eq!(out(&params), json(r#"{"x": 1}"#));
    assert_eq!(
        out(&session::reply(&id, Json::Null)),
        json(r#"{"jsonrpc": "2.0", "id": 3, "result": null}"#)
    );
    let fail = Fail::method_not_found("x/y");
    assert_eq!(
        out(&session::reply_error(&id, fail)),
        json(r#"{"jsonrpc": "2.0", "id": 3, "error": {"code": -32601, "message": "method not supported: x/y"}}"#)
    );
}

#[test]
fn requests_become_operations() {
    let mut session = opened();
    assert_eq!(session.folder(), "/root/svc.feature");
    for (method, operation, shape) in [
        ("textDocument/references", "find-usages", Shape::Usages),
        ("textDocument/definition", "go-to-definition", Shape::Definitions),
        ("textDocument/implementation", "find-implementations", Shape::Implementations),
        ("textDocument/hover", "describe-symbol", Shape::Hover),
        ("textDocument/prepareCallHierarchy", "prepare-call-hierarchy", Shape::Items),
    ] {
        let Ok(Step::Run(work)) = session.on_request(method, &at_document()) else {
            panic!("{method} is not run");
        };
        assert_eq!(work.operation, operation);
        assert_eq!(work.shape, shape);
        assert_eq!(work.project_id, "svc");
        assert_eq!(work.workspace.as_deref(), Some("/root/svc.feature"));
        assert!(work.dry_run);
        assert_eq!(
            work.target,
            Target::Position { file: "/root/svc/a.rs".to_string(), position: Position::new(1, 2) }
        );
    }
    let Ok(Step::Run(work)) = session.on_request("textDocument/documentSymbol", &at_document()) else {
        panic!("not run");
    };
    assert_eq!(work.target, Target::File { file: "/root/svc/a.rs".to_string() });
    assert_eq!(work.shape, Shape::Outline);
    let Ok(Step::Run(work)) = session.on_request("textDocument/rename", &at_document()) else {
        panic!("not run");
    };
    assert_eq!(out(&work.params), json(r#"{"new_name": "g"}"#));
    assert!(!work.dry_run);
    assert_eq!(work.shape, Shape::Whole);
    let handle = lib(&json(r#"{"item": {"uri": "file:///a.rs"}}"#));
    for (method, operation, shape) in [
        ("callHierarchy/incomingCalls", "incoming-calls", Shape::Incoming),
        ("callHierarchy/outgoingCalls", "outgoing-calls", Shape::Outgoing),
    ] {
        let Ok(Step::Run(work)) = session.on_request(method, &handle) else {
            panic!("not run");
        };
        assert_eq!(work.operation, operation);
        assert_eq!(work.shape, shape);
        assert_eq!(work.target, Target::Project);
        assert_eq!(out(&work.params), out(&handle));
    }
}

#[test]
fn some_requests_are_answered_at_once() {
    let mut session = Session::new();
    for method in ["initialized", "shutdown", "textDocument/prepareRename"] {
        let Ok(Step::Answer(answer)) = session.on_request(method, &Json::Null) else {
            panic!("{method} is not answered");
        };
        assert_eq!(out(&answer), Value::Null);
    }
    let Ok(Step::Answer(answer)) = session.on_request("textDocument/codeAction", &Json::Null) else {
        panic!("not answered");
    };
    assert_eq!(out(&answer), json("[]"));
}

#[test]
fn requests_that_cannot_be_met_are_refused() {
    let mut session = Session::new();
    let refused = session.on_request("textDocument/references", &at_document()).unwrap_err();
    assert_eq!(refused.code, session::INVALID_PARAMS);
    assert_eq!(refused.message, "no workspace: send `initialize` first");
    let mut session = opened();
    let empty = lib(&json("{}"));
    assert_eq!(
        session.on_request("textDocument/documentSymbol", &empty).unwrap_err().message,
        "missing `textDocument.uri`"
    );
    assert_eq!(
        session.on_request("callHierarchy/incomingCalls", &empty).unwrap_err().message,
        "missing call hierarchy `item`"
    );
    assert_eq!(session.on_request("workspace/executeCommand", &empty).unwrap_err().message, "missing `command`");
    let unnamed = lib(&json(
        r#"{"textDocument": {"uri": "file:///a.rs"}, "position": {"line": 1, "character": 2}, "newName": ""}"#,
    ));
    assert_eq!(session.on_request("textDocument/rename", &unnamed).unwrap_err().message, "missing `newName`");
    let refused = session.on_request("x/y", &empty).unwrap_err();
    assert_eq!(refused.code, session::METHOD_NOT_FOUND);
    assert_eq!(refused.message, "method not supported: x/y");
}

#[test]
fn commands_carry_their_arguments() {
    let mut session = opened();
    let params = lib(&json(
        r#"{"command": "move", "arguments": [{"file": "a.rs", "dry_run": false, "to": "b", "expect": "f"}]}"#,
    ));
    let Ok(Step::Command { command, args, project_id, workspace }) =
        session.on_request("workspace/executeCommand", &params)
    else {
        panic!("not a command");
    };
    assert_eq!(command, "move");
    assert_eq!(project_id, "svc");
    assert_eq!(workspace.as_deref(), Some("/root/svc.feature"));
    let descriptor = OperationDescriptor {
        id: "move".to_string(),
        title: String::new(),
        description: String::new(),
        kind: OperationKind::Edit,
        languages: vec![Language::Java],
        target: TargetKind::File,
        params_schema: Json::Null,
    };
    let request = session::command_request(&descriptor, &args).unwrap();
    assert_eq!(request.target, Target::File { file: "a.rs".to_string() });
    assert_eq!(out(&request.params), json(r#"{"to": "b"}"#));
    assert_eq!(request.workspace, None);
    assert_eq!(request.expect.as_deref(), Some("f"));
    assert!(!request.dry_run);
    assert!(session::command_request(&descriptor, &Object::new()).is_err());
}

#[test]
fn answers_take_the_shape_of_the_request() {
    let query = lib(&json(r#"{"usages": [{"file": "a.rs", "start_line": 1, "start_character": 2, "end_line": 3, "end_character": 4}]}"#));
    assert!(session::shape_fits(Shape::Usages, &query));
    let told = out(&session::respond(Shape::Usages, query.clone(), "/w"));
    assert_eq!(told[0]["uri"], json(r#""file:///w/a.rs""#));
    assert_eq!(told[0]["range"]["end"], json(r#"{"line": 3, "character": 4}"#));
    assert_eq!(out(&session::respond(Shape::Whole, query.clone(), "/w")), out(&query));
    assert_eq!(out(&session::into_value(DispatchResult::Query(query.clone()))), out(&query));
    assert_eq!(out(&session::into_value(DispatchResult::Edit(query.clone()))), out(&query));
    assert!(!session::shape_fits(Shape::Items, &lib(&json(r#"{"items": [{"text": "x", "item": 1}]}"#))));
}

#[test]
fn the_editor_is_told_what_the_server_can_do() {
    let told = out(&session::capabilities(&vec!["rename".to_string()], "1.2"));
    assert_eq!(told["serverInfo"], json(r#"{"name": "henka", "version": "1.2"}"#));
    assert_eq!(told["capabilities"]["executeCommandProvider"]["commands"], json(r#"["rename"]"#));
    assert_eq!(told["capabilities"]["positionEncoding"], json(r#""utf-16""#));
}

#[test]
fn failures_have_codes() {
    let fail = session::core_fail(&Error::new(ErrorKind::InvalidTarget, String::new()), "m".to_string());
    assert_eq!(fail.code, session::INVALID_PARAMS);
    assert_eq!(fail.message, "m");
    let fail = session::core_fail(&Error::new(ErrorKind::Backend, String::new()), "m".to_string());
    assert_eq!(fail.code, session::INTERNAL_ERROR);
}

#[test]
fn an_unknown_method_is_reported_not_fatal() {
    let mut session = opened();
    let refused = session.on_request("textDocument/foldingRange", &lib(&json("{}"))).unwrap_err();
    assert_eq!(refused.code, session::METHOD_NOT_FOUND);
    assert!(session.on_request("shutdown", &Json::Null).is_ok());
}
