//! Operations on TypeScript and JavaScript, and the language server for Rust.

use henka::analyzer;
use henka::analyzer::Probe;
use henka::analyzer::RaSession;
use henka::edit::Position;
use henka::edit::Range;
use henka::error::ErrorKind;
use henka::json::Json;
use henka::json::Number;
use henka::json::Object;
use henka::operation::LanguageRoute;
use henka::operation::Operation;
use henka::operation::OperationRequest;
use henka::operation::Target;
use henka::operation::TargetKind;
use henka::source::Source;
use henka::ts_ops;
use henka::ts_ops::ActionNext;
use henka::ts_ops::ActionStep;
use henka::ts_ops::CodeActionOp;
use henka::ts_ops::DescribeSymbolOp;
use henka::ts_ops::FileOutlineOp;
use henka::ts_ops::FindUsagesOp;
use henka::ts_ops::GotoQueryOp;
use henka::ts_ops::IncomingCallsOp;
use henka::ts_ops::OutgoingCallsOp;
use henka::ts_ops::PrepareCallHierarchyOp;
use henka::ts_ops::RenameOp;
use henka::ts_ops::SymbolSearchOp;
use serde_json::Value;

fn json(text: &str) -> Value {
    serde_json::from_str(text).unwrap()
}

/// A value as the library holds it.
fn lib(value: &Value) -> Json {
    match value {
        Value::Null => Json::Null,
        Value::Bool(b) => Json::Bool(*b),
        Value::Number(n) => Json::Number(match (n.as_u64(), n.as_i64()) {
            (Some(n), _) => Number::Unsigned(n),
            (None, Some(n)) => Number::Negative(n),
            _ => Number::Decimal(n.to_string()),
        }),
        Value::String(s) => Json::Text(s.clone()),
        Value::Array(list) => Json::List(list.iter().map(lib).collect()),
        Value::Object(map) => {
            let mut object = Object::new();
            for (key, value) in map {
                object = object.with(key, lib(value));
            }
            Json::Object(object)
        }
    }
}

/// A value of the library, to be looked at.
fn out(value: &Json) -> Value {
    match value {
        Json::Null => Value::Null,
        Json::Bool(b) => Value::Bool(*b),
        Json::Number(Number::Unsigned(n)) => Value::from(*n),
        Json::Number(Number::Negative(n)) => Value::from(*n),
        Json::Number(Number::Decimal(text)) => json(text),
        Json::Text(s) => Value::String(s.clone()),
        Json::List(list) => Value::Array(list.iter().map(out).collect()),
        Json::Object(object) => Value::Object(
            object.keys().into_iter().map(|key| { let v = out(object.get(&key).unwrap()); (key, v) }).collect(),
        ),
    }
}

fn request(target: Target, params: &str) -> OperationRequest {
    OperationRequest { target, params: lib(&json(params)) }
}

fn here() -> Target {
    Target::Position { file: "a.ts".to_string(), position: Position::new(1, 2) }
}

#[test]
fn operations_say_what_they_are() {
    let ids: Vec<String> = vec![
        RenameOp.descriptor().id,
        SymbolSearchOp.descriptor().id,
        GotoQueryOp::definition().descriptor().id,
        GotoQueryOp::implementations().descriptor().id,
        FindUsagesOp.descriptor().id,
        DescribeSymbolOp.descriptor().id,
        FileOutlineOp.descriptor().id,
        PrepareCallHierarchyOp.descriptor().id,
        IncomingCallsOp.descriptor().id,
        OutgoingCallsOp.descriptor().id,
    ];
    assert_eq!(
        ids,
        vec![
            "rename", "symbol-search", "go-to-definition", "find-implementations", "find-usages", "describe-symbol",
            "file-outline", "prepare-call-hierarchy", "incoming-calls", "outgoing-calls",
        ]
    );
    let extracting: Vec<String> = CodeActionOp::ts_set().iter().map(|o| o.descriptor().id).collect();
    assert_eq!(extracting, vec!["extract-function", "extract-constant"]);
    assert_eq!(CodeActionOp::ts_set()[0].descriptor().target, TargetKind::Selection);
}

#[test]
fn a_rename_asks_for_the_new_name() {
    let call = RenameOp.ask(&request(here(), r#"{"new_name": "g"}"#)).unwrap();
    assert_eq!(call.method, "textDocument/rename");
    assert_eq!(call.open.as_deref(), Some("a.ts"));
    assert_eq!(
        out(&call.params_for("file:///w/a.ts")),
        json(r#"{"textDocument": {"uri": "file:///w/a.ts"}, "position": {"line": 1, "character": 2}, "newName": "g"}"#)
    );
    assert!(RenameOp.ask(&request(here(), "{}")).is_err());
    assert!(RenameOp.ask(&request(Target::Project, r#"{"new_name": "g"}"#)).is_err());
}

#[test]
fn queries_at_a_position() {
    let req = request(here(), "{}");
    for (call, method) in [
        (GotoQueryOp::definition().ask(&req), "textDocument/definition"),
        (GotoQueryOp::implementations().ask(&req), "textDocument/implementation"),
        (FindUsagesOp.ask(&req), "textDocument/references"),
        (DescribeSymbolOp.ask(&req), "textDocument/hover"),
        (PrepareCallHierarchyOp.ask(&req), "textDocument/prepareCallHierarchy"),
    ] {
        let call = call.unwrap();
        assert_eq!(call.method, method);
        assert!(call.about_file);
    }
    let refused = FindUsagesOp.ask(&request(Target::Project, "{}")).unwrap_err();
    assert_eq!(refused.kind, ErrorKind::InvalidTarget);
    assert_eq!(refused.detail, "this operation expects a position (file, line, character)");
    let call = FileOutlineOp.ask(&request(Target::File { file: "a.ts".to_string() }, "{}")).unwrap();
    assert_eq!(call.method, "textDocument/documentSymbol");
}

#[test]
fn queries_about_a_handle() {
    let req = request(Target::Project, r#"{"item": {"uri": "file:///w/a.ts", "name": "f"}}"#);
    let call = IncomingCallsOp.ask(&req).unwrap();
    assert_eq!(call.method, "callHierarchy/incomingCalls");
    assert_eq!(out(&call.params_for("")), json(r#"{"item": {"uri": "file:///w/a.ts", "name": "f"}}"#));
    assert_eq!(OutgoingCallsOp.sites_in(&req), "file:///w/a.ts");
    assert_eq!(OutgoingCallsOp.ask(&req).unwrap().method, "callHierarchy/outgoingCalls");
    let refused = IncomingCallsOp.ask(&request(Target::Project, "{}")).unwrap_err();
    assert_eq!(refused.detail, ts_ops::ITEM_REQUIRED);
    assert_eq!(
        IncomingCallsOp.route(&lib(&json(r#"{"item": {"uri": "x://y"}}"#))),
        LanguageRoute::Unplaceable("x://y".to_string())
    );
}

#[test]
fn answers_are_reported() {
    let source = Source::new("/w", "/w".to_string(), 0);
    let req = request(Target::Project, r#"{"query": "f", "limit": 1}"#);
    assert_eq!(SymbolSearchOp.limit(&req), 1);
    assert_eq!(out(&SymbolSearchOp.report(&req, &Json::Null, &source).unwrap()), json(r#"{"count": 0, "symbols": []}"#));
    assert_eq!(out(&FindUsagesOp.report(&Json::Null, &source).unwrap()), json(r#"{"count": 0, "usages": []}"#));
    assert_eq!(
        out(&GotoQueryOp::implementations().report(&Json::Null, &source).unwrap()),
        json(r#"{"count": 0, "implementations": []}"#)
    );
    assert_eq!(out(&DescribeSymbolOp.report(&Json::Null).unwrap()), json(r#"{"text": ""}"#));
    assert_eq!(
        out(&FileOutlineOp.report(&Json::Null, &source, "file:///w/a.ts").unwrap()),
        json(r#"{"count": 0, "symbols": []}"#)
    );
    assert_eq!(ts_ops::context_lines(&lib(&json(r#"{"context_lines": 3}"#))), 3);
    assert_eq!(ts_ops::source("/w", "/x".to_string(), &lib(&json(r#"{"context_lines": 99}"#))).context_lines(), 10);
    assert_eq!(ts_ops::backend("m".to_string()).kind, ErrorKind::Backend);
}

#[test]
fn actions_are_asked_for_and_picked() {
    let op = &CodeActionOp::ts_set()[0];
    let selection = Target::Selection {
        file: "a.ts".to_string(),
        range: Range::new(Position::new(1, 2), Position::new(3, 4)),
    };
    let call = op.ask(&request(selection, "{}")).unwrap();
    assert_eq!(call.method, "textDocument/codeAction");
    assert_eq!(
        out(&Json::Object(call.params)),
        json(
            r#"{"range": {"start": {"line": 1, "character": 2}, "end": {"line": 3, "character": 4}},
                "context": {"diagnostics": [], "only": ["refactor.extract.function"]}}"#
        )
    );
    assert_eq!(op.ask(&request(Target::Project, "{}")).unwrap_err().detail, "a file is required");
    let offered = lib(&json(
        r#"[{"kind": "refactor"}, {"title": "x"}, {"kind": "refactor.extract.function.inner", "n": 1}, {"kind": "refactor.extract.function"}]"#,
    ));
    assert_eq!(out(&op.pick_action(&offered).unwrap())["n"], json("1"));
    let refused = op.pick_action(&Json::Null).unwrap_err();
    assert_eq!(refused.kind, ErrorKind::OperationNotAvailable);
    assert_eq!(refused.detail, "extract-function is not available at this location");
}

#[test]
fn kinds_of_action_are_nested_by_dots() {
    let ops = CodeActionOp::ts_set();
    let op = &ops[0];
    let of = |text: &str| lib(&json(text));
    for other in ["refactor.extract.functional", "refactor.extract", "refactor.extract.functions.x", ""] {
        let refused = op.pick_action(&of(&format!(r#"[{{"kind": "{other}"}}]"#))).unwrap_err();
        assert_eq!(refused.kind, ErrorKind::OperationNotAvailable);
        assert_eq!(refused.detail, "extract-function is not available at this location");
    }
    let offered = of(
        r#"[{"kind": "refactor.extract.functional"}, {"kind": "refactor.extract.function", "n": 1},
            {"kind": "refactor.extract.function.inner", "n": 2}]"#,
    );
    assert_eq!(out(&op.pick_action(&offered).unwrap())["n"], json("1"));
    assert!(matches!(
        op.after_actions(&of(r#"[{"kind": "refactor.extract.functional", "command": {}}]"#), "c"),
        ActionNext::Failed(e) if e.kind == ErrorKind::OperationNotAvailable
    ));
}

#[test]
fn actions_are_edits_or_commands() {
    let of = |text: &str| lib(&json(text));
    assert!(CodeActionOp::needs_resolving(&of("{}")));
    assert!(!CodeActionOp::needs_resolving(&of(r#"{"edit": null}"#)));
    assert!(matches!(CodeActionOp::next_step(&of(r#"{"edit": {"x": 1}, "command": {}}"#)), ActionStep::Edit(_)));
    assert!(matches!(CodeActionOp::next_step(&of(r#"{"edit": null, "command": {}}"#)), ActionStep::Command(_)));
    assert!(matches!(CodeActionOp::next_step(&of("{}")), ActionStep::Nothing));
    assert_eq!(
        out(&CodeActionOp::run_command(&of(r#"{"command": "c"}"#)).unwrap()),
        json(r#"{"command": "c", "arguments": []}"#)
    );
    let refused = CodeActionOp::run_command(&of("{}")).unwrap_err();
    assert_eq!(refused.detail, "code action command has no name");
    assert!(CodeActionOp::asked_edit("x", &of("{}")).is_none());
    assert!(CodeActionOp::asked_edit("workspace/applyEdit", &of("{}")).unwrap().is_none());
    let asked = CodeActionOp::asked_edit("workspace/applyEdit", &of(r#"{"edit": {"changes": {}}}"#));
    assert_eq!(out(&asked.unwrap().unwrap()), json(r#"{"changes": {}}"#));
}

#[test]
fn the_first_program_that_runs_is_taken() {
    let cache = analyzer::cache_base(None, Some("/h"));
    assert_eq!(cache, "/h/.cache/henka");
    assert_eq!(analyzer::cache_base(Some("/c"), Some("/h")), "/c/henka");
    assert_eq!(analyzer::cache_base(Some(""), None), ".cache/henka");
    let places = analyzer::candidates(&vec!["/x/ra".to_string()], &cache);
    assert_eq!(
        places,
        vec!["/x/ra", ".cache/rust-analyzer/rust-analyzer", "/h/.cache/henka/rust-analyzer/rust-analyzer"]
    );
    let probes = vec![Probe::Missing, Probe::Broken("/b".to_string()), Probe::Runs("/r".to_string())];
    assert_eq!(analyzer::locate(&places, &probes, true), Ok("/r".to_string()));
    let probes = vec![Probe::Missing, Probe::Broken("/b".to_string())];
    assert_eq!(analyzer::locate(&places, &probes, true), Ok("rust-analyzer".to_string()));
    assert_eq!(
        analyzer::locate(&places, &probes, false),
        Err("/x/ra, /b (found, does not run), rust-analyzer (PATH)".to_string())
    );
}

#[test]
fn the_server_is_greeted_and_says_when_it_is_ready() {
    let greeting = out(&analyzer::initialize_params(7, "/w"));
    assert_eq!(greeting["processId"], json("7"));
    assert_eq!(greeting["rootUri"], json(r#""file:///w""#));
    assert!(analyzer::tells_ready("experimental/serverStatus", &lib(&json(r#"{"quiescent": true, "health": "ok"}"#))));
    assert!(!analyzer::tells_ready("experimental/serverStatus", &lib(&json(r#"{"quiescent": false}"#))));
    assert!(!analyzer::tells_ready("$/progress", &lib(&json(r#"{"quiescent": true}"#))));
}

#[test]
fn a_session_may_quote_from_another_working_copy() {
    let mut session = RaSession::new(5, "/w".to_string());
    assert_eq!(*session.client(), 5);
    assert_eq!(session.root(), "/w");
    assert_eq!(session.content_root(), "/w");
    session.overlay_workspace_impl("/x".to_string());
    assert_eq!(session.content_root(), "/x");
    assert_eq!(session.root(), "/w");
    session.restore_overlay_impl();
    assert_eq!(session.content_root(), "/w");
}

#[test]
fn an_action_leads_to_an_edit() {
    let op = &CodeActionOp::ts_set()[0];
    let of = |text: &str| lib(&json(text));
    let kind = r#""kind": "refactor.extract.function""#;
    let edit = r#"{"changes": {"file:///w/a.ts": []}}"#;
    assert!(matches!(op.after_actions(&of("[]"), "c"), ActionNext::Failed(e) if e.kind == ErrorKind::OperationNotAvailable));
    assert!(matches!(op.after_actions(&of(&format!("[{{{kind}}}]")), "c"), ActionNext::Resolve(_)));
    assert!(matches!(op.after_actions(&of(&format!(r#"[{{{kind}, "edit": {edit}}}]"#)), "c"), ActionNext::Done(_)));
    assert!(matches!(
        op.after_actions(&of(&format!(r#"[{{{kind}, "edit": 3}}]"#)), "c"),
        ActionNext::Failed(e) if e.kind == ErrorKind::Backend && e.detail == "c"
    ));
    assert!(matches!(
        op.after_actions(&of(&format!(r#"[{{{kind}, "command": {{"command": "run"}}}}]"#)), "c"),
        ActionNext::Execute(call) if out(&call) == json(r#"{"command": "run", "arguments": []}"#)
    ));
    assert!(matches!(CodeActionOp::carry_on(&of("{}"), "c"), ActionNext::Done(e) if e.is_empty()));
    assert!(matches!(CodeActionOp::after_command(None, "c"), ActionNext::Done(e) if e.is_empty()));
    assert!(matches!(CodeActionOp::after_command(Some(of("1")), "c"), ActionNext::Failed(e) if e.detail == "c"));
    assert!(ts_ops::edit_in(&Json::Null, "c").unwrap().is_empty());
    assert!(ts_ops::edit_in(&of("[1]"), "c").is_err());
}
