//! Running operations, step by step.

use henka::edit::FileEdit;
use henka::edit::Position;
use henka::edit::WorkspaceEdit;
use henka::error::Error;
use henka::error::ErrorKind;
use henka::json::Json;
use henka::json::Number;
use henka::json::Object;
use henka::language::Language;
use henka::mcp::Ask;
use henka::mcp::Plan;
use henka::operation::OperationOutcome;
use henka::operation::Target;
use henka::pathmap::PathMap;
use henka::run::Act;
use henka::run::Event;
use henka::run::Outcome;
use henka::run::Run;
use henka::workspace::Revision;
use serde_json::Value;

fn json(text: &str) -> Value {
    serde_json::from_str(text).unwrap()
}

/// A value as the library holds it.
fn lib(value: &Value) -> Json {
    match value {
        Value::Null => Json::Null,
        Value::Bool(b) => Json::Bool(*b),
        Value::Number(n) => Json::Number(match (n.as_u64(), n.as_i64()) {
            (Some(n), _) => Number::Unsigned(n),
            (None, Some(n)) => Number::Negative(n),
            _ => Number::Decimal(n.to_string()),
        }),
        Value::String(s) => Json::Text(s.clone()),
        Value::Array(list) => Json::List(list.iter().map(lib).collect()),
        Value::Object(map) => {
            let mut object = Object::new();
            for (key, value) in map {
                object = object.with(key, lib(value));
            }
            Json::Object(object)
        }
    }
}

/// A value of the library, to be looked at.
fn out(value: &Json) -> Value {
    match value {
        Json::Null => Value::Null,
        Json::Bool(b) => Value::Bool(*b),
        Json::Number(Number::Unsigned(n)) => Value::from(*n),
        Json::Number(Number::Negative(n)) => Value::from(*n),
        Json::Number(Number::Decimal(text)) => json(text),
        Json::Text(s) => Value::String(s.clone()),
        Json::List(list) => Value::Array(list.iter().map(out).collect()),
        Json::Object(object) => Value::Object(
            object.keys().into_iter().map(|key| { let v = out(object.get(&key).unwrap()); (key, v) }).collect(),
        ),
    }
}

fn ask(provider: usize) -> Ask {
    Ask { language: Language::Java, provider, operation: provider }
}

fn plan(n: usize) -> Plan {
    Plan { asks: (0..n).map(ask).collect(), failure: None }
}

fn at(file: &str) -> Target {
    Target::Position { file: file.to_string(), position: Position::new(0, 0) }
}

fn start(target: Target, plan: Plan, expect: Option<&str>, dry_run: bool) -> (Run, Act) {
    Run::start(target, plan, "/proj".to_string(), None, expect.map(str::to_string), dry_run, &PathMap::empty())
}

/// Goes on with what the run waits for.
fn go(run: Run, event: Event) -> (Run, Act) {
    assert!(run.awaits(&event), "{run:?} does not wait for {event:?}");
    run.next(event)
}

fn same_repository() -> Event {
    Event::Repositories {
        workspace: Some("r".to_string()),
        project: Some("r".to_string()),
        canonical_workspace: "/proj".to_string(),
        canonical_project: "/proj".to_string(),
    }
}

fn query(text: &str) -> Event {
    Event::Ran(Ok(OperationOutcome::Query(lib(&json(text)))))
}

fn edit_of(file: &str) -> WorkspaceEdit {
    let mut edit = WorkspaceEdit::empty();
    edit.files.push(FileEdit { path: file.to_string(), edits: vec![] });
    edit
}

/// A run up to the point where its first operation runs.
fn running(dry_run: bool, root: Option<&str>) -> Run {
    let (run, act) = start(at("a.java"), plan(1), None, dry_run);
    assert!(matches!(act, Act::FindRepositories(w) if w == "/proj"));
    let (run, act) = go(run, same_repository());
    assert!(matches!(act, Act::Open(a) if a == ask(0)));
    let (run, act) = go(run, Event::Opened(Ok(root.map(str::to_string))));
    assert!(matches!(act, Act::Begin));
    let (run, act) = go(run, Event::Begun);
    if root == Some("/proj") {
        assert!(matches!(act, Act::Run(a) if a == ask(0)));
        run
    } else {
        assert!(matches!(act, Act::Overlay(w) if w == "/proj"));
        let (run, act) = go(run, Event::Overlaid(Ok(())));
        assert!(matches!(act, Act::Run(a) if a == ask(0)));
        run
    }
}

#[test]
fn every_backend_in_the_plan_answers() {
    let (run, _) = start(Target::Project, plan(2), None, true);
    let (mut run, mut act) = go(run, same_repository());
    for (i, text) in ["{\"n\": 1}", "{\"n\": 2}"].into_iter().enumerate() {
        assert!(matches!(act, Act::Open(a) if a == ask(i)));
        (run, act) = go(run, Event::Opened(Ok(Some("/proj".to_string()))));
        assert!(matches!(act, Act::Begin));
        (run, act) = go(run, Event::Begun);
        assert!(matches!(act, Act::Run(_)));
        (run, act) = go(run, query(text));
        assert!(matches!(act, Act::Restore));
        (run, act) = go(run, Event::Restored);
        assert!(matches!(act, Act::End));
        (run, act) = go(run, Event::Ended);
    }
    let Act::Stop(Outcome::Queries(answers)) = act else {
        panic!("no answers");
    };
    assert_eq!(answers.iter().map(out).collect::<Vec<_>>(), vec![json(r#"{"n": 1}"#), json(r#"{"n": 2}"#)]);
    assert!(!run.awaits(&Event::Ended));
}

#[test]
fn the_request_guard_outlives_the_edit_and_its_index_sync() {
    let run = running(false, Some("/proj"));
    let (run, act) = go(run, Event::Ran(Ok(OperationOutcome::Edit(edit_of("/proj/a.java")))));
    assert!(matches!(act, Act::Restore));
    let (run, act) = go(run, Event::Restored);
    assert!(matches!(act, Act::FindRevision(w) if w == "/proj"));
    let (run, act) = go(run, Event::Revision(Some("r1".to_string())));
    assert!(matches!(act, Act::Apply(e) if e.files[0].path == "/proj/a.java"));
    let (run, act) = go(run, Event::Finished(Ok(lib(&json(r#"{"changed": 1}"#)))));
    assert!(matches!(act, Act::Sync));
    let (run, act) = go(run, Event::Synced);
    assert!(matches!(act, Act::End));
    let (_, act) = go(run, Event::Ended);
    let Act::Stop(Outcome::Edit(told)) = act else {
        panic!("no edit");
    };
    assert_eq!(
        out(&told),
        json(r#"{"dry_run": false, "workspace": {"workspace": "/proj", "revision": "r1"}, "applied": {"changed": 1}}"#)
    );
}

#[test]
fn an_edit_of_another_checkout_is_moved_and_not_synced() {
    let run = running(false, Some("/base"));
    let (run, _) = go(run, Event::Ran(Ok(OperationOutcome::Edit(edit_of("/base/a.java")))));
    let (run, _) = go(run, Event::Restored);
    let (run, act) = go(run, Event::Revision(None));
    assert!(matches!(act, Act::Apply(e) if e.files[0].path == "/proj/a.java"));
    let (_, act) = go(run, Event::Finished(Ok(Json::Null)));
    assert!(matches!(act, Act::End));
}

#[test]
fn an_edit_that_is_only_looked_at_changes_nothing() {
    let run = running(true, Some("/proj"));
    let (run, _) = go(run, Event::Ran(Ok(OperationOutcome::Edit(edit_of("a.java")))));
    let (run, _) = go(run, Event::Restored);
    let (run, act) = go(run, Event::Revision(None));
    assert!(matches!(act, Act::Preview(_)));
    let (run, act) = go(run, Event::Finished(Ok(lib(&json("[]")))));
    assert!(matches!(act, Act::End));
    let (_, act) = go(run, Event::Ended);
    let Act::Stop(Outcome::Edit(told)) = act else {
        panic!("no edit");
    };
    assert_eq!(
        out(&told),
        json(r#"{"dry_run": true, "workspace": {"workspace": "/proj", "revision": null}, "files": []}"#)
    );
}

#[test]
fn an_edit_outside_the_working_copy_is_refused() {
    let run = running(false, Some("/proj"));
    let (run, _) = go(run, Event::Ran(Ok(OperationOutcome::Edit(edit_of("/usr/a.java")))));
    let (run, act) = go(run, Event::Restored);
    assert!(matches!(act, Act::End));
    let (_, act) = go(run, Event::Ended);
    assert!(matches!(act, Act::Stop(Outcome::Failed(e)) if e.detail == "refactoring would edit files outside the workspace"));
}

#[test]
fn what_a_backend_knew_comes_back_when_an_operation_fails() {
    let run = running(true, None);
    let (run, act) = go(run, Event::Ran(Err(Error::new(ErrorKind::Backend, "x".to_string()))));
    assert!(matches!(act, Act::Restore));
    let (run, act) = go(run, Event::Restored);
    assert!(matches!(act, Act::End));
    let (_, act) = go(run, Event::Ended);
    assert!(matches!(act, Act::Stop(Outcome::Failed(e)) if e.detail == "x"));
}

#[test]
fn failures_end_the_run() {
    let (run, _) = start(at("a.java"), plan(1), None, true);
    let foreign = Event::Repositories {
        workspace: None,
        project: Some("r".to_string()),
        canonical_workspace: "/proj".to_string(),
        canonical_project: "/proj".to_string(),
    };
    let (_, act) = go(run, foreign);
    assert!(matches!(act, Act::Stop(Outcome::Failed(e)) if e.detail == "workspace `/proj` is not a working copy of the project"));
    let (run, _) = start(at("a.java"), plan(1), None, true);
    let (run, _) = go(run, same_repository());
    let (_, act) = go(run, Event::Opened(Err(Error::new(ErrorKind::Backend, "no".to_string()))));
    assert!(matches!(act, Act::Stop(Outcome::Failed(e)) if e.detail == "no"));
    let failing = Plan { asks: vec![], failure: Some(Error::new(ErrorKind::Backend, "none".to_string())) };
    let (run, _) = start(Target::Project, failing, None, true);
    let (_, act) = go(run, same_repository());
    assert!(matches!(act, Act::Stop(Outcome::Failed(e)) if e.detail == "none"));
}

#[test]
fn expect_guard_blocks_mismatched_coordinate() {
    let read = |found: Result<Option<&str>, &str>| Event::Read {
        found: found.map(|t| t.map(str::to_string)).map_err(str::to_string),
        revision: Some(Revision { vcs: "git".to_string(), id: "abc".to_string(), branch: None }),
    };
    let guarded = |expect: &str| {
        let (run, _) = start(at("Main.java"), plan(1), Some(expect), true);
        let (run, act) = go(run, same_repository());
        assert!(matches!(act, Act::Read(f) if f == "/proj/Main.java"));
        run
    };
    let (_, act) = go(guarded("hello"), read(Ok(Some("hello"))));
    assert!(matches!(act, Act::Open(_)));
    let (_, act) = go(guarded("goodbye"), read(Ok(Some("hello"))));
    let Act::Stop(Outcome::Failed(e)) = act else {
        panic!("not refused");
    };
    assert!(
        e.detail.contains("target validation failed") && e.detail.contains("`goodbye`") && e.detail.contains("`hello`"),
        "got: {}",
        e.detail
    );
    let (_, act) = go(guarded("hello"), read(Err("gone")));
    assert!(matches!(act, Act::Stop(Outcome::Failed(e)) if e.detail == "cannot read `/proj/Main.java` to validate the target: gone"));
}

#[test]
fn an_absolute_file_names_its_working_copy() {
    let (run, act) = start(at("/w/a.java"), plan(1), None, true);
    assert!(matches!(act, Act::FindWorkingCopy(f) if f == "/w/a.java"));
    let (_, act) = go(run, Event::WorkingCopy(Some("/w".to_string())));
    assert!(matches!(act, Act::FindRepositories(w) if w == "/w"));
    let (run, _) = start(at("/w/a.java"), plan(1), None, true);
    let (_, act) = go(run, Event::WorkingCopy(None));
    assert!(matches!(act, Act::FindRepositories(w) if w == "/proj"));
    let map = PathMap::parse("/root=/host");
    let (_, act) =
        Run::start(at("/w/a.java"), plan(1), "/proj".to_string(), Some("/root/x"), None, true, &map);
    assert!(matches!(act, Act::FindRepositories(w) if w == "/host/x"));
}
