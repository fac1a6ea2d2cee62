//! Which backends answer a call, and what the answer is.

use henka::convert::call_hierarchy_item_route;
use henka::edit::Position;
use henka::error::Error;
use henka::error::ErrorKind;
use henka::json::Json;
use henka::json::JsonView;
use henka::json::Number;
use henka::json::Object;
use henka::language::Language;
use henka::mcp::answer;
use henka::mcp::applied_result;
use henka::mcp::call_named;
use henka::mcp::find_resource;
use henka::mcp::preview_result;
use henka::mcp::project_status;
use henka::mcp::read_command;
use henka::mcp::register_failure;
use henka::mcp::register_result;
use henka::mcp::Call;
use henka::mcp::Command;
use henka::mcp::DispatchResult;
use henka::mcp::HenkaMcp;
use henka::mcp::Prepared;
use henka::mcp::Providers;
use henka::mcp::ToolSchemas;
use henka::mcp::VcsStatus;
use henka::mcp::SKILL_URI;
use henka::operation::LanguageRoute;
use henka::operation::LanguageRouteView;
use henka::operation::Operation;
use henka::operation::OperationDescriptor;
use henka::operation::OperationDescriptorView;
use henka::operation::OperationKind;
use henka::operation::OperationRegistry;
use henka::operation::Target;
use henka::operation::TargetKind;
use henka::pathmap::PathMap;
use henka::project::Project;
use henka::protocol::McpErrorKind;
use serde_json::Value;

fn json(text: &str) -> Value {
    serde_json::from_str(text).unwrap()
}

/// A value as the library holds it.
fn lib(value: &Value) -> Json {
    match value {
        Value::Null => Json::Null,
        Value::Bool(b) => Json::Bool(*b),
        Value::Number(n) => Json::Number(match (n.as_u64(), n.as_i64()) {
            (Some(n), _) => Number::Unsigned(n),
            (None, Some(n)) => Number::Negative(n),
            _ => Number::Decimal(n.to_string()),
        }),
        Value::String(s) => Json::Text(s.clone()),
        Value::Array(list) => Json::List(list.iter().map(lib).collect()),
        Value::Object(map) => {
            let mut object = Object::new();
            for (key, value) in map {
                object = object.with(key, lib(value));
            }
            Json::Object(object)
        }
    }
}

/// A value of the library, to be looked at.
fn out(value: &Json) -> Value {
    match value {
        Json::Null => Value::Null,
        Json::Bool(b) => Value::Bool(*b),
        Json::Number(Number::Unsigned(n)) => Value::from(*n),
        Json::Number(Number::Negative(n)) => Value::from(*n),
        Json::Number(Number::Decimal(text)) => json(text),
        Json::Text(s) => Value::String(s.clone()),
        Json::List(list) => Value::Array(list.iter().map(out).collect()),
        Json::Object(object) => Value::Object(
            object.keys().into_iter().map(|key| { let v = out(object.get(&key).unwrap()); (key, v) }).collect(),
        ),
    }
}

/// An operation of some languages.
struct Op {
    id: &'static str,
    kind: OperationKind,
    target: TargetKind,
    languages: Vec<Language>,
    hinted: bool,
}

impl Operation for Op {
    fn description(&self) -> OperationDescriptorView {
        unreachable!("ghost")
    }

    fn routing(&self, _params: JsonView) -> LanguageRouteView {
        unreachable!("ghost")
    }

    fn descriptor(&self) -> OperationDescriptor {
        OperationDescriptor {
            id: self.id.to_string(),
            title: self.id.to_string(),
            description: String::new(),
            kind: self.kind,
            languages: self.languages.clone(),
            target: self.target,
            params_schema: lib(&json(r#"{"type": "object", "properties": {}}"#)),
        }
    }

    fn route(&self, params: &Json) -> LanguageRoute {
        if self.hinted {
            call_hierarchy_item_route(params)
        } else {
            LanguageRoute::Unspecified
        }
    }
}

fn op(id: &'static str, target: TargetKind, language: Language, hinted: bool) -> Op {
    Op { id, kind: OperationKind::Query, target, languages: vec![language], hinted }
}

/// The operations that tell which language answers.
fn which(language: Language) -> Vec<Op> {
    vec![
        op("which", TargetKind::Position, language, false),
        op("which-project", TargetKind::Project, language, false),
        op("which-item", TargetKind::Project, language, true),
    ]
}

fn project(languages: Vec<Language>) -> Project {
    Project { id: "p".to_string(), root: "/proj".to_string(), languages }
}

/// A handler with a backend of its own for Java and for TypeScript.
fn mixed() -> HenkaMcp<Op> {
    let mut providers = Providers::new();
    providers.register(Language::Java, 0);
    providers.register(Language::TypeScript, 1);
    let mut ops = which(Language::Java);
    ops.extend(which(Language::TypeScript));
    HenkaMcp::with_path_map(providers, ops, PathMap::empty(), vec![])
}

fn both() -> Project {
    project(vec![Language::Java, Language::TypeScript])
}

fn asked(ready: &Prepared) -> Vec<&'static str> {
    ready.plan.asks.iter().map(|a| a.language.as_str()).collect()
}

/// What the caller is told where every backend that is asked answers.
fn told(ready: &Prepared, says: fn(&'static str) -> String) -> Value {
    let queries = asked(ready).into_iter().map(|language| lib(&json(&says(language)))).collect();
    match answer(queries, &lib(&json("{}")), &ready.descriptor) {
        DispatchResult::Query(value) | DispatchResult::Edit(value) => out(&value),
    }
}

fn its_language(language: &'static str) -> String {
    format!(r#"{{"count": 1, "languages": ["{language}"]}}"#)
}

fn its_symbol(language: &'static str) -> String {
    format!(r#"{{"count": 1, "symbols": [{{"name": "{language}"}}]}}"#)
}

fn at(file: &str) -> Target {
    Target::Position { file: file.to_string(), position: Position::new(0, 0) }
}

#[test]
fn file_targeted_operation_runs_on_its_own_languages_provider() {
    let mcp = mixed();
    for (file, language) in [("app.ts", "typescript"), ("Main.java", "java")] {
        let ready = mcp.prepare(&both(), "which", at(file), &lib(&json("{}"))).unwrap();
        assert_eq!(asked(&ready), vec![language]);
        assert!(ready.plan.failure.is_none());
        assert_eq!(told(&ready, its_language)["languages"], json(&format!(r#"["{language}"]"#)));
    }
}

#[test]
fn project_scoped_query_is_answered_by_every_language() {
    let ready = mixed().prepare(&both(), "which-project", Target::Project, &lib(&json("{}"))).unwrap();
    assert_eq!(asked(&ready), vec!["java", "typescript"]);
    assert_eq!(told(&ready, its_language)["languages"], json(r#"["java", "typescript"]"#));
}

#[test]
fn project_scoped_query_follows_the_language_named_in_its_params() {
    let params = lib(&json(r#"{"item": {"uri": "file:///proj/app.ts"}}"#));
    let ready = mixed().prepare(&both(), "which-item", Target::Project, &params).unwrap();
    assert_eq!(asked(&ready), vec!["typescript"]);
}

#[test]
fn an_unplaceable_handle_is_refused_rather_than_fanned_out() {
    let params = lib(&json(r#"{"item": {"uri": "nowhere://opaque/handle"}}"#));
    let refused = mixed().prepare(&both(), "which-item", Target::Project, &params).unwrap_err();
    assert_eq!(refused.kind, ErrorKind::InvalidTarget);
    assert!(refused.detail.contains("nowhere://opaque/handle") && refused.detail.contains("which-item"));
}

#[test]
fn one_backend_serving_two_languages_answers_a_project_query_once() {
    let mut providers = Providers::new();
    providers.register(Language::TypeScript, 7);
    providers.register(Language::JavaScript, 7);
    let ops = vec![Op {
        id: "symbols",
        kind: OperationKind::Query,
        target: TargetKind::Project,
        languages: vec![Language::TypeScript, Language::JavaScript],
        hinted: false,
    }];
    let mcp = HenkaMcp::with_path_map(providers, ops, PathMap::empty(), vec![]);
    let in_project = project(vec![Language::TypeScript, Language::JavaScript]);
    let ready = mcp.prepare(&in_project, "symbols", Target::Project, &lib(&json("{}"))).unwrap();
    assert_eq!(asked(&ready), vec!["typescript"]);
    assert_eq!(ready.plan.asks[0].provider, 7);
    assert_eq!(told(&ready, its_symbol), json(r#"{"count": 1, "symbols": [{"name": "typescript"}]}"#));
}

#[test]
fn backends_are_asked_for_their_own_operations() {
    let mcp = mixed();
    let ready = mcp.prepare(&both(), "which-project", Target::Project, &lib(&json("{}"))).unwrap();
    for ask in &ready.plan.asks {
        let operation = mcp.operation(ask.operation).unwrap();
        assert_eq!(operation.id, "which-project");
        assert_eq!(operation.languages, vec![ask.language]);
        assert_eq!(ask.provider, if ask.language == Language::Java { 0 } else { 1 });
    }
}

#[test]
fn commands_are_the_operations_even_under_the_name_of_a_tool() {
    let mut ops = which(Language::Java);
    ops.push(op("list_projects", TargetKind::Project, Language::Java, false));
    let mcp = HenkaMcp::with_path_map(Providers::new(), ops, PathMap::empty(), vec![]);
    assert_eq!(mcp.command_ids(), vec!["list_projects", "which", "which-item", "which-project"]);
}

#[test]
fn a_handle_from_a_shared_backend_reaches_that_backend() {
    let mut providers = Providers::new();
    providers.register(Language::Java, 0);
    providers.register(Language::TypeScript, 1);
    providers.register(Language::JavaScript, 1);
    let mut ops = which(Language::Java);
    ops.extend(which(Language::TypeScript));
    let mcp = HenkaMcp::with_path_map(providers, ops, PathMap::empty(), vec![]);
    let params = lib(&json(r#"{"item": {"uri": "file:///proj/vendor/bundle.js"}}"#));
    let ready = mcp.prepare(&both(), "which-item", Target::Project, &params).unwrap();
    assert_eq!(asked(&ready), vec!["typescript"]);
}

#[test]
fn a_language_that_is_not_served_is_refused() {
    let refused = mixed().prepare(&both(), "which", at("lib.rs"), &lib(&json("{}"))).unwrap_err();
    assert_eq!(refused.kind, ErrorKind::InvalidTarget);
    assert_eq!(refused.detail, "`which` is not served for `rust` in this project");
    let refused = mixed().prepare(&both(), "none", at("a.ts"), &lib(&json("{}"))).unwrap_err();
    assert_eq!(refused.kind, ErrorKind::OperationNotAvailable);
}

#[test]
fn a_language_without_a_backend_ends_the_asking() {
    let mut providers = Providers::new();
    providers.register(Language::Java, 0);
    let mut ops = which(Language::Java);
    ops.extend(which(Language::TypeScript));
    let mcp = HenkaMcp::with_path_map(providers, ops, PathMap::empty(), vec![]);
    let ready = mcp.prepare(&both(), "which-project", Target::Project, &lib(&json("{}"))).unwrap();
    assert_eq!(asked(&ready), vec!["java"]);
    let failure = ready.plan.failure.unwrap();
    assert_eq!(failure.kind, ErrorKind::Backend);
    assert_eq!(failure.detail, "no provider registered for `typescript`");
}

#[test]
fn files_are_looked_for_where_the_server_sees_them() {
    let mut providers = Providers::new();
    providers.register(Language::Java, 0);
    let map = PathMap::parse("/root=/host");
    let mcp = HenkaMcp::with_path_map(providers, which(Language::Java), map, vec!["/workspaces".to_string()]);
    let ready = mcp
        .prepare(&project(vec![Language::Java]), "which", at("/root/A.java"), &lib(&json("{}")))
        .unwrap();
    assert_eq!(ready.target.file().map(String::as_str), Some("/host/A.java"));
    assert_eq!(mcp.auto_register_roots(), &vec!["/workspaces".to_string()]);
    assert_eq!(mcp.path_map().map("/root/x"), "/host/x");
    assert_eq!(mcp.operation(0).unwrap().id, "which");
    assert!(mcp.operation(99).is_none());
}

#[test]
fn requests_are_read_from_arguments() {
    let mcp = mixed();
    let Json::Object(args) = lib(&json(
        r#"{"project": "p", "file": "Main.java", "line": 0, "character": 0, "text": "X", "dry_run": false}"#,
    )) else {
        panic!("not an object");
    };
    let request = mcp.read_request("which", &args, &both()).unwrap();
    assert_eq!(request.target, at("Main.java"));
    assert_eq!(out(&request.params), json(r#"{"text": "X"}"#));
    assert!(!request.dry_run);
    let refused = mcp.read_request("nonexistent", &args, &both()).unwrap_err();
    assert_eq!(refused.kind, McpErrorKind::InvalidParams);
    assert_eq!(refused.message, "unknown tool or operation `nonexistent` for project `p`");
}

#[test]
fn tools_are_the_fixed_ones_and_one_for_each_operation() {
    let none = || Object::new();
    let schemas = ToolSchemas { register: none(), project: none(), none: none(), operations: none() };
    let names: Vec<String> = mixed().tools(&schemas).into_iter().map(|t| t.name).collect();
    for name in [
        "register_project", "unregister_project", "list_projects", "project_status", "list_operations",
        "which", "which-project", "which-item",
    ] {
        assert_eq!(names.iter().filter(|n| *n == name).count(), 1, "{name}");
    }
    let listed: Vec<String> =
        mixed().operations_of(&project(vec![Language::Rust])).into_iter().map(|d| d.id).collect();
    assert_eq!(listed, Vec::<String>::new());
    let listed: Vec<String> = mixed().operations_of(&both()).into_iter().map(|d| d.id).collect();
    assert_eq!(listed, vec!["which", "which-item", "which-project"]);
    assert_eq!(mixed().descriptor_for("which", &vec![Language::TypeScript]).unwrap().id, "which");
    assert!(mixed().descriptor_for("which", &vec![Language::Rust]).is_err());
}

#[test]
fn names_of_tools_are_calls() {
    assert!(matches!(call_named("register_project"), Call::RegisterProject));
    assert!(matches!(call_named("unregister_project"), Call::UnregisterProject));
    assert!(matches!(call_named("list_projects"), Call::ListProjects));
    assert!(matches!(call_named("project_status"), Call::ProjectStatus));
    assert!(matches!(call_named("list_operations"), Call::ListOperations));
    assert!(matches!(call_named("rename"), Call::Operation));
}

#[test]
fn calls_are_read_with_their_arguments() {
    let map = PathMap::parse("/virtual/host=/c");
    let read = |name: &str, text: &str| {
        let Json::Object(args) = lib(&json(text)) else {
            panic!("not an object");
        };
        read_command(name, &args, "why", &map)
    };
    assert_eq!(
        read("register_project", r#"{"root": "/virtual/host/svc", "id": "svc"}"#).unwrap(),
        Command::Register {
            id: Some("svc".to_string()),
            requested: "/virtual/host/svc".to_string(),
            root: "/c/svc".to_string(),
        }
    );
    assert_eq!(
        read("register_project", r#"{"root": "/x", "id": null}"#).unwrap(),
        Command::Register { id: None, requested: "/x".to_string(), root: "/x".to_string() }
    );
    assert_eq!(read("unregister_project", r#"{"id": "p"}"#).unwrap(), Command::Unregister("p".to_string()));
    assert_eq!(read("list_projects", "{}").unwrap(), Command::ListProjects);
    assert_eq!(read("project_status", r#"{"id": "p"}"#).unwrap(), Command::Status("p".to_string()));
    assert_eq!(read("list_operations", r#"{"project": "p"}"#).unwrap(), Command::ListOperations("p".to_string()));
    assert_eq!(read("rename", r#"{"project": "p"}"#).unwrap(), Command::Operate("p".to_string()));
    for (name, args) in [
        ("register_project", "{}"),
        ("register_project", r#"{"root": "/x", "id": 1}"#),
        ("unregister_project", "{}"),
        ("project_status", r#"{"id": 1}"#),
        ("list_operations", "{}"),
    ] {
        let refused = read(name, args).unwrap_err();
        assert_eq!(refused.kind, McpErrorKind::InvalidParams);
        assert_eq!(refused.message, "invalid arguments: why");
    }
    assert_eq!(read("rename", "{}").unwrap_err().message, "missing required `project`");
}

#[test]
fn register_project_suggests_matching_mount() {
    let missing = Error::new(ErrorKind::PathNotFound, "/no/such/place/wanted".to_string());
    let refused = register_failure(&missing, "m".to_string(), &vec!["/tmp/wanted".to_string()]);
    assert!(refused.message.contains("does not exist inside Henka"), "got: {}", refused.message);
    assert!(refused.message.contains("/tmp/wanted"));
    assert!(refused.message.contains("HENKA_PATH_MAP"));
    let other = Error::new(ErrorKind::NotADirectory, "/x".to_string());
    assert_eq!(register_failure(&other, "m".to_string(), &vec![]).message, "m");
}

#[test]
fn operations_are_found_in_the_registry() {
    let mut registry = OperationRegistry::new();
    registry.extend(which(Language::Java));
    assert_eq!(registry.resolve("which", Language::Java).unwrap().id, "which");
    assert!(registry.resolve("which", Language::Rust).is_err());
    assert_eq!(registry.find("which-item", Language::Java), Some(2));
    assert_eq!(registry.languages_for("which", &vec![Language::Rust, Language::Java]), vec![Language::Java]);
    assert_eq!(registry.descriptors().len(), 3);
    assert_eq!(registry.descriptors_for(&project(vec![Language::Rust])).len(), 0);
}

#[test]
fn a_merged_query_respects_the_limit_the_caller_asked_for() {
    let descriptor = op("symbols", TargetKind::Project, Language::Java, false).descriptor();
    let queries = vec![
        lib(&json(r#"{"count": 1, "symbols": [{"name": "java"}]}"#)),
        lib(&json(r#"{"count": 1, "symbols": [{"name": "typescript"}]}"#)),
    ];
    let DispatchResult::Query(merged) = answer(queries, &lib(&json(r#"{"limit": 1}"#)), &descriptor) else {
        panic!("not a query");
    };
    assert_eq!(out(&merged), json(r#"{"count": 2, "symbols": [{"name": "java"}], "truncated": true}"#));
}

#[test]
fn edits_tell_where_they_are_made() {
    let DispatchResult::Edit(told) = preview_result("/w", &Some("r1".to_string()), lib(&json("[]"))) else {
        panic!("not an edit");
    };
    assert_eq!(
        out(&told),
        json(r#"{"dry_run": true, "workspace": {"workspace": "/w", "revision": "r1"}, "files": []}"#)
    );
    let DispatchResult::Edit(told) = applied_result("/w", &None, lib(&json(r#"{"n": 1}"#))) else {
        panic!("not an edit");
    };
    assert_eq!(
        out(&told),
        json(r#"{"dry_run": false, "workspace": {"workspace": "/w", "revision": null}, "applied": {"n": 1}}"#)
    );
}

#[test]
fn registering_tells_of_a_path_that_was_mapped() {
    let fields = || Object::new().with("id", Json::text("svc"));
    let told = out(&register_result(fields(), "/virtual/host/svc", "/c/svc", "/c/svc"));
    assert_eq!(told["id"], json(r#""svc""#));
    assert_eq!(told["translation"]["from"], json(r#""/virtual/host/svc""#));
    assert_eq!(told["translation"]["to"], json(r#""/c/svc""#));
    assert!(told["translation"]["note"].as_str().unwrap().contains("same tree"));
    let told = out(&register_result(fields(), "/c/svc", "/c/svc", "/c/svc"));
    assert_eq!(told, json(r#"{"id": "svc"}"#));
}

#[test]
fn the_state_of_a_project_tells_of_its_version_control() {
    let fields = || Object::new().with("id", Json::text("p"));
    let clean = VcsStatus {
        vcs: "git".to_string(),
        revision: "abc".to_string(),
        branch: None,
        repo_root: Some("/r".to_string()),
        changed_files: vec![],
        digest: None,
    };
    let told = out(&project_status(fields(), "/c/proj", Some(clean), &PathMap::parse("/host/src=/c")));
    assert_eq!(
        told,
        json(
            r#"{"id": "p", "host_path": "/host/src/proj", "vcs": {"vcs": "git", "revision": "abc", "branch": null,
                "repo_root": "/r", "dirty": false, "changed_files": []}}"#
        )
    );
    let dirty = VcsStatus {
        vcs: "git".to_string(),
        revision: "abc".to_string(),
        branch: Some("main".to_string()),
        repo_root: None,
        changed_files: vec![lib(&json(r#"{"path": "Main.java", "oid": "1"}"#))],
        digest: Some("d".to_string()),
    };
    let told = out(&project_status(fields(), "/c/proj", Some(dirty), &PathMap::empty()));
    assert_eq!(told["vcs"]["dirty"], json("true"));
    assert_eq!(told["vcs"]["digest"], json(r#""d""#));
    assert!(told.get("host_path").is_none());
    let told = out(&project_status(fields(), "/c/proj", None, &PathMap::empty()));
    assert_eq!(told, json(r#"{"id": "p", "vcs": null}"#));
}

#[test]
fn there_is_one_resource() {
    assert!(find_resource(SKILL_URI).is_ok());
    let refused = find_resource("skill://other").unwrap_err();
    assert_eq!(refused.kind, McpErrorKind::ResourceNotFound);
    assert_eq!(refused.message, "resource not found");
}
