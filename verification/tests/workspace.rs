//! The working copies that requests act in.

use henka::edit::FileEdit;
use henka::edit::FileOperation;
use henka::edit::Position;
use henka::edit::Range;
use henka::edit::WorkspaceEdit;
use henka::error::Error;
use henka::error::ErrorKind;
use henka::operation::Target;
use henka::pathmap::PathMap;
use henka::protocol::into_mcp;
use henka::protocol::McpErrorKind;
use henka::workspace;
use henka::workspace::PathTranslation;
use henka::workspace::Revision;

fn at(file: &str) -> Target {
    Target::Position { file: file.to_string(), position: Position::new(3, 4) }
}

fn texts(list: &[&str]) -> Vec<String> {
    list.iter().map(|t| t.to_string()).collect()
}

#[test]
fn the_nearest_marked_directory_is_the_working_copy() {
    let looked = workspace::marker_paths("/a/b/c.rs");
    assert_eq!(looked[0], ("/a/b/.git".to_string(), "/a/b/.jj".to_string()));
    assert_eq!(looked[1], ("/a/.git".to_string(), "/a/.jj".to_string()));
    let mut marked = vec![false; looked.len()];
    assert_eq!(workspace::working_copy_root_containing("/a/b/c.rs", &marked), None);
    marked[1] = true;
    assert_eq!(workspace::working_copy_root_containing("/a/b/c.rs", &marked).as_deref(), Some("/a"));
    marked[0] = true;
    assert_eq!(workspace::working_copy_root_containing("/a/b/c.rs", &marked).as_deref(), Some("/a/b"));
}

#[test]
fn a_request_acts_in_the_working_copy_that_it_names() {
    let map = PathMap::parse("/root=/host");
    let acts = |named, target: &Target, containing| {
        workspace::resolve_workspace(named, target, "/proj", &map, containing)
    };
    assert_eq!(acts(Some("/root/w"), &at("/x/a.rs"), Some("/x")), "/host/w");
    assert_eq!(acts(None, &at("/x/a.rs"), Some("/x")), "/x");
    assert_eq!(acts(None, &at("a.rs"), Some("/x")), "/proj");
    assert_eq!(acts(None, &at("/x/a.rs"), None), "/proj");
    assert_eq!(acts(None, &Target::Project, None), "/proj");
}

#[test]
fn a_working_copy_of_another_repository_is_refused() {
    assert!(workspace::ensure_same_repo("/w", Some("r"), Some("r"), "/w", "/p").is_ok());
    assert!(workspace::ensure_same_repo("/p", None, None, "/p", "/p/").is_ok());
    for (a, b) in [(Some("r"), Some("s")), (Some("r"), None), (None, None)] {
        let refused = workspace::ensure_same_repo("/w", a, b, "/w", "/p").unwrap_err();
        assert_eq!(refused.kind, ErrorKind::InvalidTarget);
        assert_eq!(refused.detail, "workspace `/w` is not a working copy of the project");
    }
}

#[test]
fn only_absolute_files_are_mapped() {
    let map = PathMap::parse("/root=/host");
    let mut target = at("/root/a.rs");
    workspace::remap_target_file(&map, &mut target);
    assert_eq!(target, at("/host/a.rs"));
    let mut target = at("root/a.rs");
    workspace::remap_target_file(&map, &mut target);
    assert_eq!(target, at("root/a.rs"));
}

#[test]
fn what_the_caller_expects_has_to_stand_there() {
    let target = at("Main.java");
    assert_eq!(workspace::expectation_file(Some("hello"), &target, "/w").as_deref(), Some("/w/Main.java"));
    assert_eq!(workspace::expectation_file(None, &target, "/w"), None);
    assert_eq!(workspace::expectation_file(Some("hello"), &Target::Project, "/w"), None);
    assert!(workspace::validate_expectation(Some("hello"), &target, Some("hello"), "/w", None).is_ok());
    assert!(workspace::validate_expectation(None, &target, Some("hello"), "/w", None).is_ok());
    assert!(workspace::validate_expectation(Some("x"), &Target::Project, None, "/w", None).is_ok());
    let revision = Revision { vcs: "git".to_string(), id: "abc".to_string(), branch: Some("main".to_string()) };
    let refused =
        workspace::validate_expectation(Some("goodbye"), &target, Some("hello"), "/w", Some(&revision)).unwrap_err();
    assert_eq!(refused.kind, ErrorKind::InvalidTarget);
    assert_eq!(
        refused.detail,
        "target validation failed: expected identifier `goodbye` at Main.java:3:4, but Henka's copy has `hello` there. Henka is reading `/w` (git abc, main). The coordinate may have been computed against a different revision or checkout \u{2014} call project_status to compare, or pass the matching `workspace`."
    );
    let selection = Target::Selection {
        file: "A".to_string(),
        range: Range::new(Position::new(1, 2), Position::new(3, 4)),
    };
    let refused = workspace::validate_expectation(Some("x"), &selection, None, "/w", None).unwrap_err();
    assert!(refused.detail.contains("expected selection `x` at A:1:2-3:4, but Henka's copy has no selection there."));
    assert_eq!(workspace::position_label(&Target::Project), "");
    assert_eq!(workspace::unreadable("/w/a", "gone").detail, "cannot read `/w/a` to validate the target: gone");
}

fn edit_of(file: &str) -> WorkspaceEdit {
    let mut edit = WorkspaceEdit::empty();
    edit.files.push(FileEdit { path: file.to_string(), edits: vec![] });
    edit
}

#[test]
fn absolute_paths_do_not_climb_out_of_the_working_copy() {
    for outside in ["/ws/../etc/x", "/ws/a/../../etc/x", "/ws/..", "/../ws2/x", "/ws2/x", "/"] {
        let refused = workspace::reject_edits_outside(&edit_of(outside), "/ws").unwrap_err();
        assert_eq!(refused.kind, ErrorKind::InvalidTarget, "{outside}");
    }
    for inside in ["/ws/a/../b", "/ws/./b", "/ws", "/../ws/x", "/ws/../ws/x", "/ws//a"] {
        assert!(workspace::reject_edits_outside(&edit_of(inside), "/ws").is_ok(), "{inside}");
    }
    let mut edit = edit_of("/ws/a");
    edit.file_ops.push(FileOperation::Rename { from: "/ws/a".to_string(), to: "/ws/../b".to_string() });
    assert!(workspace::reject_edits_outside(&edit, "/ws").is_err());
    let refused = workspace::place_edit(edit_of("/base/../etc/x"), Some("/base"), "/ws").unwrap_err();
    assert_eq!(refused.kind, ErrorKind::InvalidTarget);
    assert!(workspace::place_edit(edit_of("/base/a/../b"), Some("/base"), "/ws").is_ok());
    assert!(workspace::reject_edits_outside(&edit_of("/b/x"), "/a/../b").is_ok());
    assert!(workspace::reject_edits_outside(&edit_of("/a/x"), "/a/../b").is_err());
    for relative in [".", "", "ws"] {
        assert!(workspace::reject_edits_outside(&edit_of("/x"), relative).is_err(), "{relative:?}");
        assert!(workspace::place_edit(edit_of("/base/x"), Some("/base"), relative).is_ok(), "{relative:?}");
    }
}

#[test]
fn relative_paths_are_taken_as_they_are() {
    for relative in ["a", "./a", "a/../b", "../x", "..", ""] {
        for copy in ["/ws", ".", ""] {
            assert!(workspace::reject_edits_outside(&edit_of(relative), copy).is_ok(), "{relative:?} {copy:?}");
        }
    }
}

#[test]
fn edits_stay_inside_the_working_copy() {
    assert!(workspace::reject_edits_outside(&edit_of("/w/a"), "/w").is_ok());
    assert!(workspace::reject_edits_outside(&edit_of("a"), "/w").is_ok());
    let refused = workspace::reject_edits_outside(&edit_of("/x/a"), "/w").unwrap_err();
    assert_eq!(refused.detail, "refactoring would edit files outside the workspace");
    let mut edit = edit_of("/w/a");
    edit.file_ops.push(FileOperation::Rename { from: "/w/a".to_string(), to: "/x/a".to_string() });
    assert!(workspace::reject_edits_outside(&edit, "/w").is_err());
    let placed = workspace::place_edit(edit_of("/base/a"), Some("/base"), "/w").unwrap();
    assert_eq!(placed.files[0].path, "/w/a");
    assert!(workspace::place_edit(edit_of("/base/a"), None, "/w").is_err());
    assert!(workspace::is_base(Some("/w"), "/w"));
    assert!(!workspace::is_base(Some("/base"), "/w"));
}

#[test]
fn directories_whose_children_are_projects() {
    let map = PathMap::parse("/root=/host");
    let named = workspace::auto_register_candidates(Some("/a, /b;\n/a"), &map);
    assert_eq!(workspace::auto_register_roots(&named, &vec![true; named.len()]), texts(&["/a", "/b"]));
    assert_eq!(workspace::auto_register_candidates(Some(""), &map), texts(&[]));
    let usual = workspace::auto_register_candidates(None, &map);
    assert!(usual.contains(&"/host".to_string()));
    assert!(usual.contains(&workspace::WORKSPACES.to_string()));
    assert_eq!(workspace::auto_register_roots(&usual, &vec![false; usual.len()]), texts(&[]));
}

#[test]
fn a_path_that_does_not_exist_is_looked_for_elsewhere() {
    let places = workspace::mount_candidates("/no/such/wanted", true, &texts(&["/tmp/proj"]));
    assert!(places.contains(&"/tmp".to_string()) || places.contains(&"/tmp/wanted".to_string()), "{places:?}");
    let found = workspace::suggest_mounts("/no/such/wanted", &places, &vec![true; places.len()]);
    assert!(found.iter().any(|p| p.ends_with("/wanted")), "{found:?}");
    let refused = workspace::path_not_found_error("/no/such/wanted", &texts(&["/tmp/wanted"]));
    assert_eq!(refused.kind, McpErrorKind::InvalidParams);
    assert!(refused.message.contains("does not exist inside Henka"));
    assert!(refused.message.contains("`/tmp/wanted`"));
    assert!(refused.message.contains("HENKA_PATH_MAP"));
    let refused = workspace::path_not_found_error("/x", &vec![]);
    assert!(!refused.message.contains("A mounted working copy"));
}

#[test]
fn a_mount_is_explained() {
    let told = PathTranslation::mount("/host/svc", "/c/svc");
    assert_eq!(told.from, "/host/svc");
    assert_eq!(told.to, "/c/svc");
    assert!(told.note.starts_with("Henka reads this project at `/c/svc`, the configured mount for your `/host/svc`."));
}

#[test]
fn failures_of_the_caller_are_told_apart() {
    let told = |kind: ErrorKind| into_mcp(&Error::new(kind, "d".to_string()), "m".to_string());
    assert_eq!(told(ErrorKind::InvalidTarget).kind, McpErrorKind::InvalidParams);
    assert_eq!(told(ErrorKind::Backend).kind, McpErrorKind::InternalError);
    assert_eq!(told(ErrorKind::Backend).message, "m");
    assert!(Error::new(ErrorKind::ProjectNotFound, String::new()).is_callers());
    assert!(!Error::new(ErrorKind::Io, String::new()).is_callers());
}
