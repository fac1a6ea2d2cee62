//! The ids of projects.

use henka::proxy::project::derive_project_id;
use henka::proxy::project::resolve_project_id;
use henka::proxy::project::slugify;
use henka::proxy::project::slugify_lowered;
use henka::proxy::project::RegisteredProject;

#[test]
fn basename_becomes_the_id() {
    assert_eq!(
        derive_project_id("/root/stargate").as_deref(),
        Some("stargate")
    );
}

#[test]
fn dots_are_part_of_the_slug() {
    // A jj workspace directory (`<repo>.<workspace>`) is a project root in
    // its own right, and a dotted name like `trino.io` is not a workspace
    // suffix at all. Both slugify whole, the way Henka's derive_id does.
    assert_eq!(
        derive_project_id("/root/stargate.feature1").as_deref(),
        Some("stargate-feature1")
    );
    assert_eq!(
        derive_project_id("/root/trino.io").as_deref(),
        Some("trino-io")
    );
}

#[test]
fn non_root_mount_still_derives() {
    assert_eq!(
        derive_project_id("/workspaces/svc-x").as_deref(),
        Some("svc-x")
    );
}

#[test]
fn basename_without_usable_characters_falls_back_like_henka() {
    // Henka's derive_id names such a project `project`; guessing anything
    // else would miss a project that is in fact registered.
    assert_eq!(
        derive_project_id("/root/...").as_deref(),
        Some("project")
    );
}

#[test]
fn root_has_no_basename() {
    assert!(derive_project_id("/").is_none());
}

#[test]
fn slugs_are_lower_case_with_single_dashes_kept() {
    assert_eq!(slugify("My Project__2"), "my-project--2");
    assert_eq!(slugify("--a--"), "a");
    assert_eq!(slugify("\u{c4}b"), "b");
    assert_eq!(slugify(""), "project");
    assert_eq!(slugify_lowered("abc-1"), "abc-1");
    assert_eq!(slugify_lowered("ABC"), "project");
}

#[test]
fn a_project_is_found_by_its_root_before_its_name() {
    let projects = vec![
        RegisteredProject { id: "svc".to_string(), root: "/elsewhere/svc".to_string() },
        RegisteredProject { id: "odd".to_string(), root: "/root/svc/".to_string() },
    ];
    assert_eq!(resolve_project_id(&projects, "/root/svc").as_deref(), Some("odd"));
    assert_eq!(resolve_project_id(&projects, "/other/Svc").as_deref(), Some("svc"));
    assert_eq!(resolve_project_id(&projects, "/other/none"), None);
    assert_eq!(resolve_project_id(&projects, "/"), None);
}
