//! Operations and what they are pointed at.

use henka::edit::Position;
use henka::edit::Range;
use henka::operation::Target;

#[test]
fn retarget_rewrites_position_and_selection_and_file_targets() {
    let mut target = Target::Position {
        file: "/wt/src/A.java".to_string(),
        position: Position::new(1, 2),
    };
    target.retarget("/wt", "/base");
    assert_eq!(target.file().map(String::as_str), Some("/base/src/A.java"));

    let mut target = Target::Selection {
        file: "/wt/src/A.java".to_string(),
        range: Range::new(Position::new(0, 0), Position::new(0, 1)),
    };
    target.retarget("/wt", "/base");
    assert_eq!(target.file().map(String::as_str), Some("/base/src/A.java"));

    let mut target = Target::File {
        file: "/wt/src/A.java".to_string(),
    };
    target.retarget("/wt", "/base");
    assert_eq!(target.file().map(String::as_str), Some("/base/src/A.java"));
}

#[test]
fn retarget_leaves_foreign_paths_and_project_target_unchanged() {
    let mut target = Target::Position {
        file: "/usr/lib/jvm/src/java/lang/String.java".to_string(),
        position: Position::new(0, 0),
    };
    target.retarget("/wt", "/base");
    assert_eq!(
        target.file().map(String::as_str),
        Some("/usr/lib/jvm/src/java/lang/String.java"),
        "paths outside the source root are untouched"
    );

    let mut target = Target::Project;
    target.retarget("/wt", "/base");
    assert_eq!(target, Target::Project);
}
