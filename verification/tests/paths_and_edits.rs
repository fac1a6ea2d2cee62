//! URIs, maps of paths, and edits that move with their files.

use henka::edit::retarget_path;
use henka::edit::FileEdit;
use henka::edit::FileOperation;
use henka::edit::Position;
use henka::edit::Range;
use henka::edit::TextEdit;
use henka::edit::WorkspaceEdit;
use henka::language::Language;
use henka::pathmap::PathMap;
use henka::uri::path_to_file_uri;
use henka::uri::uri_path;
use henka::uri::uri_to_path;

#[test]
fn file_uris_read_back() {
    for p in ["/", "/a b", "/a%20b", "/x?y#z", "/\u{e4}", "/a/./b"] {
        assert_eq!(uri_to_path(&path_to_file_uri(p)), p);
    }
    assert_eq!(path_to_file_uri("/a b%"), "file:///a%20b%25");
}

#[test]
fn escapes_that_are_none_stay() {
    assert_eq!(uri_to_path("file:///a%zz"), "/a%zz");
    assert_eq!(uri_to_path("file:///a%"), "/a%");
    assert_eq!(uri_to_path("/plain"), "/plain");
}

#[test]
fn the_path_of_a_uri_ends_before_its_query() {
    assert_eq!(uri_path("jdt://c/A.java?=x/B.class"), uri_path("jdt://c/A.java"));
}

#[test]
fn the_deepest_prefix_maps_a_path() {
    let map = PathMap::from_entries(&vec![
        ("/root".to_string(), "/h".to_string()),
        ("/root/deep".to_string(), "/d".to_string()),
    ]);
    assert_eq!(map.map("/root/a"), "/h/a");
    assert_eq!(map.map("/root/deep/a"), "/d/a");
    assert_eq!(map.map("/rooted/a"), "/rooted/a");
    assert_eq!(map.reverse("/h/a").as_deref(), Some("/root/a"));
    assert_eq!(map.reverse("/x"), None);
    assert!(PathMap::empty().is_empty());
    assert!(!PathMap::parse("/root=/h").is_empty());
    assert_eq!(PathMap::parse("/root=/h").map("/root/a"), "/h/a");
    assert_eq!(PathMap::parse("/root=/h").container_prefixes(), vec!["/h"]);
}

#[test]
fn mapping_and_back_gives_the_same_place() {
    let map = PathMap::parse("/root=/h");
    assert_eq!(map.reverse(&map.map("/root/a/b")).as_deref(), Some("/root/a/b"));
}

#[test]
fn edits_move_with_their_files() {
    let mut edit = WorkspaceEdit::empty();
    assert!(edit.is_empty());
    let text = TextEdit {
        range: Range::new(Position::new(0, 0), Position::new(0, 1)),
        new_text: "x".to_string(),
    };
    edit.files.push(FileEdit { path: "/base/a.rs".to_string(), edits: vec![text] });
    edit.file_ops.push(FileOperation::Rename { from: "/base/b".to_string(), to: "/other/c".to_string() });
    edit.file_ops.push(FileOperation::Create { path: "/base/n".to_string() });
    edit.file_ops.push(FileOperation::Delete { path: "/base".to_string() });
    edit.retarget("/base", "/wt");
    assert!(!edit.is_empty());
    assert_eq!(edit.files[0].path, "/wt/a.rs");
    assert_eq!(edit.files[0].edits[0].new_text, "x");
    assert_eq!(
        edit.file_ops,
        vec![
            FileOperation::Rename { from: "/wt/b".to_string(), to: "/other/c".to_string() },
            FileOperation::Create { path: "/wt/n".to_string() },
            FileOperation::Delete { path: retarget_path("/base", "/base", "/wt") },
        ]
    );
}

#[test]
fn moving_there_and_back_gives_the_same_path() {
    assert_eq!(retarget_path(&retarget_path("/a/x/y", "/a", "/b"), "/b", "/a"), "/a/x/y");
    assert_eq!(retarget_path("/ab/x", "/a", "/b"), "/ab/x");
}

#[test]
fn languages_are_known_by_extension() {
    let of = |p: &str| Language::from_path(p).map(|l| l.as_str());
    assert_eq!(of("/a/B.java"), Some("java"));
    assert_eq!(of("a.rs"), Some("rust"));
    for e in ["ts", "tsx", "mts", "cts"] {
        assert_eq!(of(&format!("x.{e}")), Some("typescript"));
    }
    for e in ["js", "jsx", "mjs", "cjs"] {
        assert_eq!(of(&format!("x.{e}")), Some("javascript"));
    }
    assert_eq!(of("x.txt"), None);
    assert_eq!(of(".rs"), None);
}
