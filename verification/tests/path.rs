//! Paths, held against those of the standard library.

use henka::path;
use std::path::Path;

/// All texts of up to `n` characters out of some.
fn texts(chars: &[&str], n: usize) -> Vec<String> {
    let mut all = vec![String::new()];
    let mut last = vec![String::new()];
    for _ in 0..n {
        let mut next = Vec::new();
        for t in &last {
            for c in chars {
                next.push(format!("{t}{c}"));
            }
        }
        all.extend(next.clone());
        last = next;
    }
    all
}

fn owned(p: Option<&Path>) -> Option<String> {
    p.map(|p| p.to_str().unwrap().to_string())
}

#[test]
fn parts_of_a_path() {
    for p in texts(&["/", ".", "a", "\u{e4}"], 6) {
        let std = Path::new(&p);
        assert_eq!(path::is_absolute(&p), std.is_absolute(), "{p:?}");
        assert_eq!(
            path::file_name(&p),
            std.file_name().map(|n| n.to_str().unwrap().to_string()),
            "{p:?}"
        );
        assert_eq!(
            path::extension(&p),
            std.extension().map(|n| n.to_str().unwrap().to_string()),
            "{p:?}"
        );
        assert_eq!(path::parent(&p), owned(std.parent()), "{p:?}");
        let above: Vec<String> = std.ancestors().map(|a| a.to_str().unwrap().to_string()).collect();
        let found = path::ancestors(&p);
        assert!(found == above || found == above[1..].to_vec(), "{p:?} {found:?} {above:?}");
    }
}

#[test]
fn pairs_of_paths() {
    let all = texts(&["/", ".", "a", "b"], 4);
    for a in &all {
        for b in &all {
            let (x, y) = (Path::new(a), Path::new(b));
            assert_eq!(path::same(a, b), x == y, "{a:?} {b:?}");
            assert_eq!(path::is_before(a, b), x < y, "{a:?} {b:?}");
            assert_eq!(path::starts_with(a, b), x.starts_with(y), "{a:?} {b:?}");
            assert_eq!(path::strip_prefix(a, b), owned(x.strip_prefix(y).ok()), "{a:?} {b:?}");
            assert_eq!(path::join(a, b), x.join(y).to_str().unwrap(), "{a:?} {b:?}");
        }
    }
}

#[test]
fn sorting_keeps_the_first_of_equal_paths_first() {
    let given = vec!["/b".to_string(), "/a/c".to_string(), "/a".to_string(), "/a/b".to_string()];
    assert_eq!(path::sorted(&given), vec!["/a", "/a/b", "/a/c", "/b"]);
    assert_eq!(path::sorted(&vec![]), Vec::<String>::new());
}

#[test]
fn components_are_the_names_between_slashes() {
    assert_eq!(path::component_texts("/a/./b//c"), vec!["/", "a", "b", "c"]);
    assert_eq!(path::component_texts(""), Vec::<String>::new());
}

#[test]
fn going_back_is_taken_together_with_what_it_goes_back_over() {
    for (p, dir) in [("/a/b", "/a"), ("/a/x/../b", "/a"), ("/a", "/a/."), ("/..", "/"), ("a/..", ""), ("../a", "..")] {
        assert!(path::is_within(p, dir), "{p:?} {dir:?}");
    }
    for (p, dir) in [("/a/../b", "/a"), ("/ab", "/a"), ("a", "/a"), ("/a", "a"), ("..", ""), ("../..", ".."), ("/", "/a")] {
        assert!(!path::is_within(p, dir), "{p:?} {dir:?}");
    }
}
