//! The documents that an editor has open.

use henka::proxy::config::Config;
use henka::proxy::config::DEFAULT_URL;
use henka::proxy::documents::Documents;

const FILE: &str = "/work/Foo.java";
const URI: &str = "file:///work/Foo.java";

#[test]
fn untracked_buffer_raises_no_objection() {
    let docs = Documents::new();
    assert!(docs.check_saved(URI, FILE, Some("class Foo {}\n")).is_ok());
}

#[test]
fn buffer_matching_disk_passes() {
    let mut docs = Documents::new();
    docs.set(URI, "class Foo {}\n".into());
    assert!(docs.check_saved(URI, FILE, Some("class Foo {}\n")).is_ok());
}

#[test]
fn dirty_buffer_is_reported() {
    let mut docs = Documents::new();
    docs.set(URI, "// added a line\nclass Foo {}\n".into());
    let err = docs
        .check_saved(URI, FILE, Some("class Foo {}\n"))
        .expect_err("dirty buffer must be reported");
    assert!(err.contains("unsaved changes"), "got: {err}");
}

#[test]
fn closing_a_buffer_stops_the_check() {
    let mut docs = Documents::new();
    docs.set(URI, "dirty\n".into());
    docs.remove(URI);
    assert!(docs.check_saved(URI, FILE, Some("class Foo {}\n")).is_ok());
}

#[test]
fn missing_file_raises_no_objection() {
    let mut docs = Documents::new();
    docs.set("file:///work/Gone.java", "class Gone {}\n".into());
    assert!(docs.check_saved("file:///work/Gone.java", "/work/Gone.java", None).is_ok());
}

#[test]
fn documents_are_kept_apart() {
    let mut docs = Documents::new();
    docs.set("a", "1".into());
    docs.set("b", "2".into());
    docs.set("a", "3".into());
    assert!(docs.check_saved("a", "/a", Some("3")).is_ok());
    assert!(docs.check_saved("b", "/b", Some("2")).is_ok());
    docs.remove("a");
    assert!(docs.check_saved("b", "/b", Some("9")).is_err());
}

#[test]
fn what_is_said_of_an_unsaved_document_is_exact() {
    let mut docs = Documents::new();
    docs.set("a", "1".into());
    assert_eq!(
        docs.check_saved("a", "/p/a.rs", Some("2")),
        Err("`/p/a.rs` has unsaved changes. Henka resolves coordinates against the file on disk, so the request would act on a different position than the one in the buffer. Save the file and retry.".to_string())
    );
}

#[test]
fn settings_come_from_the_environment() {
    let config = Config::from_env(None, Some(String::new()));
    assert_eq!(config, Config { henka_url: DEFAULT_URL.to_string(), project_override: None });
    let config = Config::from_env(Some("http://h".to_string()), Some("p".to_string()));
    assert_eq!(config, Config { henka_url: "http://h".to_string(), project_override: Some("p".to_string()) });
}
