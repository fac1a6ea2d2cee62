//! The programming languages the library knows.

use crate::path;
use crate::text;
use vstd::prelude::*;

verus! {

/// A programming language.
#[derive(Clone, Copy, Debug, PartialEq, Eq, Structural)]
pub enum Language {
    /// Java
    Java,
    /// Rust
    Rust,
    /// TypeScript
    TypeScript,
    /// JavaScript
    JavaScript,
}

/// The language whose source files carry an extension.
pub open spec fn language_with_extension(ext: Seq<char>) -> Option<Language> {
    if ext == "java"@ {
        Some(Language::Java)
    } else if ext == "rs"@ {
        Some(Language::Rust)
    } else if ext == "ts"@ || ext == "tsx"@ || ext == "mts"@ || ext == "cts"@ {
        Some(Language::TypeScript)
    } else if ext == "js"@ || ext == "jsx"@ || ext == "mjs"@ || ext == "cjs"@ {
        Some(Language::JavaScript)
    } else {
        None
    }
}

/// The language a file is written in, by its extension.
pub open spec fn language_of(file: Seq<char>) -> Option<Language> {
    match path::extension_of(file) {
        Some(ext) => language_with_extension(ext),
        None => None,
    }
}

/// The name of a language.
pub open spec fn language_name(l: Language) -> Seq<char> {
    match l {
        Language::Java => "java"@,
        Language::Rust => "rust"@,
        Language::TypeScript => "typescript"@,
        Language::JavaScript => "javascript"@,
    }
}

/// Whether a language is among some languages.
pub fn contains(languages: &Vec<Language>, language: Language) -> (r: bool)
    ensures
        r == languages@.contains(language),
{
    let mut i: usize = 0;
    while i < languages.len()
        invariant
            i <= languages@.len(),
            forall|j: int| 0 <= j < i ==> languages@[j] != language,
        decreases languages@.len() - i,
    {
        if languages[i] == language {
            assert(languages@[i as int] == language);
            return true;
        }
        i += 1;
    }
    false
}

impl Language {
    /// The language a file is written in, by its extension.
    pub fn from_path(file: &str) -> (r: Option<Language>)
        ensures
            r == language_of(file@),
    {
        let ext = match path::extension(file) {
            Some(ext) => ext,
            None => {
                return None;
            },
        };
        let e = ext.as_str();
        if text::same(e, "java") {
            Some(Language::Java)
        } else if text::same(e, "rs") {
            Some(Language::Rust)
        } else if text::same(e, "ts") || text::same(e, "tsx") || text::same(e, "mts") || text::same(
            e,
            "cts",
        ) {
            Some(Language::TypeScript)
        } else if text::same(e, "js") || text::same(e, "jsx") || text::same(e, "mjs") || text::same(
            e,
            "cjs",
        ) {
            Some(Language::JavaScript)
        } else {
            None
        }
    }

    /// The name of the language, in lower case.
    pub fn as_str(&self) -> (r: &'static str)
        ensures
            r@ == language_name(*self),
    {
        match self {
            Language::Java => "java",
            Language::Rust => "rust",
            Language::TypeScript => "typescript",
            Language::JavaScript => "javascript",
        }
    }
}

} // verus!
