//! Projects: source trees that operations run on.

use crate::language::Language;
use vstd::prelude::*;

verus! {

/// A source tree under an id.
#[derive(Clone, Debug)]
pub struct Project {
    /// The id.
    pub id: String,
    /// Where the tree is.
    pub root: String,
    /// The languages it holds.
    pub languages: Vec<Language>,
}

/// What a project is.
#[verifier::ext_equal]
pub struct ProjectView {
    /// The id.
    pub id: Seq<char>,
    /// Where the tree is.
    pub root: Seq<char>,
    /// The languages it holds.
    pub languages: Seq<Language>,
}

impl View for Project {
    type V = ProjectView;

    open spec fn view(&self) -> ProjectView {
        ProjectView { id: self.id@, root: self.root@, languages: self.languages@ }
    }
}

} // verus!
