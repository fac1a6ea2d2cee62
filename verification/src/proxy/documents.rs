//! The text of the documents that an editor has open.
//!
//! The remote server looks for a position in the file on disk, while an editor
//! sends positions in its own text, which may not be saved. A line added above
//! would make the request mean another symbol. So the text of open documents
//! is followed for one purpose: to refuse a request about a document that
//! differs from its file.

use crate::text;
use vstd::prelude::*;

verus! {

/// The open documents by their URIs. An update replaces a whole text.
#[derive(Debug)]
pub struct Documents {
    open: Vec<(String, String)>,
}

/// The text of a document among some, from `i` on.
pub open spec fn text_from(
    open: Seq<(Seq<char>, Seq<char>)>,
    uri: Seq<char>,
    i: int,
) -> Option<Seq<char>>
    decreases open.len() - i,
{
    if i < 0 || i >= open.len() {
        None
    } else if open[i].0 == uri {
        Some(open[i].1)
    } else {
        text_from(open, uri, i + 1)
    }
}

proof fn text_from_push(
    open: Seq<(Seq<char>, Seq<char>)>,
    added: (Seq<char>, Seq<char>),
    uri: Seq<char>,
    i: int,
)
    requires
        0 <= i <= open.len(),
    ensures
        text_from(open.push(added), uri, i) == (match text_from(open, uri, i) {
            Some(t) => Some(t),
            None => if added.0 == uri {
                Some(added.1)
            } else {
                None
            },
        }),
    decreases open.len() - i,
{
    if i < open.len() {
        text_from_push(open, added, uri, i + 1);
    } else {
        assert(text_from(open.push(added), uri, i + 1) is None);
    }
}

/// What is said of a document that differs from its file.
pub open spec fn unsaved_message(path: Seq<char>) -> Seq<char> {
    "`"@ + path
        + "` has unsaved changes. Henka resolves coordinates against the file on disk, so the request would act on a different position than the one in the buffer. Save the file and retry."@
}

impl Documents {
    spec fn pairs(&self) -> Seq<(Seq<char>, Seq<char>)> {
        crate::pathmap::pairs_view(self.open@)
    }

    /// The text of a document, where it is open.
    pub closed spec fn buffer(&self, uri: Seq<char>) -> Option<Seq<char>> {
        text_from(self.pairs(), uri, 0)
    }

    /// No documents.
    pub fn new() -> (r: Documents)
        ensures
            forall|u: Seq<char>| #[trigger] r.buffer(u) is None,
    {
        Documents { open: Vec::new() }
    }

    fn find(&self, uri: &str) -> (r: Option<usize>)
        ensures
            match r {
                Some(i) => i < self.open@.len() && self.open@[i as int].0@ == uri@ && self.buffer(
                    uri@,
                ) == Some(self.open@[i as int].1@) && forall|k: int|
                    0 <= k < i ==> (#[trigger] self.open@[k]).0@ != uri@,
                None => self.buffer(uri@) is None && forall|k: int|
                    0 <= k < self.open@.len() ==> (#[trigger] self.open@[k]).0@ != uri@,
            },
    {
        let mut i: usize = 0;
        while i < self.open.len()
            invariant
                i <= self.open@.len(),
                text_from(self.pairs(), uri@, 0) == text_from(self.pairs(), uri@, i as int),
                forall|k: int| 0 <= k < i ==> (#[trigger] self.open@[k]).0@ != uri@,
            decreases self.open@.len() - i,
        {
            assert(self.pairs()[i as int] == (
                self.open@[i as int].0@,
                self.open@[i as int].1@,
            ));
            if text::same(self.open[i].0.as_str(), uri) {
                return Some(i);
            }
            i += 1;
        }
        None
    }

    /// Takes note of the text of a document, in place of one it had.
    pub fn set(&mut self, uri: &str, text: String)
        ensures
            forall|u: Seq<char>| #[trigger]
                final(self).buffer(u) == (if u == uri@ {
                    Some(text@)
                } else {
                    old(self).buffer(u)
                }),
    {
        self.remove(uri);
        let ghost before = self.pairs();
        let ghost gone = *self;
        let ghost added = (uri@, text@);
        self.open.push((uri.to_owned(), text));
        proof {
            assert(self.pairs() =~= before.push(added));
            assert forall|u: Seq<char>| #[trigger]
                self.buffer(u) == (if u == uri@ {
                    Some(added.1)
                } else {
                    old(self).buffer(u)
                }) by {
                text_from_push(before, added, u, 0);
                assert(gone.buffer(u) == text_from(before, u, 0));
            }
        }
    }

    /// Forgets a document that was closed. From here on its text is what is on
    /// disk.
    pub fn remove(&mut self, uri: &str)
        ensures
            forall|u: Seq<char>| #[trigger]
                final(self).buffer(u) == (if u == uri@ {
                    None
                } else {
                    old(self).buffer(u)
                }),
    {
        let ghost all = self.pairs();
        let mut kept: Vec<(String, String)> = Vec::new();
        let mut i: usize = 0;
        assert(all.take(0) =~= Seq::empty());
        while i < self.open.len()
            invariant
                i <= self.open@.len(),
                all == self.pairs(),
                forall|u: Seq<char>| #[trigger]
                    text_from(crate::pathmap::pairs_view(kept@), u, 0) == (if u == uri@ {
                        None
                    } else {
                        text_from(all.take(i as int), u, 0)
                    }),
            decreases self.open@.len() - i,
        {
            assert(all[i as int] == (self.open@[i as int].0@, self.open@[i as int].1@));
            let ghost before = crate::pathmap::pairs_view(kept@);
            let ghost here = all[i as int];
            assert(all.take(i + 1) =~= all.take(i as int).push(here));
            if !text::same(self.open[i].0.as_str(), uri) {
                kept.push((self.open[i].0.clone(), self.open[i].1.clone()));
                assert(crate::pathmap::pairs_view(kept@) =~= before.push(here));
                assert forall|u: Seq<char>| #[trigger]
                    text_from(crate::pathmap::pairs_view(kept@), u, 0) == (if u == uri@ {
                        None
                    } else {
                        text_from(all.take(i + 1), u, 0)
                    }) by {
                    text_from_push(before, here, u, 0);
                    text_from_push(all.take(i as int), here, u, 0);
                }
            } else {
                assert forall|u: Seq<char>| #[trigger]
                    text_from(crate::pathmap::pairs_view(kept@), u, 0) == (if u == uri@ {
                        None
                    } else {
                        text_from(all.take(i + 1), u, 0)
                    }) by {
                    text_from_push(all.take(i as int), here, u, 0);
                }
            }
            i += 1;
        }
        assert(all.take(all.len() as int) =~= all);
        self.open = kept;
    }

    /// Makes sure that a document does not differ from its file. `on_disk` is
    /// the text of the file. A document that is not known, and a file that
    /// cannot be read, are no objection.
    pub fn check_saved(&self, uri: &str, path: &str, on_disk: Option<&str>) -> (r: Result<
        (),
        String,
    >)
        ensures
            ({
                let differs = self.buffer(uri@) is Some && on_disk is Some && self.buffer(
                    uri@,
                )->Some_0 != on_disk->Some_0@;
                match r {
                    Ok(_) => !differs,
                    Err(m) => differs && m@ == unsaved_message(path@),
                }
            }),
    {
        match self.find(uri) {
            Some(i) => if let Some(t) = on_disk {
                if !text::same(self.open[i].1.as_str(), t) {
                    return Err(
                        text::cat3(
                            "`",
                            path,
                            "` has unsaved changes. Henka resolves coordinates against the file on disk, so the request would act on a different position than the one in the buffer. Save the file and retry.",
                        ),
                    );
                }
            },
            None => {},
        }
        Ok(())
    }
}

} // verus!
