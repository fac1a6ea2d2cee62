//! Paths as callers see them, and as the server sees them.
//!
//! A server in a container sees a caller's tree under another prefix. A path
//! map holds such prefixes in pairs, and turns paths under the one into paths
//! under the other.

use crate::edit;
use crate::path;
use crate::text;
use crate::view;
use vstd::prelude::*;

verus! {

/// Prefixes of paths in pairs: the caller's, and the server's own.
#[derive(Clone, Debug)]
pub struct PathMap {
    entries: Vec<(String, String)>,
}

/// What pairs of texts are.
pub open spec fn pairs_view(s: Seq<(String, String)>) -> Seq<(Seq<char>, Seq<char>)> {
    Seq::new(s.len(), |i: int| (s[i].0@, s[i].1@))
}

impl View for PathMap {
    type V = Seq<(Seq<char>, Seq<char>)>;

    closed spec fn view(&self) -> Seq<(Seq<char>, Seq<char>)> {
        pairs_view(self.entries@)
    }
}

/// The place, among the first `n` pairs, of the one whose first prefix a path
/// lies under most deeply; of several that are as deep, the first.
pub open spec fn deepest(
    entries: Seq<(Seq<char>, Seq<char>)>,
    p: Seq<char>,
    n: int,
) -> Option<int>
    decreases n,
{
    if n <= 0 {
        None
    } else {
        let before = deepest(entries, p, n - 1);
        if !path::under(p, entries[n - 1].0) {
            before
        } else {
            match before {
                Some(k) => if path::components(entries[n - 1].0).len() > path::components(
                    entries[k].0,
                ).len() {
                    Some(n - 1)
                } else {
                    Some(k)
                },
                None => Some(n - 1),
            }
        }
    }
}

/// A path moved from the first prefix of a pair to the second; one under no
/// first prefix stays.
pub open spec fn mapped(entries: Seq<(Seq<char>, Seq<char>)>, p: Seq<char>) -> Seq<char> {
    match deepest(entries, p, entries.len() as int) {
        Some(k) => edit::moved(p, entries[k].0, entries[k].1),
        None => p,
    }
}

/// Pairs turned around.
pub open spec fn turned(entries: Seq<(Seq<char>, Seq<char>)>) -> Seq<(Seq<char>, Seq<char>)> {
    Seq::new(entries.len(), |i: int| (entries[i].1, entries[i].0))
}

/// A path as the caller sees it, if an entry covers it.
pub open spec fn reversed(entries: Seq<(Seq<char>, Seq<char>)>, p: Seq<char>) -> Option<
    Seq<char>,
> {
    match deepest(turned(entries), p, entries.len() as int) {
        Some(k) => Some(edit::moved(p, entries[k].1, entries[k].0)),
        None => None,
    }
}

/// The pairs whose two sides are not blank, trimmed.
pub open spec fn usable(entry: (Seq<char>, Seq<char>)) -> Option<(Seq<char>, Seq<char>)> {
    let (a, b) = (text::trimmed(entry.0), text::trimmed(entry.1));
    if a.len() == 0 || b.len() == 0 {
        None
    } else {
        Some((a, b))
    }
}

/// The usable ones of some pairs.
pub open spec fn usable_entries(entries: Seq<(Seq<char>, Seq<char>)>) -> Seq<
    (Seq<char>, Seq<char>),
> {
    view::kept(Seq::new(entries.len(), |i: int| usable(entries[i])))
}

/// The pair that a text gives: its sides are parted by the first equals sign.
pub open spec fn parsed(spec_text: Seq<char>) -> Seq<(Seq<char>, Seq<char>)> {
    let at = text::next_of(spec_text, '=', 0);
    if at >= spec_text.len() {
        Seq::empty()
    } else {
        usable_entries(seq![(spec_text.take(at), spec_text.skip(at + 1))])
    }
}

impl PathMap {
    /// A map with no pairs.
    pub fn empty() -> (r: PathMap)
        ensures
            r@ == Seq::<(Seq<char>, Seq<char>)>::empty(),
    {
        let r = PathMap { entries: Vec::new() };
        assert(r@ =~= Seq::empty());
        r
    }

    /// A map of pairs of prefixes, the caller's first. A pair with a blank side
    /// is left out.
    pub fn from_entries(entries: &Vec<(String, String)>) -> (r: PathMap)
        ensures
            r@ == usable_entries(pairs_view(entries@)),
    {
        let ghost all = pairs_view(entries@);
        let ghost wanted = Seq::new(all.len(), |i: int| usable(all[i]));
        let mut out: Vec<(String, String)> = Vec::new();
        let mut i: usize = 0;
        assert(pairs_view(out@) =~= view::kept(wanted.take(0)));
        while i < entries.len()
            invariant
                i <= entries@.len(),
                all == pairs_view(entries@),
                wanted == Seq::new(all.len(), |i: int| usable(all[i])),
                pairs_view(out@) == view::kept(wanted.take(i as int)),
            decreases entries@.len() - i,
        {
            let a = text::trim(entries[i].0.as_str());
            let b = text::trim(entries[i].1.as_str());
            assert(all[i as int] == (entries@[i as int].0@, entries@[i as int].1@));
            proof {
                view::kept_step(wanted, i as int);
            }
            if !text::is_empty(a.as_str()) && !text::is_empty(b.as_str()) {
                let ghost done = out@;
                let ghost next = (a@, b@);
                out.push((a, b));
                assert(pairs_view(out@) =~= pairs_view(done).push(next));
            }
            i += 1;
        }
        assert(wanted.take(all.len() as int) =~= wanted);
        PathMap { entries: out }
    }

    /// The map that a text gives: one pair, `caller=server`.
    pub fn parse(spec_text: &str) -> (r: PathMap)
        ensures
            r@ == parsed(spec_text@),
    {
        let cs = text::chars_of(spec_text);
        let at = text::find_next(&cs, '=', 0);
        if at == cs.len() {
            return PathMap::empty();
        }
        let a = text::text_of(&cs, 0, at);
        let b = text::text_of(&cs, at + 1, cs.len());
        assert(a@ =~= spec_text@.take(at as int));
        assert(b@ =~= spec_text@.skip(at + 1));
        let mut one: Vec<(String, String)> = Vec::new();
        let ghost pair = (a@, b@);
        one.push((a, b));
        assert(pairs_view(one@) =~= seq![pair]);
        PathMap::from_entries(&one)
    }

    /// Whether the map has no pairs.
    pub fn is_empty(&self) -> (r: bool)
        ensures
            r == (self@.len() == 0),
    {
        self.entries.len() == 0
    }

    /// A caller's path as the server sees it.
    pub fn map(&self, p: &str) -> (r: String)
        ensures
            r@ == mapped(self@, p@),
    {
        match deepest_prefix(&self.entries, p, false) {
            Some(k) => {
                assert(self@[k as int] == (self.entries@[k as int].0@, self.entries@[k as int].1@));
                edit::retarget_path(p, self.entries[k].0.as_str(), self.entries[k].1.as_str())
            },
            None => p.to_owned(),
        }
    }

    /// A path of the server as the caller sees it, if it lies under a pair.
    pub fn reverse(&self, p: &str) -> (r: Option<String>)
        ensures
            view::maybe(r) == reversed(self@, p@),
    {
        match deepest_prefix(&self.entries, p, true) {
            Some(k) => {
                assert(self@[k as int] == (self.entries@[k as int].0@, self.entries@[k as int].1@));
                Some(
                    edit::retarget_path(p, self.entries[k].1.as_str(), self.entries[k].0.as_str()),
                )
            },
            None => None,
        }
    }

    /// The server's own prefixes, in order.
    pub fn container_prefixes(&self) -> (r: Vec<String>)
        ensures
            view::each(r@) == Seq::new(self@.len(), |i: int| self@[i].1),
    {
        let mut out: Vec<String> = Vec::new();
        let mut i: usize = 0;
        while i < self.entries.len()
            invariant
                i <= self.entries@.len(),
                out@.len() == i,
                forall|k: int| 0 <= k < i ==> (#[trigger] out@[k])@ == self.entries@[k].1@,
            decreases self.entries@.len() - i,
        {
            out.push(self.entries[i].1.clone());
            i += 1;
        }
        assert(view::each(out@) =~= Seq::new(self@.len(), |i: int| self@[i].1));
        out
    }
}

/// Pairs, turned around or not.
spec fn sides(entries: Seq<(String, String)>, turn: bool) -> Seq<(Seq<char>, Seq<char>)> {
    if turn {
        turned(pairs_view(entries))
    } else {
        pairs_view(entries)
    }
}

/// The place of the pair whose prefix a path lies under most deeply.
fn deepest_prefix(entries: &Vec<(String, String)>, p: &str, turn: bool) -> (r: Option<usize>)
    ensures
        match r {
            Some(k) => k < entries@.len() && deepest(
                sides(entries@, turn),
                p@,
                entries@.len() as int,
            ) == Some(k as int),
            None => deepest(sides(entries@, turn), p@, entries@.len() as int) is None,
        },
{
    let ghost all = sides(entries@, turn);
    let mut best: Option<usize> = None;
    let mut depth: usize = 0;
    let mut i: usize = 0;
    while i < entries.len()
        invariant
            i <= entries@.len(),
            all == sides(entries@, turn),
            match best {
                Some(k) => k < i && deepest(all, p@, i as int) == Some(k as int) && depth
                    == path::components(all[k as int].0).len(),
                None => deepest(all, p@, i as int) is None,
            },
        decreases entries@.len() - i,
    {
        let prefix = if turn {
            entries[i].1.as_str()
        } else {
            entries[i].0.as_str()
        };
        assert(all[i as int].0 == prefix@);
        if path::starts_with(p, prefix) {
            let here = path::component_texts(prefix).len();
            let deeper = match best {
                Some(_) => here > depth,
                None => true,
            };
            if deeper {
                best = Some(i);
                depth = here;
            }
        }
        i += 1;
    }
    best
}

/// A path under no prefix of a map stays as it is.
pub proof fn unmapped_paths_stay(entries: Seq<(Seq<char>, Seq<char>)>, p: Seq<char>)
    requires
        forall|i: int| 0 <= i < entries.len() ==> !path::under(p, (#[trigger] entries[i]).0),
    ensures
        mapped(entries, p) == p,
{
    nothing_deepest(entries, p, entries.len() as int);
}

proof fn nothing_deepest(entries: Seq<(Seq<char>, Seq<char>)>, p: Seq<char>, n: int)
    requires
        n <= entries.len(),
        forall|i: int| 0 <= i < entries.len() ==> !path::under(p, (#[trigger] entries[i]).0),
    ensures
        deepest(entries, p, n) is None,
    decreases n,
{
    if n > 0 {
        assert(!path::under(p, entries[n - 1].0));
        nothing_deepest(entries, p, n - 1);
    }
}

/// With one pair, a path under the caller's prefix that is mapped and turned
/// back has the components it had.
pub proof fn mapping_there_and_back(caller: Seq<char>, server: Seq<char>, p: Seq<char>)
    requires
        path::components(caller).len() > 0,
        path::components(server).len() > 0,
        path::under(p, caller),
    ensures
        ({
            let there = mapped(seq![(caller, server)], p);
            let back = mapped(turned(seq![(caller, server)]), there);
            path::components(back) == path::components(p)
        }),
{
    let entries = seq![(caller, server)];
    let there = mapped(entries, p);
    reveal_with_fuel(deepest, 2);
    assert(there == edit::moved(p, caller, server));
    edit::moved_keeps_relative_components(p, caller, server);
    assert(turned(entries)[0] == (server, caller));
    assert(mapped(turned(entries), there) == edit::moved(there, server, caller));
    edit::moved_there_and_back(p, caller, server);
}

} // verus!
