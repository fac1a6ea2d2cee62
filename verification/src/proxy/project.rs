//! The id of the project that a folder is.
//!
//! A project is registered under a slug of the name of its directory, so the
//! folder that an editor opens tells the id that it most likely has. It may
//! have been registered under any other.

use crate::path;
use crate::text;
use crate::view;
use vstd::prelude::*;

verus! {

/// A character that a slug keeps.
pub open spec fn slug_char(c: char) -> bool {
    ('a' as int <= c as int <= 'z' as int) || ('0' as int <= c as int <= '9' as int)
}

/// A text with a dash for every character that a slug does not keep.
pub open spec fn dashed(s: Seq<char>) -> Seq<char> {
    Seq::new(
        s.len(),
        |i: int|
            if slug_char(s[i]) {
                s[i]
            } else {
                '-'
            },
    )
}

/// A text without the dashes it starts with.
pub open spec fn undash_front(s: Seq<char>) -> Seq<char>
    decreases s.len(),
{
    if s.len() > 0 && s.first() == '-' {
        undash_front(s.skip(1))
    } else {
        s
    }
}

/// A text without the dashes it ends with.
pub open spec fn undash_back(s: Seq<char>) -> Seq<char>
    decreases s.len(),
{
    if s.len() > 0 && s.last() == '-' {
        undash_back(s.drop_last())
    } else {
        s
    }
}

/// The slug of a name in lower case: what it keeps, dashes between, none at the
/// ends. Runs of dashes stay. A name of which nothing is left is `project`.
pub open spec fn slug_of(lowered: Seq<char>) -> Seq<char> {
    let slug = undash_back(undash_front(dashed(lowered)));
    if slug.len() == 0 {
        "project"@
    } else {
        slug
    }
}

fn keeps(c: char) -> (r: bool)
    ensures
        r == slug_char(c),
{
    ('a' <= c && c <= 'z') || ('0' <= c && c <= '9')
}

/// The slug of a name that is in lower case.
pub fn slugify_lowered(lowered: &str) -> (r: String)
    ensures
        r@ == slug_of(lowered@),
{
    let cs = text::chars_of(lowered);
    let mut out: Vec<char> = Vec::new();
    let mut i: usize = 0;
    while i < cs.len()
        invariant
            i <= cs@.len(),
            cs@ == lowered@,
            out@.len() == i,
            forall|k: int| 0 <= k < i ==> #[trigger] out@[k] == dashed(lowered@)[k],
        decreases cs@.len() - i,
    {
        if keeps(cs[i]) {
            out.push(cs[i]);
        } else {
            out.push('-');
        }
        i += 1;
    }
    assert(out@ =~= dashed(lowered@));
    let ghost all = out@;
    let mut from: usize = 0;
    assert(all.skip(0) =~= all);
    while from < out.len() && out[from] == '-'
        invariant
            from <= out@.len(),
            out@ == all,
            undash_front(all) == undash_front(all.skip(from as int)),
        decreases out@.len() - from,
    {
        assert(all.skip(from as int).skip(1) =~= all.skip(from + 1));
        from += 1;
    }
    let ghost front = all.skip(from as int);
    assert(undash_front(all) == front);
    let mut to: usize = out.len();
    assert(all.subrange(from as int, to as int) =~= front);
    while to > from && out[to - 1] == '-'
        invariant
            from <= to <= out@.len(),
            out@ == all,
            undash_back(front) == undash_back(all.subrange(from as int, to as int)),
        decreases to,
    {
        assert(all.subrange(from as int, to as int).drop_last() =~= all.subrange(
            from as int,
            to - 1,
        ));
        to -= 1;
    }
    assert(undash_back(front) == all.subrange(from as int, to as int));
    if from == to {
        "project".to_owned()
    } else {
        text::text_of(&out, from, to)
    }
}

/// The slug of a name.
pub fn slugify(input: &str) -> (r: String)
    ensures
        r@ == slug_of(text::lowercase_of(input@)),
{
    slugify_lowered(text::to_lowercase(input).as_str())
}

/// The id that the project in a folder most likely has.
pub open spec fn likely_id(workspace: Seq<char>) -> Option<Seq<char>> {
    match path::file_name_of(workspace) {
        Some(name) => Some(slug_of(text::lowercase_of(name))),
        None => None,
    }
}

/// The id that the project in a folder most likely has: the slug of the
/// folder's name. Only a folder without a name, such as the root, has none.
pub fn derive_project_id(workspace_path: &str) -> (r: Option<String>)
    ensures
        view::maybe(r) == likely_id(workspace_path@),
{
    match path::file_name(workspace_path) {
        Some(name) => Some(slugify(name.as_str())),
        None => None,
    }
}

/// A project that the remote server knows.
#[derive(Clone, Debug, PartialEq, Eq)]
pub struct RegisteredProject {
    /// Its id.
    pub id: String,
    /// Where it is.
    pub root: String,
}

/// What such a project is.
#[verifier::ext_equal]
pub struct RegisteredProjectView {
    /// Its id.
    pub id: Seq<char>,
    /// Where it is.
    pub root: Seq<char>,
}

impl View for RegisteredProject {
    type V = RegisteredProjectView;

    open spec fn view(&self) -> RegisteredProjectView {
        RegisteredProjectView { id: self.id@, root: self.root@ }
    }
}

/// The place of the first project, from `i` on, that is in a folder.
pub open spec fn rooted_from(
    projects: Seq<RegisteredProjectView>,
    workspace: Seq<char>,
    i: int,
) -> Option<int>
    decreases projects.len() - i,
{
    if i < 0 || i >= projects.len() {
        None
    } else if path::components(projects[i].root) == path::components(workspace) {
        Some(i)
    } else {
        rooted_from(projects, workspace, i + 1)
    }
}

/// Whether an id is among those of some projects.
pub open spec fn is_registered(projects: Seq<RegisteredProjectView>, id: Seq<char>) -> bool {
    exists|i: int| 0 <= i < projects.len() && (#[trigger] projects[i]).id == id
}

/// The id of the project in a folder: that of the project that is there, or
/// else the one that the folder's name implies, where it is registered.
pub open spec fn project_in(
    projects: Seq<RegisteredProjectView>,
    workspace: Seq<char>,
) -> Option<Seq<char>> {
    match rooted_from(projects, workspace, 0) {
        Some(i) => Some(projects[i].id),
        None => match likely_id(workspace) {
            Some(id) => if is_registered(projects, id) {
                Some(id)
            } else {
                None
            },
            None => None,
        },
    }
}

/// The id of the project in a folder.
pub fn resolve_project_id(projects: &Vec<RegisteredProject>, workspace_path: &str) -> (r: Option<
    String,
>)
    ensures
        view::maybe(r) == project_in(view::each(projects@), workspace_path@),
{
    let ghost all = view::each(projects@);
    let mut i: usize = 0;
    while i < projects.len()
        invariant
            i <= projects@.len(),
            all == view::each(projects@),
            rooted_from(all, workspace_path@, 0) == rooted_from(all, workspace_path@, i as int),
        decreases projects@.len() - i,
    {
        assert(all[i as int] == projects@[i as int]@);
        if path::same(projects[i].root.as_str(), workspace_path) {
            return Some(projects[i].id.clone());
        }
        i += 1;
    }
    let id = match derive_project_id(workspace_path) {
        Some(id) => id,
        None => {
            return None;
        },
    };
    let mut k: usize = 0;
    while k < projects.len()
        invariant
            k <= projects@.len(),
            all == view::each(projects@),
            rooted_from(all, workspace_path@, 0) is None,
            likely_id(workspace_path@) == Some(id@),
            forall|m: int| 0 <= m < k ==> (#[trigger] all[m]).id != id@,
        decreases projects@.len() - k,
    {
        assert(all[k as int] == projects@[k as int]@);
        if text::same(projects[k].id.as_str(), id.as_str()) {
            assert(all[k as int].id == id@);
            return Some(id);
        }
        k += 1;
    }
    None
}

// ---------------------------------------------------------------------------
// What slugs promise
// ---------------------------------------------------------------------------

proof fn undash_front_is_suffix(s: Seq<char>)
    ensures
        undash_front(s).len() <= s.len(),
        undash_front(s) == s.skip(s.len() - undash_front(s).len()),
        undash_front(s).len() > 0 ==> undash_front(s).first() != '-',
    decreases s.len(),
{
    if s.len() > 0 && s.first() == '-' {
        undash_front_is_suffix(s.skip(1));
        let n = undash_front(s).len();
        assert(s.skip(1).skip(s.len() - 1 - n) =~= s.skip(s.len() - n));
    } else {
        assert(s.skip(0) =~= s);
    }
}

proof fn undash_back_is_prefix(s: Seq<char>)
    ensures
        undash_back(s).len() <= s.len(),
        undash_back(s) == s.take(undash_back(s).len() as int),
        undash_back(s).len() > 0 ==> undash_back(s).last() != '-',
    decreases s.len(),
{
    if s.len() > 0 && s.last() == '-' {
        undash_back_is_prefix(s.drop_last());
        let n = undash_back(s).len() as int;
        assert(s.drop_last().take(n) =~= s.take(n));
    } else {
        assert(s.take(s.len() as int) =~= s);
    }
}

/// A slug is never empty, holds nothing but lower-case letters, digits and
/// dashes, and has a dash at neither end.
pub proof fn slugs_are_well_formed(lowered: Seq<char>)
    ensures
        slug_of(lowered).len() > 0,
        forall|i: int|
            0 <= i < slug_of(lowered).len() ==> slug_char(#[trigger] slug_of(lowered)[i])
                || slug_of(lowered)[i] == '-',
        slug_of(lowered).first() != '-',
        slug_of(lowered).last() != '-',
{
    reveal_strlit("project");
    let all = dashed(lowered);
    let front = undash_front(all);
    let slug = undash_back(front);
    undash_front_is_suffix(all);
    undash_back_is_prefix(front);
    if slug.len() > 0 {
        assert(slug.first() == front.first());
        assert forall|i: int| 0 <= i < slug.len() implies slug_char(#[trigger] slug[i]) || slug[i]
            == '-' by {
            assert(slug[i] == front[i]);
            assert(front[i] == all[all.len() - front.len() + i]);
        }
    }
}

/// A name that is a slug already is its own slug.
pub proof fn slugs_are_kept(lowered: Seq<char>)
    requires
        lowered.len() > 0,
        forall|i: int|
            0 <= i < lowered.len() ==> slug_char(#[trigger] lowered[i]) || lowered[i] == '-',
        lowered.first() != '-',
        lowered.last() != '-',
    ensures
        slug_of(lowered) == lowered,
{
    assert(dashed(lowered) =~= lowered);
}

} // verus!
