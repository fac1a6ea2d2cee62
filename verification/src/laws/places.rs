//! Places: paths as the caller and the server see them, and the working copies
//! that requests act in.

use crate::edit;
use crate::error::ErrorKind;
use crate::error::ErrorView;
use crate::json::JsonView;
use crate::laws::edits;
use crate::mcp;
use crate::operation::TargetView;
use crate::path;
use crate::pathmap;
use crate::protocol;
use crate::protocol::McpErrorKind;
use crate::text;
use crate::workspace;
use vstd::prelude::*;

verus! {

// ---------------------------------------------------------------------------
// The map of paths
// ---------------------------------------------------------------------------

/// Whether an entry of a path map is the one that counts for a path: its prefix
/// covers the path, no longer one does, and no earlier one of the same length.
pub open spec fn counts_for(entries: Seq<(Seq<char>, Seq<char>)>, p: Seq<char>, k: int) -> bool {
    &&& 0 <= k < entries.len()
    &&& path::under(p, entries[k].0)
    &&& forall|i: int|
        0 <= i < entries.len() && path::under(p, (#[trigger] entries[i]).0) ==> path::components(
            entries[i].0,
        ).len() <= path::components(entries[k].0).len()
    &&& forall|i: int|
        0 <= i < k && path::under(p, (#[trigger] entries[i]).0) ==> path::components(
            entries[i].0,
        ).len() < path::components(entries[k].0).len()
}

proof fn deepest_counts(entries: Seq<(Seq<char>, Seq<char>)>, p: Seq<char>, n: int)
    requires
        0 <= n <= entries.len(),
    ensures
        match pathmap::deepest(entries, p, n) {
            Some(k) => counts_for(entries.take(n), p, k),
            None => forall|i: int|
                0 <= i < n ==> !path::under(p, (#[trigger] entries[i]).0),
        },
    decreases n,
{
    if n > 0 {
        deepest_counts(entries, p, n - 1);
        let less = entries.take(n - 1);
        let some = entries.take(n);
        assert forall|i: int| 0 <= i < n - 1 implies some[i] == less[i] by {}
        assert(some[n - 1] == entries[n - 1]);
        if let Some(k) = pathmap::deepest(entries, p, n - 1) {
            assert(less[k] == some[k]);
            assert forall|i: int|
                0 <= i < n - 1 && path::under(p, (#[trigger] some[i]).0) implies path::components(
                some[i].0,
            ).len() <= path::components(some[k].0).len() by {
                assert(less[i] == some[i]);
            }
            assert forall|i: int|
                0 <= i < k && path::under(p, (#[trigger] some[i]).0) implies path::components(
                some[i].0,
            ).len() < path::components(some[k].0).len() by {
                assert(less[i] == some[i]);
            }
        } else {
            assert forall|i: int| 0 <= i < n - 1 implies !path::under(p, (#[trigger] some[i]).0) by {
                assert(entries[i] == some[i]);
            }
        }
    }
}

/// A path is mapped by the longest prefix that covers it, and keeps what follows
/// the prefix. A path that none covers stays.
pub proof fn the_longest_prefix_maps(entries: Seq<(Seq<char>, Seq<char>)>, p: Seq<char>)
    requires
        forall|i: int|
            0 <= i < entries.len() ==> path::components((#[trigger] entries[i]).0).len() > 0,
    ensures
        (exists|k: int|
            counts_for(entries, p, k) && edits::ends_up(
                p,
                (#[trigger] entries[k]).0,
                entries[k].1,
                pathmap::mapped(entries, p),
            )) || (pathmap::mapped(entries, p) == p && forall|i: int|
            0 <= i < entries.len() ==> !path::under(p, (#[trigger] entries[i]).0)),
{
    deepest_counts(entries, p, entries.len() as int);
    assert(entries.take(entries.len() as int) =~= entries);
    if let Some(k) = pathmap::deepest(entries, p, entries.len() as int) {
        edit::moved_keeps_relative_components(p, entries[k].0, entries[k].1);
        assert(counts_for(entries, p, k) && edits::ends_up(
            p,
            entries[k].0,
            entries[k].1,
            pathmap::mapped(entries, p),
        ));
    }
}

/// A path is told to the caller by the longest prefix of the server that covers
/// it, and not at all where none does.
pub proof fn the_longest_prefix_maps_back(entries: Seq<(Seq<char>, Seq<char>)>, p: Seq<char>)
    requires
        forall|i: int|
            0 <= i < entries.len() ==> path::components((#[trigger] entries[i]).1).len() > 0,
    ensures
        match pathmap::reversed(entries, p) {
            Some(back) => exists|k: int|
                0 <= k < entries.len() && path::under(p, (#[trigger] entries[k]).1)
                    && edits::ends_up(p, entries[k].1, entries[k].0, back) && forall|i: int|
                    0 <= i < entries.len() && path::under(p, (#[trigger] entries[i]).1)
                        ==> path::components(entries[i].1).len() <= path::components(
                        entries[k].1,
                    ).len(),
            None => forall|i: int|
                0 <= i < entries.len() ==> !path::under(p, (#[trigger] entries[i]).1),
        },
{
    let turned = pathmap::turned(entries);
    deepest_counts(turned, p, entries.len() as int);
    assert(turned.take(entries.len() as int) =~= turned);
    assert forall|i: int| 0 <= i < entries.len() implies (#[trigger] entries[i]).1 == turned[i].0
        && entries[i].0 == turned[i].1 by {}
    if let Some(k) = pathmap::deepest(turned, p, entries.len() as int) {
        edit::moved_keeps_relative_components(p, entries[k].1, entries[k].0);
        let back = pathmap::reversed(entries, p)->Some_0;
        assert(entries[k].1 == turned[k].0);
        assert(edits::ends_up(p, entries[k].1, entries[k].0, back));
        assert forall|i: int|
            0 <= i < entries.len() && path::under(
                p,
                (#[trigger] entries[i]).1,
            ) implies path::components(entries[i].1).len() <= path::components(
            entries[k].1,
        ).len() by {
            assert(turned[i].0 == entries[i].1);
        }
    } else {
        assert forall|i: int| 0 <= i < entries.len() implies !path::under(
            p,
            (#[trigger] entries[i]).1,
        ) by {
            assert(turned[i].0 == entries[i].1);
        }
    }
}

/// An entry of a path map counts where neither side is blank, with the space
/// around both sides taken off.
pub proof fn blank_entries_do_not_count(
    entries: Seq<(Seq<char>, Seq<char>)>,
    more: (Seq<char>, Seq<char>),
)
    ensures
        ({
            let before = pathmap::usable_entries(entries);
            let after = pathmap::usable_entries(entries.push(more));
            let blank = text::is_blank(more.0) || text::is_blank(more.1);
            &&& blank ==> after == before
            &&& !blank ==> after == before.push((text::trimmed(more.0), text::trimmed(more.1)))
        }),
        pathmap::usable_entries(Seq::empty()).len() == 0,
{
    text::trimmed_empty_iff_blank(more.0);
    text::trimmed_empty_iff_blank(more.1);
    let all = entries.push(more);
    let a = Seq::new(entries.len(), |i: int| pathmap::usable(entries[i]));
    let b = Seq::new(all.len(), |i: int| pathmap::usable(all[i]));
    assert(b.drop_last() =~= a);
    assert(b.last() == pathmap::usable(more));
}

/// A mapping is written as what the caller sees, an equals sign, and what the
/// server sees.
pub proof fn mappings_are_read_around_the_equals_sign(caller: Seq<char>, server: Seq<char>)
    requires
        forall|i: int| 0 <= i < caller.len() ==> caller[i] != '=',
    ensures
        pathmap::parsed(caller.push('=') + server) == pathmap::usable_entries(
            seq![(caller, server)],
        ),
        pathmap::parsed(caller).len() == 0,
{
    let all = caller.push('=') + server;
    let n = caller.len() as int;
    sign_at(caller, 0, n);
    assert forall|k: int| 0 <= k < n implies all[k] != '=' by {
        assert(all[k] == caller[k]);
    }
    assert(all[n] == '=');
    sign_at(all, 0, n);
    assert(all.take(n) =~= caller);
    assert(all.skip(n + 1) =~= server);
}

proof fn sign_at(s: Seq<char>, i: int, j: int)
    requires
        0 <= i <= j <= s.len(),
        forall|k: int| i <= k < j ==> s[k] != '=',
        j < s.len() ==> s[j] == '=',
    ensures
        text::next_of(s, '=', i) == j,
    decreases j - i,
{
    if i < j {
        sign_at(s, i + 1, j);
    }
}

/// A target keeps its position or selection when its file is mapped; only an
/// absolute file is.
pub proof fn targets_keep_their_place(entries: Seq<(Seq<char>, Seq<char>)>, target: TargetView)
    ensures
        ({
            let after = workspace::target_mapped(entries, target);
            &&& target is Position ==> after is Position && after->Position_position
                == target->Position_position
            &&& target is Selection ==> after is Selection && after->Selection_range
                == target->Selection_range
            &&& target is File ==> after is File
            &&& target is Project ==> after is Project
            &&& target.file() is Some && path::is_rooted(target.file()->Some_0) ==> after.file()
                == Some(pathmap::mapped(entries, target.file()->Some_0))
            &&& target.file() is Some && !path::is_rooted(target.file()->Some_0) ==> after
                == target
        }),
{
}

// ---------------------------------------------------------------------------
// Working copies
// ---------------------------------------------------------------------------

/// A file belongs to the nearest directory above it that is marked as a working
/// copy.
pub proof fn the_nearest_marked_directory_counts(
    dirs: Seq<Seq<char>>,
    marked: Seq<bool>,
    i: int,
)
    requires
        0 <= i <= dirs.len(),
        dirs.len() == marked.len(),
    ensures
        match workspace::first_marked(dirs, marked, i) {
            Some(dir) => exists|k: int|
                i <= k < dirs.len() && dir == #[trigger] dirs[k] && marked[k] && forall|m: int|
                    i <= m < k ==> !#[trigger] marked[m],
            None => forall|m: int| i <= m < dirs.len() ==> !#[trigger] marked[m],
        },
    decreases dirs.len() - i,
{
    if i < dirs.len() {
        if marked[i] {
            assert(dirs[i] == workspace::first_marked(dirs, marked, i)->Some_0);
        } else {
            the_nearest_marked_directory_counts(dirs, marked, i + 1);
        }
    }
}

/// A request acts in the working copy that it names, as the server sees it; else
/// in the one that holds its absolute file; else at the root of the project.
pub proof fn requests_act_where_they_say(
    named: Option<Seq<char>>,
    target: TargetView,
    project_root: Seq<char>,
    entries: Seq<(Seq<char>, Seq<char>)>,
    containing: Option<Seq<char>>,
)
    ensures
        ({
            let at = workspace::acting_in(named, target, project_root, entries, containing);
            let absolute = target.file() is Some && path::is_rooted(target.file()->Some_0);
            &&& named is Some ==> at == pathmap::mapped(entries, named->Some_0)
            &&& named is None && absolute && containing is Some ==> at == containing->Some_0
            &&& named is None && !(absolute && containing is Some) ==> at == project_root
        }),
{
}

/// Two checkouts belong together where they share a repository. Without version
/// control only the same directory does.
pub proof fn checkouts_share_a_repository(
    a: Option<Seq<char>>,
    b: Option<Seq<char>>,
    workspace: Seq<char>,
    project_root: Seq<char>,
)
    ensures
        a is Some && b is Some ==> (workspace::same_repository(a, b, workspace, project_root)
            <==> a == b),
        a is Some != b is Some ==> !workspace::same_repository(a, b, workspace, project_root),
        a is None && b is None ==> (workspace::same_repository(a, b, workspace, project_root)
            <==> path::under(workspace, project_root) && path::under(project_root, workspace)),
        workspace::same_repository(a, b, workspace, project_root) == workspace::same_repository(
            b,
            a,
            project_root,
            workspace,
        ),
{
    let x = path::components(workspace);
    let y = path::components(project_root);
    if y.is_prefix_of(x) && x.is_prefix_of(y) {
        assert(x =~= y);
    }
    if x == y {
        assert(x.subrange(0, x.len() as int) =~= x);
    }
}

/// What stands at a target has to be exactly what the caller expects there, if
/// the target is a place in a file and anything is expected.
pub proof fn expectations_are_exact(
    expected: Option<Seq<char>>,
    target: TargetView,
    found: Option<Seq<char>>,
)
    ensures
        expected is None ==> !workspace::is_mismatch(expected, target, found),
        target is File || target is Project ==> !workspace::is_mismatch(expected, target, found),
        expected is Some && (target is Position || target is Selection) ==> (
        workspace::is_mismatch(expected, target, found) <==> found is None || found->Some_0
            != expected->Some_0),
{
}

/// An edit is moved to the working copy where the session has a checkout of its
/// own, and left as it is where it has none.
pub proof fn edits_move_with_their_session(
    e: edit::WorkspaceEditView,
    root: Seq<char>,
    workspace: Seq<char>,
)
    ensures
        workspace::edit_for(e, None, workspace) == e,
        workspace::edit_for(e, Some(root), workspace) == edit::edit_moved(e, root, workspace),
{
}

/// A path is refused where it is absolute and leads out of the working copy, and
/// an edit where any of its paths is.
pub proof fn one_path_outside_refuses_the_edit(
    e: edit::WorkspaceEditView,
    workspace: Seq<char>,
    i: int,
)
    ensures
        0 <= i < e.files.len() && path::is_rooted(e.files[i].path) && !path::within(
            e.files[i].path,
            workspace,
        ) ==> !workspace::edit_admissible(e, workspace),
        0 <= i < e.file_ops.len() && e.file_ops[i] is Rename && path::is_rooted(
            e.file_ops[i]->Rename_to,
        ) && !path::within(e.file_ops[i]->Rename_to, workspace) ==> !workspace::edit_admissible(
            e,
            workspace,
        ),
        0 <= i < e.file_ops.len() && e.file_ops[i] is Rename && path::is_rooted(
            e.file_ops[i]->Rename_from,
        ) && !path::within(e.file_ops[i]->Rename_from, workspace) ==> !workspace::edit_admissible(
            e,
            workspace,
        ),
        0 <= i < e.file_ops.len() && e.file_ops[i] is Create && path::is_rooted(
            e.file_ops[i]->Create_path,
        ) && !path::within(e.file_ops[i]->Create_path, workspace) ==> !workspace::edit_admissible(
            e,
            workspace,
        ),
        0 <= i < e.file_ops.len() && e.file_ops[i] is Delete && path::is_rooted(
            e.file_ops[i]->Delete_path,
        ) && !path::within(e.file_ops[i]->Delete_path, workspace) ==> !workspace::edit_admissible(
            e,
            workspace,
        ),
{
}

// ---------------------------------------------------------------------------
// Directories that hold projects
// ---------------------------------------------------------------------------

/// Directories are listed with separators between them: each that is not blank
/// counts, with the space around it taken off, in the order of the list.
pub proof fn directories_are_listed_in_order(dir: Seq<char>, separator: char, rest: Seq<char>)
    requires
        separator == ',' || separator == ';' || separator == '\n',
        forall|i: int|
            0 <= i < dir.len() ==> dir[i] != ',' && dir[i] != ';' && dir[i] != '\n',
    ensures
        text::is_blank(dir) ==> workspace::listed_from(dir.push(separator) + rest, 0)
            == workspace::listed_from(rest, 0),
        !text::is_blank(dir) ==> workspace::listed_from(dir.push(separator) + rest, 0) == seq![
            text::trimmed(dir),
        ] + workspace::listed_from(rest, 0),
        !text::is_blank(dir) ==> workspace::listed_from(dir, 0) == seq![text::trimmed(dir)],
        text::is_blank(dir) ==> workspace::listed_from(dir, 0).len() == 0,
{
    text::trimmed_empty_iff_blank(dir);
    let all = dir.push(separator) + rest;
    let n = dir.len() as int;
    separated_at(dir, 0, n);
    assert(dir.subrange(0, n) =~= dir);
    assert forall|k: int| 0 <= k < n implies !workspace::parts_list(all[k]) by {
        assert(all[k] == dir[k]);
    }
    assert(all[n] == separator);
    separated_at(all, 0, n);
    assert(all.subrange(0, n) =~= dir);
    listed_after(dir.push(separator), rest, 0);
    let none: Seq<Seq<char>> = Seq::empty();
    assert(none + workspace::listed_from(rest, 0) =~= workspace::listed_from(rest, 0));
}

proof fn separated_at(s: Seq<char>, i: int, j: int)
    requires
        0 <= i <= j <= s.len(),
        forall|k: int| i <= k < j ==> !workspace::parts_list(#[trigger] s[k]),
        j < s.len() ==> workspace::parts_list(s[j]),
    ensures
        workspace::next_separator(s, i) == j,
    decreases j - i,
{
    if i < j {
        assert(!workspace::parts_list(s[i]));
        separated_at(s, i + 1, j);
    }
}

proof fn separator_after(x: Seq<char>, y: Seq<char>, k: int)
    requires
        0 <= k <= y.len(),
    ensures
        workspace::next_separator(x + y, x.len() + k) == x.len() + workspace::next_separator(y, k),
    decreases y.len() - k,
{
    if k < y.len() {
        assert((x + y)[x.len() + k] == y[k]);
        if !workspace::parts_list(y[k]) {
            separator_after(x, y, k + 1);
        }
    }
}

proof fn listed_after(x: Seq<char>, y: Seq<char>, k: int)
    requires
        0 <= k <= y.len(),
    ensures
        workspace::listed_from(x + y, x.len() + k) == workspace::listed_from(y, k),
    decreases y.len() - k,
{
    separator_after(x, y, k);
    workspace::next_separator_bounds(y, k);
    let j = workspace::next_separator(y, k);
    assert((x + y).subrange(x.len() + k, x.len() + j) =~= y.subrange(k, j));
    if j < y.len() {
        listed_after(x, y, j + 1);
    }
}

/// A candidate stays where it passes the test, in order.
pub proof fn what_passes_stays_in_order(
    all: Seq<Seq<char>>,
    holds: Seq<bool>,
    more: Seq<char>,
    passes: bool,
)
    requires
        all.len() == holds.len(),
    ensures
        workspace::where_true(all.push(more), holds.push(passes)) == (if passes {
            workspace::where_true(all, holds).push(more)
        } else {
            workspace::where_true(all, holds)
        }),
        workspace::where_true(Seq::empty(), Seq::empty()).len() == 0,
{
    let a = Seq::new(
        all.len(),
        |i: int|
            if i < holds.len() && holds[i] {
                Some(all[i])
            } else {
                None
            },
    );
    let more_all = all.push(more);
    let more_holds = holds.push(passes);
    let b = Seq::new(
        more_all.len(),
        |i: int|
            if i < more_holds.len() && more_holds[i] {
                Some(more_all[i])
            } else {
                None
            },
    );
    assert(b.drop_last() =~= a);
}

/// Putting paths in order makes none up.
pub proof fn ordering_makes_up_no_path(all: Seq<Seq<char>>, k: int)
    requires
        0 <= k < path::in_order(all).len(),
    ensures
        all.contains(path::in_order(all)[k]),
    decreases all.len(),
{
    let front = all.drop_last();
    let known = path::in_order(front);
    let p = path::in_order(all)[k];
    placing_keeps_every_path(known, all.last());
    if known.contains(p) {
        let m = choose|m: int| 0 <= m < known.len() && known[m] == p;
        ordering_makes_up_no_path(front, m);
        let i = choose|i: int| 0 <= i < front.len() && front[i] == p;
        assert(all[i] == p);
    } else {
        assert(all[all.len() - 1] == p);
    }
}

/// Putting paths in order loses none.
pub proof fn ordering_loses_no_path(all: Seq<Seq<char>>, i: int)
    requires
        0 <= i < all.len(),
    ensures
        exists|k: int|
            0 <= k < path::in_order(all).len() && path::components(
                #[trigger] path::in_order(all)[k],
            ) == path::components(all[i]),
    decreases all.len(),
{
    let front = all.drop_last();
    let known = path::in_order(front);
    let after = path::in_order(all);
    placing_keeps_every_path(known, all.last());
    if i < front.len() {
        ordering_loses_no_path(front, i);
        let m = choose|m: int|
            0 <= m < known.len() && path::components(#[trigger] known[m]) == path::components(
                front[i],
            );
        assert(after.contains(known[m]));
        let k = choose|k: int| 0 <= k < after.len() && after[k] == known[m];
        assert(path::components(after[k]) == path::components(all[i]));
    }
}

proof fn placing_keeps_every_path(list: Seq<Seq<char>>, p: Seq<char>)
    ensures
        forall|k: int|
            0 <= k < path::placed(list, p).len() ==> list.contains(
                #[trigger] path::placed(list, p)[k],
            ) || path::placed(list, p)[k] == p,
        forall|k: int| 0 <= k < list.len() ==> path::placed(list, p).contains(#[trigger] list[k]),
        exists|k: int|
            0 <= k < path::placed(list, p).len() && path::components(
                #[trigger] path::placed(list, p)[k],
            ) == path::components(p),
    decreases list.len(),
{
    let after = path::placed(list, p);
    if list.len() == 0 {
        assert(after[0] == p);
    } else if path::components_before(path::components(list[0]), path::components(p)) {
        let rest = list.skip(1);
        placing_keeps_every_path(rest, p);
        let inner = path::placed(rest, p);
        assert(after =~= seq![list[0]] + inner);
        assert forall|k: int| 0 <= k < after.len() implies list.contains(#[trigger] after[k])
            || after[k] == p by {
            if k == 0 {
                assert(list[0] == after[0]);
            } else {
                assert(after[k] == inner[k - 1]);
                if rest.contains(inner[k - 1]) {
                    let m = choose|m: int| 0 <= m < rest.len() && rest[m] == inner[k - 1];
                    assert(list[m + 1] == inner[k - 1]);
                }
            }
        }
        assert forall|k: int| 0 <= k < list.len() implies after.contains(#[trigger] list[k]) by {
            if k == 0 {
                assert(after[0] == list[0]);
            } else {
                assert(rest[k - 1] == list[k]);
                let m = choose|m: int| 0 <= m < inner.len() && inner[m] == rest[k - 1];
                assert(after[m + 1] == list[k]);
            }
        }
        let m = choose|m: int|
            0 <= m < inner.len() && path::components(#[trigger] inner[m]) == path::components(p);
        assert(after[m + 1] == inner[m]);
    } else if path::components(list[0]) == path::components(p) {
        assert(after[0] == list[0]);
    } else {
        assert(after =~= seq![p] + list);
        assert(after[0] == p);
        assert forall|k: int| 0 <= k < after.len() implies list.contains(#[trigger] after[k])
            || after[k] == p by {
            if k > 0 {
                assert(list[k - 1] == after[k]);
            }
        }
        assert forall|k: int| 0 <= k < list.len() implies after.contains(#[trigger] list[k]) by {
            assert(after[k + 1] == list[k]);
        }
    }
}

/// A directory of the same name as a missing path is looked for under every
/// place that projects are found in, and none is offered that is the missing
/// path itself or is not there.
pub proof fn only_other_directories_are_offered(
    missing: Seq<char>,
    places: Seq<Seq<char>>,
    is_dir: Seq<bool>,
    more: Seq<char>,
    there: bool,
)
    requires
        places.len() == is_dir.len(),
    ensures
        workspace::other_places(missing, places.push(more), is_dir.push(there)) == (if there
            && path::components(more) != path::components(missing) {
            workspace::other_places(missing, places, is_dir).push(more)
        } else {
            workspace::other_places(missing, places, is_dir)
        }),
{
    let offered = |i: int|
        i < is_dir.len() && is_dir[i] && path::components(places[i]) != path::components(missing);
    let before = Seq::new(places.len(), offered);
    let all = places.push(more);
    let dirs = is_dir.push(there);
    let passes = there && path::components(more) != path::components(missing);
    let after = Seq::new(
        all.len(),
        |i: int| i < dirs.len() && dirs[i] && path::components(all[i]) != path::components(missing),
    );
    assert(after =~= before.push(passes));
    what_passes_stays_in_order(places, before, more, passes);
}

// ---------------------------------------------------------------------------
// What the caller is told
// ---------------------------------------------------------------------------

/// A registration tells the project as it is, and how its path was translated
/// exactly where it was.
pub proof fn translations_are_told(
    project: Map<Seq<char>, JsonView>,
    requested: Seq<char>,
    mapped_root: Seq<char>,
    project_root: Seq<char>,
    k: Seq<char>,
)
    ensures
        ({
            let told = mcp::registered(project, requested, mapped_root, project_root);
            let moved = path::components(mapped_root) != path::components(requested);
            &&& k != "translation"@ ==> told.get(k) == JsonView::Object(project).get(k)
            &&& moved ==> told.get("translation"@) is Some && told.get(
                "translation"@,
            )->Some_0.text_at("from"@) == Some(requested) && told.get(
                "translation"@,
            )->Some_0.text_at("to"@) == Some(project_root)
            &&& !moved ==> told == JsonView::Object(project)
        }),
{
    reveal_strlit("from");
    reveal_strlit("to");
    reveal_strlit("note");
    assert("from"@.len() == 4 && "from"@[0] == 'f');
    assert("note"@.len() == 4 && "note"@[0] == 'n');
    assert("to"@.len() == 2);
}

/// The state of a project tells the fields of the project, the state of its
/// version control as it was found, and the caller's path where there is one.
pub proof fn states_are_told_as_found(
    project: Map<Seq<char>, JsonView>,
    root: Seq<char>,
    vcs: Option<mcp::VcsStatus>,
    paths: Seq<(Seq<char>, Seq<char>)>,
    k: Seq<char>,
)
    ensures
        ({
            let told = mcp::status_told(project, root, vcs, paths);
            &&& k != "vcs"@ && k != "host_path"@ ==> told.get(k) == JsonView::Object(project).get(k)
            &&& vcs is None ==> told.get("vcs"@) == Some(JsonView::Null)
            &&& vcs is Some ==> {
                let v = vcs->Some_0;
                let state = told.get("vcs"@)->Some_0;
                &&& told.get("vcs"@) is Some
                &&& state.text_at("vcs"@) == Some(v.vcs@)
                &&& state.text_at("revision"@) == Some(v.revision@)
                &&& v.branch is Some ==> state.text_at("branch"@) == Some(v.branch->Some_0@)
                &&& v.branch is None ==> state.get("branch"@) == Some(JsonView::Null)
                &&& v.repo_root is Some ==> state.text_at("repo_root"@) == Some(
                    v.repo_root->Some_0@,
                )
                &&& state.flag_at("dirty"@) == Some(v.changed_files@.len() > 0)
                &&& state.items_at("changed_files"@) is Some
                &&& state.items_at("changed_files"@)->Some_0.len() == v.changed_files@.len()
                &&& forall|i: int|
                    0 <= i < v.changed_files@.len() ==> #[trigger] state.items_at(
                        "changed_files"@,
                    )->Some_0[i] == v.changed_files@[i]@
                &&& v.digest is Some ==> state.text_at("digest"@) == Some(v.digest->Some_0@)
                &&& v.digest is None ==> state.get("digest"@) is None
            }
            &&& pathmap::reversed(paths, root) is Some ==> told.text_at("host_path"@)
                == pathmap::reversed(paths, root)
        }),
{
    reveal_strlit("vcs");
    reveal_strlit("host_path");
    reveal_strlit("revision");
    reveal_strlit("branch");
    reveal_strlit("repo_root");
    reveal_strlit("dirty");
    reveal_strlit("changed_files");
    reveal_strlit("digest");
    assert("vcs"@.len() == 3);
    assert("host_path"@.len() == 9 && "host_path"@[0] == 'h');
    assert("repo_root"@.len() == 9 && "repo_root"@[0] == 'r');
    assert("revision"@.len() == 8);
    assert("branch"@.len() == 6 && "branch"@[0] == 'b');
    assert("digest"@.len() == 6 && "digest"@[0] == 'd');
    assert("dirty"@.len() == 5);
    assert("changed_files"@.len() == 13);
}

/// A failure is put down to the caller unless it is one of the backend, of the
/// configuration or of reading and writing.
pub proof fn failures_are_put_down_to_their_cause(e: ErrorView, message: Seq<char>)
    ensures
        protocol::told(e, message).message == message,
        protocol::told(e, message).kind == (if e.kind == ErrorKind::Backend || e.kind
            == ErrorKind::ConfigRead || e.kind == ErrorKind::ConfigWrite || e.kind == ErrorKind::Io {
            McpErrorKind::InternalError
        } else {
            McpErrorKind::InvalidParams
        }),
{
}

/// A target that is moved with its checkout keeps its position or selection, and
/// its file ends up in the same place under the new root.
pub proof fn targets_move_with_their_checkout(
    target: TargetView,
    from: Seq<char>,
    to: Seq<char>,
)
    requires
        path::components(from).len() > 0,
    ensures
        ({
            let after = target.moved(from, to);
            &&& target is Position ==> after is Position && after->Position_position
                == target->Position_position
            &&& target is Selection ==> after is Selection && after->Selection_range
                == target->Selection_range
            &&& target is File ==> after is File
            &&& target is Project ==> after is Project
            &&& target.file() is Some ==> after.file() is Some && edits::ends_up(
                target.file()->Some_0,
                from,
                to,
                after.file()->Some_0,
            )
        }),
{
    if let Some(file) = target.file() {
        if path::under(file, from) {
            edit::moved_keeps_relative_components(file, from, to);
        }
    }
}

/// Projects are looked for in the directories that are listed; where none are, in
/// those that callers' paths are mapped to, and where working copies are mounted.
pub proof fn projects_are_looked_for_where_it_is_said(
    listed: Option<Seq<char>>,
    entries: Seq<(Seq<char>, Seq<char>)>,
)
    ensures
        ({
            let found = workspace::root_candidates(listed, entries);
            &&& listed is Some ==> found == workspace::listed_from(listed->Some_0, 0)
            &&& listed is None ==> found.len() == entries.len() + 1 && found.last()
                == "/workspaces"@ && forall|i: int|
                0 <= i < entries.len() ==> #[trigger] found[i] == entries[i].1
        }),
{
}

/// A missing path is looked for by its name, in every directory that holds a
/// project and where working copies are mounted.
pub proof fn missing_paths_are_looked_for_by_name(
    missing: Seq<char>,
    name: Seq<char>,
    mounted: bool,
    roots: Seq<Seq<char>>,
    more: Seq<char>,
)
    requires
        path::file_name_of(missing) == Some(name),
    ensures
        ({
            let places = workspace::mount_places(missing, mounted, roots);
            let dirs = workspace::search_roots(mounted, roots);
            &&& places.len() == dirs.len()
            &&& forall|i: int|
                0 <= i < dirs.len() ==> #[trigger] places[i] == path::joined(dirs[i], name)
        }),
        workspace::search_roots(mounted, roots) == path::in_order(
            if mounted {
                seq!["/workspaces"@] + workspace::parents_of(roots)
            } else {
                workspace::parents_of(roots)
            },
        ),
        workspace::parents_of(roots.push(more)) == (match path::parent_of(more) {
            Some(dir) => workspace::parents_of(roots).push(dir),
            None => workspace::parents_of(roots),
        }),
{
    let all = roots.push(more);
    let a = Seq::new(roots.len(), |i: int| path::parent_of(roots[i]));
    let b = Seq::new(all.len(), |i: int| path::parent_of(all[i]));
    assert(b.drop_last() =~= a);
}

/// What does not stand as expected is told with what was expected, where, and in
/// which checkout.
pub proof fn mismatches_are_told(
    expected: Seq<char>,
    target: TargetView,
    found: Option<Seq<char>>,
    workspace: Seq<char>,
    revision: Option<workspace::RevisionView>,
)
    requires
        target is Position || target is Selection,
    ensures
        ({
            let told = workspace::not_as_expected(expected, target, found, workspace, revision);
            let what = if target is Position {
                "identifier"@
            } else {
                "selection"@
            };
            let head = "target validation failed: expected "@ + what + " `"@ + expected + "` at "@
                + target.file()->Some_0 + workspace::label_of(target)
                + ", but Henka's copy has "@;
            &&& told.kind == ErrorKind::InvalidTarget
            &&& head.is_prefix_of(told.detail)
            &&& found is Some ==> (head + "`"@ + found->Some_0 + "`"@
                + " there. Henka is reading `"@ + workspace + "`"@).is_prefix_of(told.detail)
            &&& found is None ==> (head + ("no "@ + what) + " there. Henka is reading `"@ + workspace
                + "`"@).is_prefix_of(told.detail)
        }),
{
    let told = workspace::not_as_expected(expected, target, found, workspace, revision).detail;
    let what = if target is Position {
        "identifier"@
    } else {
        "selection"@
    };
    let head = "target validation failed: expected "@ + what + " `"@ + expected + "` at "@
        + target.file()->Some_0 + workspace::label_of(target) + ", but Henka's copy has "@;
    assert(told.subrange(0, head.len() as int) =~= head);
    let longer = match found {
        Some(t) => head + "`"@ + t + "`"@ + " there. Henka is reading `"@ + workspace + "`"@,
        None => head + ("no "@ + what) + " there. Henka is reading `"@ + workspace + "`"@,
    };
    assert(told.subrange(0, longer.len() as int) =~= longer);
}

/// A place in a file is labelled by its numbers: the line, then the character.
pub proof fn places_are_labelled_by_line_and_character(
    file: Seq<char>,
    p: crate::edit::Position,
    q: crate::edit::Position,
)
    ensures
        ({
            let at = workspace::label_of(TargetView::Position { file, position: p });
            let range = crate::edit::Range { start: p, end: q };
            let over = workspace::label_of(TargetView::Selection { file, range });
            let till = workspace::label_of(TargetView::Position { file, position: q });
            &&& at == ":"@ + text::decimal(p.line as nat) + ":"@ + text::decimal(
                p.character as nat,
            )
            &&& ":"@ + over.skip(at.len() as int + 1) == till
            &&& over.take(at.len() as int) == at
            &&& over[at.len() as int] == '-'
        }),
{
    reveal_strlit(":");
    reveal_strlit("-");
    let at = workspace::label_of(TargetView::Position { file, position: p });
    let range = crate::edit::Range { start: p, end: q };
    let over = workspace::label_of(TargetView::Selection { file, range });
    let till = workspace::label_of(TargetView::Position { file, position: q });
    assert(over.take(at.len() as int) =~= at);
    assert("-"@.len() == 1);
    assert(over[at.len() as int] == "-"@[0]);
    assert(":"@ + over.skip(at.len() as int + 1) =~= till);
}

} // verus!
