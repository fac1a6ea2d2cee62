//! Working copies: which one a request acts in, whether it may, and what it
//! says of it.

use crate::edit;
use crate::edit::FileOperation;
use crate::edit::FileOperationView;
use crate::edit::WorkspaceEdit;
use crate::edit::WorkspaceEditView;
use crate::error::Error;
use crate::error::ErrorKind;
use crate::error::ErrorView;
use crate::operation::Target;
use crate::operation::TargetView;
use crate::path;
use crate::pathmap;
use crate::pathmap::PathMap;
use crate::protocol;
use crate::protocol::McpError;
use crate::text;
use crate::view;
use vstd::prelude::*;

verus! {

// ---------------------------------------------------------------------------
// Finding the working copy
// ---------------------------------------------------------------------------

/// A target with its file as the server sees it. A relative file is looked for
/// under the project's root, so it stays.
pub open spec fn target_mapped(
    entries: Seq<(Seq<char>, Seq<char>)>,
    target: TargetView,
) -> TargetView {
    match target.file() {
        Some(file) => if path::is_rooted(file) {
            target.in_file(pathmap::mapped(entries, file))
        } else {
            target
        },
        None => target,
    }
}

/// Turns the file of a target into the path that the server sees.
pub fn remap_target_file(map: &PathMap, target: &mut Target)
    ensures
        final(target)@ == target_mapped(map@, old(target)@),
{
    let to = match target.file() {
        Some(file) => if path::is_absolute(file.as_str()) {
            map.map(file.as_str())
        } else {
            return;
        },
        None => {
            return;
        },
    };
    target.set_file(to);
}

/// The first directory that holds a marker.
pub open spec fn first_marked(dirs: Seq<Seq<char>>, marked: Seq<bool>, i: int) -> Option<Seq<char>>
    decreases dirs.len() - i,
{
    if i < 0 || i >= dirs.len() || i >= marked.len() {
        None
    } else if marked[i] {
        Some(dirs[i])
    } else {
        first_marked(dirs, marked, i + 1)
    }
}

/// The names of the entries that mark the root of a working copy, below each
/// directory above a file: what has to be looked for.
pub fn marker_paths(file: &str) -> (r: Vec<(String, String)>)
    ensures
        pathmap::pairs_view(r@) == Seq::new(
            path::directories_above(file@).len(),
            |i: int|
                (
                    path::joined(path::directories_above(file@)[i], ".git"@),
                    path::joined(path::directories_above(file@)[i], ".jj"@),
                ),
        ),
{
    let dirs = path::ancestors(file);
    let ghost all = path::directories_above(file@);
    assert(view::each(dirs@) == all);
    assert(dirs@.len() == all.len());
    let mut out: Vec<(String, String)> = Vec::new();
    let mut i: usize = 0;
    while i < dirs.len()
        invariant
            i <= dirs@.len() == all.len(),
            all == view::each(dirs@),
            out@.len() == i,
            forall|k: int|
                0 <= k < i ==> (#[trigger] out@[k]).0@ == path::joined(all[k], ".git"@)
                    && out@[k].1@ == path::joined(all[k], ".jj"@),
        decreases dirs@.len() - i,
    {
        assert(all[i as int] == dirs@[i as int]@);
        out.push((path::join(dirs[i].as_str(), ".git"), path::join(dirs[i].as_str(), ".jj")));
        i += 1;
    }
    assert(pathmap::pairs_view(out@) =~= Seq::new(
        all.len(),
        |i: int| (path::joined(all[i], ".git"@), path::joined(all[i], ".jj"@)),
    ));
    out
}

/// The nearest directory above a file that is the root of a working copy.
/// `marked` says of each directory, from the nearest on, whether it holds one
/// of its markers.
pub fn working_copy_root_containing(file: &str, marked: &Vec<bool>) -> (r: Option<String>)
    ensures
        view::maybe(r) == first_marked(path::directories_above(file@), marked@, 0),
{
    let dirs = path::ancestors(file);
    let ghost all = path::directories_above(file@);
    assert(view::each(dirs@) == all);
    assert(dirs@.len() == all.len());
    let mut i: usize = 0;
    while i < dirs.len() && i < marked.len()
        invariant
            i <= dirs@.len() == all.len(),
            i <= marked@.len(),
            all == view::each(dirs@),
            all == path::directories_above(file@),
            first_marked(all, marked@, 0) == first_marked(all, marked@, i as int),
        decreases dirs@.len() - i,
    {
        assert(all[i as int] == dirs@[i as int]@);
        if marked[i] {
            return Some(dirs[i].clone());
        }
        i += 1;
    }
    None
}

/// The working copy a request acts in: the one it names, as the server sees it;
/// or else the one that holds an absolute file; or else the project's root.
pub open spec fn acting_in(
    named: Option<Seq<char>>,
    target: TargetView,
    project_root: Seq<char>,
    entries: Seq<(Seq<char>, Seq<char>)>,
    containing: Option<Seq<char>>,
) -> Seq<char> {
    match named {
        Some(ws) => pathmap::mapped(entries, ws),
        None => if target.file() is Some && path::is_rooted(target.file()->Some_0) && containing
            is Some {
            containing->Some_0
        } else {
            project_root
        },
    }
}

/// The working copy a request acts in. `containing` is the one that holds the
/// target's file, where there is one.
pub fn resolve_workspace(
    workspace_override: Option<&str>,
    target: &Target,
    project_root: &str,
    map: &PathMap,
    containing: Option<&str>,
) -> (r: String)
    ensures
        r@ == acting_in(
            view::maybe(workspace_override),
            target@,
            project_root@,
            map@,
            view::maybe(containing),
        ),
{
    if let Some(ws) = workspace_override {
        return map.map(ws);
    }
    if let Some(file) = target.file() {
        if path::is_absolute(file.as_str()) {
            if let Some(root) = containing {
                return root.to_owned();
            }
        }
    }
    project_root.to_owned()
}

/// Whether a working copy is of the project's repository: both are of the same
/// one, or neither is of any and they are the same directory.
pub open spec fn same_repository(
    workspace_repo: Option<Seq<char>>,
    project_repo: Option<Seq<char>>,
    workspace: Seq<char>,
    project_root: Seq<char>,
) -> bool {
    match (workspace_repo, project_repo) {
        (Some(a), Some(b)) => a == b,
        (None, None) => path::components(workspace) == path::components(project_root),
        _ => false,
    }
}

/// Makes sure that a working copy is of the project's repository. The
/// repositories are known by a text each; the canonical paths count where there
/// are none.
pub fn ensure_same_repo(
    workspace: &str,
    workspace_repo: Option<&str>,
    project_repo: Option<&str>,
    canonical_workspace: &str,
    canonical_project: &str,
) -> (r: Result<(), Error>)
    ensures
        match r {
            Ok(_) => same_repository(
                view::maybe(workspace_repo),
                view::maybe(project_repo),
                canonical_workspace@,
                canonical_project@,
            ),
            Err(e) => !same_repository(
                view::maybe(workspace_repo),
                view::maybe(project_repo),
                canonical_workspace@,
                canonical_project@,
            ) && e@ == (ErrorView {
                kind: ErrorKind::InvalidTarget,
                detail: "workspace `"@ + workspace@ + "` is not a working copy of the project"@,
            }),
        },
{
    let same = match (workspace_repo, project_repo) {
        (Some(a), Some(b)) => text::same(a, b),
        (None, None) => path::same(canonical_workspace, canonical_project),
        _ => false,
    };
    if same {
        Ok(())
    } else {
        Err(
            Error::new(
                ErrorKind::InvalidTarget,
                text::cat3("workspace `", workspace, "` is not a working copy of the project"),
            ),
        )
    }
}

// ---------------------------------------------------------------------------
// What the caller expects to find
// ---------------------------------------------------------------------------

/// The state of a working copy in its version control.
#[derive(Clone, Debug)]
pub struct Revision {
    /// The version control.
    pub vcs: String,
    /// The revision.
    pub id: String,
    /// The branch, where it has one.
    pub branch: Option<String>,
}

/// What such a state is.
#[verifier::ext_equal]
pub struct RevisionView {
    /// The version control.
    pub vcs: Seq<char>,
    /// The revision.
    pub id: Seq<char>,
    /// The branch, where it has one.
    pub branch: Option<Seq<char>>,
}

impl View for Revision {
    type V = RevisionView;

    open spec fn view(&self) -> RevisionView {
        RevisionView { vcs: self.vcs@, id: self.id@, branch: view::maybe(self.branch) }
    }
}

/// The line and character of a target, for a message.
pub open spec fn label_of(target: TargetView) -> Seq<char> {
    match target {
        TargetView::Position { position, .. } => ":"@ + text::decimal(position.line as nat) + ":"@
            + text::decimal(position.character as nat),
        TargetView::Selection { range, .. } => ":"@ + text::decimal(range.start.line as nat) + ":"@
            + text::decimal(range.start.character as nat) + "-"@ + text::decimal(
            range.end.line as nat,
        ) + ":"@ + text::decimal(range.end.character as nat),
        _ => Seq::empty(),
    }
}

/// The line and character of a target, for a message.
pub fn position_label(target: &Target) -> (r: String)
    ensures
        r@ == label_of(target@),
{
    match target {
        Target::Position { position, .. } => {
            let line = text::decimal_text(position.line as u64);
            let character = text::decimal_text(position.character as u64);
            let head = text::cat3(":", line.as_str(), ":");
            text::cat(head.as_str(), character.as_str())
        },
        Target::Selection { range, .. } => {
            let a = text::decimal_text(range.start.line as u64);
            let b = text::decimal_text(range.start.character as u64);
            let c = text::decimal_text(range.end.line as u64);
            let d = text::decimal_text(range.end.character as u64);
            let head = text::cat3(":", a.as_str(), ":");
            let start = text::cat3(head.as_str(), b.as_str(), "-");
            let end = text::cat3(start.as_str(), c.as_str(), ":");
            text::cat(end.as_str(), d.as_str())
        },
        _ => {
            let none = String::new();
            assert(none@ =~= Seq::empty());
            none
        },
    }
}

/// What stands at a target: an identifier at a position, a stretch of text in a
/// selection.
pub open spec fn what_is_expected(target: TargetView) -> Option<Seq<char>> {
    match target {
        TargetView::Position { .. } => Some("identifier"@),
        TargetView::Selection { .. } => Some("selection"@),
        _ => None,
    }
}

/// Whether something else stands at a target than the caller expects.
pub open spec fn is_mismatch(
    expected: Option<Seq<char>>,
    target: TargetView,
    found: Option<Seq<char>>,
) -> bool {
    expected is Some && what_is_expected(target) is Some && found != expected
}

/// The file that has to be read to see whether the caller finds what they
/// expect: none where they expect nothing, or the target has no place in a
/// file.
pub fn expectation_file(expected: Option<&str>, target: &Target, workspace: &str) -> (r: Option<
    String,
>)
    ensures
        view::maybe(r) == (if expected is Some && what_is_expected(target@) is Some {
            Some(path::joined(workspace@, target@.file()->Some_0))
        } else {
            None
        }),
{
    if expected.is_none() {
        return None;
    }
    match target {
        Target::Position { file, .. } => Some(path::join(workspace, file.as_str())),
        Target::Selection { file, .. } => Some(path::join(workspace, file.as_str())),
        _ => None,
    }
}

/// The failure for such a file that cannot be read. `why` says why.
pub fn unreadable(file: &str, why: &str) -> (r: Error)
    ensures
        r@ == (ErrorView {
            kind: ErrorKind::InvalidTarget,
            detail: "cannot read `"@ + file@ + "` to validate the target: "@ + why@,
        }),
{
    let head = text::cat3("cannot read `", file, "` to validate the target: ");
    Error::new(ErrorKind::InvalidTarget, text::cat(head.as_str(), why))
}

/// What was found, for a message.
pub open spec fn seen(found: Option<Seq<char>>, what: Seq<char>) -> Seq<char> {
    match found {
        Some(t) => "`"@ + t + "`"@,
        None => "no "@ + what,
    }
}

/// The state of a working copy, for a message.
pub open spec fn state(revision: Option<RevisionView>) -> Seq<char> {
    match revision {
        Some(r) => " ("@ + r.vcs + " "@ + r.id + (match r.branch {
            Some(b) => ", "@ + b,
            None => Seq::empty(),
        }) + ")"@,
        None => Seq::empty(),
    }
}

/// The failure for a target at which something else stands than the caller
/// expects.
pub open spec fn not_as_expected(
    expected: Seq<char>,
    target: TargetView,
    found: Option<Seq<char>>,
    workspace: Seq<char>,
    revision: Option<RevisionView>,
) -> ErrorView {
    let what = what_is_expected(target)->Some_0;
    ErrorView {
        kind: ErrorKind::InvalidTarget,
        detail: "target validation failed: expected "@ + what + " `"@ + expected + "` at "@
            + target.file()->Some_0 + label_of(target) + ", but Henka's copy has "@ + seen(
            found,
            what,
        ) + " there. Henka is reading `"@ + workspace + "`"@ + state(revision)
            + ". The coordinate may have been computed against a different revision or checkout \u{2014} call project_status to compare, or pass the matching `workspace`."@,
    }
}

fn describe_found(found: Option<&str>, what: &str) -> (r: String)
    ensures
        r@ == seen(view::maybe(found), what@),
{
    match found {
        Some(t) => text::cat3("`", t, "`"),
        None => text::cat("no ", what),
    }
}

fn describe_state(revision: Option<&Revision>) -> (r: String)
    ensures
        r@ == state(view::maybe(revision)),
{
    match revision {
        Some(rev) => {
            let head = text::cat3(" (", rev.vcs.as_str(), " ");
            let branch = match &rev.branch {
                Some(b) => text::cat(", ", b.as_str()),
                None => {
                    let none = String::new();
                    assert(none@ =~= Seq::empty());
                    none
                },
            };
            let named = text::cat3(head.as_str(), rev.id.as_str(), branch.as_str());
            text::cat(named.as_str(), ")")
        },
        None => {
            let none = String::new();
            assert(none@ =~= Seq::empty());
            none
        },
    }
}

/// Makes sure that the caller finds at the target what they expect. `found` is
/// what stands there in the server's copy. Where the caller expects nothing, or
/// the target has no place in a file, there is nothing to make sure of.
pub fn validate_expectation(
    expected: Option<&str>,
    target: &Target,
    found: Option<&str>,
    workspace: &str,
    revision: Option<&Revision>,
) -> (r: Result<(), Error>)
    ensures
        match r {
            Ok(_) => !is_mismatch(view::maybe(expected), target@, view::maybe(found)),
            Err(e) => is_mismatch(view::maybe(expected), target@, view::maybe(found)) && e@
                == not_as_expected(
                expected->Some_0@,
                target@,
                view::maybe(found),
                workspace@,
                view::maybe(revision),
            ),
        },
{
    let wanted = match expected {
        Some(wanted) => wanted,
        None => {
            return Ok(());
        },
    };
    let what = match target {
        Target::Position { .. } => "identifier",
        Target::Selection { .. } => "selection",
        _ => {
            return Ok(());
        },
    };
    if let Some(t) = found {
        if text::same(t, wanted) {
            return Ok(());
        }
    }
    let file = match target.file() {
        Some(file) => file,
        None => {
            return Ok(());
        },
    };
    let label = position_label(target);
    let saw = describe_found(found, what);
    let here = describe_state(revision);
    let a = text::cat3("target validation failed: expected ", what, " `");
    let b = text::cat3(a.as_str(), wanted, "` at ");
    let c = text::cat3(b.as_str(), file.as_str(), label.as_str());
    let d = text::cat3(c.as_str(), ", but Henka's copy has ", saw.as_str());
    let e = text::cat3(d.as_str(), " there. Henka is reading `", workspace);
    let f = text::cat3(e.as_str(), "`", here.as_str());
    let message = text::cat(
        f.as_str(),
        ". The coordinate may have been computed against a different revision or checkout \u{2014} call project_status to compare, or pass the matching `workspace`.",
    );
    Err(Error::new(ErrorKind::InvalidTarget, message))
}

// ---------------------------------------------------------------------------
// Edits
// ---------------------------------------------------------------------------

/// Whether an edit to a working copy may name a path. One that is absolute has
/// to lead to somewhere in the working copy, whatever `..` it holds; a relative
/// one is taken from the working copy as it is.
pub open spec fn admissible(p: Seq<char>, workspace: Seq<char>) -> bool {
    path::is_rooted(p) ==> path::within(p, workspace)
}

/// Whether an edit to a working copy may change a file as a whole.
pub open spec fn operation_admissible(op: FileOperationView, workspace: Seq<char>) -> bool {
    match op {
        FileOperationView::Create { path } => admissible(path, workspace),
        FileOperationView::Delete { path } => admissible(path, workspace),
        FileOperationView::Rename { from, to } => admissible(from, workspace) && admissible(
            to,
            workspace,
        ),
    }
}

/// Whether a working copy may be edited so: no absolute path leads outside.
pub open spec fn edit_admissible(e: WorkspaceEditView, workspace: Seq<char>) -> bool {
    &&& forall|i: int| 0 <= i < e.files.len() ==> admissible((#[trigger] e.files[i]).path, workspace)
    &&& forall|i: int|
        0 <= i < e.file_ops.len() ==> operation_admissible(#[trigger] e.file_ops[i], workspace)
}

fn is_admissible(p: &str, workspace: &str) -> (r: bool)
    ensures
        r == admissible(p@, workspace@),
{
    !path::is_absolute(p) || path::is_within(p, workspace)
}

/// Refuses an edit that would write to an absolute path outside a working copy.
pub fn reject_edits_outside(e: &WorkspaceEdit, workspace: &str) -> (r: Result<(), Error>)
    ensures
        match r {
            Ok(_) => edit_admissible(e@, workspace@),
            Err(failure) => !edit_admissible(e@, workspace@) && failure@ == (ErrorView {
                kind: ErrorKind::InvalidTarget,
                detail: "refactoring would edit files outside the workspace"@,
            }),
        },
{
    let mut ok = true;
    let mut i: usize = 0;
    while i < e.files.len() && ok
        invariant
            i <= e.files@.len(),
            ok ==> forall|k: int|
                0 <= k < i ==> admissible((#[trigger] e@.files[k]).path, workspace@),
            !ok ==> !edit_admissible(e@, workspace@),
        decreases e.files@.len() - i,
    {
        assert(e@.files[i as int] == e.files@[i as int]@);
        ok = is_admissible(e.files[i].path.as_str(), workspace);
        i += 1;
    }
    let mut j: usize = 0;
    while j < e.file_ops.len() && ok
        invariant
            j <= e.file_ops@.len(),
            ok ==> forall|k: int|
                0 <= k < e.files@.len() ==> admissible(
                    (#[trigger] e@.files[k]).path,
                    workspace@,
                ),
            ok ==> forall|k: int|
                0 <= k < j ==> operation_admissible(#[trigger] e@.file_ops[k], workspace@),
            !ok ==> !edit_admissible(e@, workspace@),
        decreases e.file_ops@.len() - j,
    {
        assert(e@.file_ops[j as int] == e.file_ops@[j as int]@);
        ok = match &e.file_ops[j] {
            FileOperation::Create { path } => is_admissible(path.as_str(), workspace),
            FileOperation::Delete { path } => is_admissible(path.as_str(), workspace),
            FileOperation::Rename { from, to } => is_admissible(from.as_str(), workspace) && is_admissible(
                to.as_str(),
                workspace,
            ),
        };
        j += 1;
    }
    if ok {
        Ok(())
    } else {
        Err(
            Error::new(
                ErrorKind::InvalidTarget,
                "refactoring would edit files outside the workspace".to_owned(),
            ),
        )
    }
}

/// An edit that was computed in the checkout of a session, as it is made in a
/// working copy.
pub open spec fn edit_for(
    e: WorkspaceEditView,
    session_root: Option<Seq<char>>,
    workspace: Seq<char>,
) -> WorkspaceEditView {
    match session_root {
        Some(root) => edit::edit_moved(e, root, workspace),
        None => e,
    }
}

/// Moves an edit from the checkout of a session to a working copy, and refuses
/// it where it would then write to an absolute path outside.
pub fn place_edit(e: WorkspaceEdit, session_root: Option<&str>, workspace: &str) -> (r: Result<
    WorkspaceEdit,
    Error,
>)
    ensures
        match r {
            Ok(placed) => placed@ == edit_for(e@, view::maybe(session_root), workspace@)
                && edit_admissible(placed@, workspace@),
            Err(failure) => !edit_admissible(
                edit_for(e@, view::maybe(session_root), workspace@),
                workspace@,
            ) && failure@ == (ErrorView {
                kind: ErrorKind::InvalidTarget,
                detail: "refactoring would edit files outside the workspace"@,
            }),
        },
{
    let mut placed = e;
    if let Some(root) = session_root {
        placed.retarget(root, workspace);
    }
    match reject_edits_outside(&placed, workspace) {
        Ok(_) => Ok(placed),
        Err(failure) => Err(failure),
    }
}

/// Whether a working copy is the checkout of a session itself. Its content need
/// not be laid over the session's, and the session is told of edits to it.
pub fn is_base(session_root: Option<&str>, workspace: &str) -> (r: bool)
    ensures
        r == (session_root is Some && path::components(session_root->Some_0@) == path::components(
            workspace@,
        )),
{
    match session_root {
        Some(root) => path::same(root, workspace),
        None => false,
    }
}

/// Whether a path names something in the tree under a root: it lies under the
/// root, and what follows the root does not lead back above it.
pub open spec fn in_tree(p: Seq<char>, root: Seq<char>) -> bool {
    path::under(p, root) && !path::climbs(
        path::components(p).skip(path::components(root).len() as int),
    )
}

/// Whether every path of an edit names something in the tree under a root.
pub open spec fn edit_in_tree(e: WorkspaceEditView, root: Seq<char>) -> bool {
    &&& forall|i: int| 0 <= i < e.files.len() ==> in_tree((#[trigger] e.files[i]).path, root)
    &&& forall|i: int|
        0 <= i < e.file_ops.len() ==> match #[trigger] e.file_ops[i] {
            FileOperationView::Create { path } => in_tree(path, root),
            FileOperationView::Delete { path } => in_tree(path, root),
            FileOperationView::Rename { from, to } => in_tree(from, root) && in_tree(to, root),
        }
}

/// An edit to a working copy may name what a path in the tree under a root is
/// moved to.
proof fn moved_is_admissible(p: Seq<char>, root: Seq<char>, workspace: Seq<char>)
    requires
        path::components(root).len() > 0,
        in_tree(p, root),
    ensures
        admissible(edit::moved(p, root, workspace), workspace),
{
    let n = path::components(root).len() as int;
    path::rest_has_later_components(p, n);
    path::joined_stays_within(workspace, path::rest_from(p, n));
}

/// An edit to the tree of a session's own checkout is never refused, whatever
/// working copy it is moved to.
pub proof fn edits_to_the_checkout_are_placed(
    e: WorkspaceEditView,
    root: Seq<char>,
    workspace: Seq<char>,
)
    requires
        path::components(root).len() > 0,
        edit_in_tree(e, root),
    ensures
        edit_admissible(edit_for(e, Some(root), workspace), workspace),
{
    let placed = edit_for(e, Some(root), workspace);
    assert forall|i: int| 0 <= i < placed.files.len() implies admissible(
        (#[trigger] placed.files[i]).path,
        workspace,
    ) by {
        moved_is_admissible(e.files[i].path, root, workspace);
    }
    assert forall|i: int| 0 <= i < placed.file_ops.len() implies operation_admissible(
        #[trigger] placed.file_ops[i],
        workspace,
    ) by {
        match e.file_ops[i] {
            FileOperationView::Create { path } => {
                moved_is_admissible(path, root, workspace);
            },
            FileOperationView::Delete { path } => {
                moved_is_admissible(path, root, workspace);
            },
            FileOperationView::Rename { from, to } => {
                moved_is_admissible(from, root, workspace);
                moved_is_admissible(to, root, workspace);
            },
        }
    }
}

// ---------------------------------------------------------------------------
// Directories that projects are looked for in
// ---------------------------------------------------------------------------

/// Where working copies are mounted by convention.
pub const WORKSPACES: &'static str = "/workspaces";

/// A character that parts the entries of a list in the environment.
pub open spec fn parts_list(c: char) -> bool {
    c == ',' || c == ';' || c == '\n'
}

/// The first separator at or after position `i`, or the end of the text.
pub open spec fn next_separator(s: Seq<char>, i: int) -> int
    decreases s.len() - i,
{
    if i < 0 || i >= s.len() {
        s.len() as int
    } else if parts_list(s[i]) {
        i
    } else {
        next_separator(s, i + 1)
    }
}

/// A separator is not behind where it is looked for.
pub proof fn next_separator_bounds(s: Seq<char>, i: int)
    requires
        0 <= i <= s.len(),
    ensures
        i <= next_separator(s, i) <= s.len(),
    decreases s.len() - i,
{
    if i < s.len() && !parts_list(s[i]) {
        next_separator_bounds(s, i + 1);
    }
}

/// The entries of a list from position `i` on, trimmed; blank ones are left
/// out.
pub open spec fn listed_from(s: Seq<char>, i: int) -> Seq<Seq<char>>
    decreases s.len() - i,
{
    if i < 0 || i > s.len() {
        Seq::empty()
    } else {
        let j = next_separator(s, i);
        let entry = text::trimmed(s.subrange(i, j));
        let own = if entry.len() == 0 {
            Seq::empty()
        } else {
            seq![entry]
        };
        if j < s.len() {
            proof {
                next_separator_bounds(s, i);
            }
            own + listed_from(s, j + 1)
        } else {
            own
        }
    }
}

/// The entries of a list in the environment.
fn split_list(s: &str) -> (r: Vec<String>)
    ensures
        view::each(r@) == listed_from(s@, 0),
{
    let cs = text::chars_of(s);
    let mut out: Vec<String> = Vec::new();
    let mut i: usize = 0;
    assert(view::each(out@) + listed_from(s@, 0) =~= listed_from(s@, 0));
    loop
        invariant
            i <= cs@.len(),
            cs@ == s@,
            view::each(out@) + listed_from(s@, i as int) == listed_from(s@, 0),
        decreases cs@.len() - i,
    {
        let mut j: usize = i;
        while j < cs.len() && cs[j] != ',' && cs[j] != ';' && cs[j] != '\n'
            invariant
                i <= j <= cs@.len(),
                cs@ == s@,
                next_separator(s@, i as int) == next_separator(s@, j as int),
            decreases cs@.len() - j,
        {
            j += 1;
        }
        let piece = text::text_of(&cs, i, j);
        let entry = text::trim(piece.as_str());
        let ghost done = out@;
        let ghost e = entry@;
        if !text::is_empty(entry.as_str()) {
            out.push(entry);
            assert(view::each(out@) =~= view::each(done) + seq![e]);
        }
        if j == cs.len() {
            assert(view::each(out@) =~= view::each(done) + listed_from(s@, i as int));
            return out;
        }
        assert(view::each(out@) + listed_from(s@, j + 1) =~= view::each(done) + listed_from(
            s@,
            i as int,
        ));
        i = j + 1;
    }
}

/// The directories whose children may be projects: those the environment lists,
/// or else the server's own prefixes of the path map and the conventional
/// mount.
pub open spec fn root_candidates(
    listed: Option<Seq<char>>,
    entries: Seq<(Seq<char>, Seq<char>)>,
) -> Seq<Seq<char>> {
    match listed {
        Some(s) => listed_from(s, 0),
        None => Seq::new(entries.len(), |i: int| entries[i].1).push(WORKSPACES@),
    }
}

/// The directories whose children may be projects. An empty list in the
/// environment means none.
pub fn auto_register_candidates(listed: Option<&str>, path_map: &PathMap) -> (r: Vec<String>)
    ensures
        view::each(r@) == root_candidates(view::maybe(listed), path_map@),
{
    match listed {
        Some(s) => split_list(s),
        None => {
            let mut defaults = path_map.container_prefixes();
            let ghost before = defaults@;
            defaults.push(WORKSPACES.to_owned());
            assert(view::each(defaults@) =~= view::each(before).push(WORKSPACES@));
            defaults
        },
    }
}

/// The texts of which something holds.
pub open spec fn where_true(all: Seq<Seq<char>>, holds: Seq<bool>) -> Seq<Seq<char>> {
    view::kept(
        Seq::new(
            all.len(),
            |i: int|
                if i < holds.len() && holds[i] {
                    Some(all[i])
                } else {
                    None
                },
        ),
    )
}

/// The texts of which something holds.
fn keep_where(all: &Vec<String>, holds: &Vec<bool>) -> (r: Vec<String>)
    ensures
        view::each(r@) == where_true(view::each(all@), holds@),
{
    let ghost texts = view::each(all@);
    let ghost wanted = Seq::new(
        texts.len(),
        |i: int|
            if i < holds@.len() && holds@[i] {
                Some(texts[i])
            } else {
                None
            },
    );
    let mut out: Vec<String> = Vec::new();
    let mut i: usize = 0;
    assert(view::each(out@) =~= view::kept(wanted.take(0)));
    while i < all.len()
        invariant
            i <= all@.len(),
            texts == view::each(all@),
            wanted == Seq::new(
                texts.len(),
                |i: int|
                    if i < holds@.len() && holds@[i] {
                        Some(texts[i])
                    } else {
                        None
                    },
            ),
            view::each(out@) == view::kept(wanted.take(i as int)),
        decreases all@.len() - i,
    {
        broadcast use view::each_push;

        assert(texts[i as int] == all@[i as int]@);
        proof {
            view::kept_step(wanted, i as int);
        }
        if i < holds.len() && holds[i] {
            out.push(all[i].clone());
        }
        i += 1;
    }
    assert(wanted.take(texts.len() as int) =~= wanted);
    out
}

/// Of the directories whose children may be projects, those that exist, in
/// order and each once. `is_dir` says of each candidate whether it does.
pub fn auto_register_roots(candidates: &Vec<String>, is_dir: &Vec<bool>) -> (r: Vec<String>)
    ensures
        view::each(r@) == path::in_order(where_true(view::each(candidates@), is_dir@)),
{
    let kept = keep_where(candidates, is_dir);
    path::sorted(&kept)
}

/// The parents of some paths, where they have one.
pub open spec fn parents_of(roots: Seq<Seq<char>>) -> Seq<Seq<char>> {
    view::kept(Seq::new(roots.len(), |i: int| path::parent_of(roots[i])))
}

/// The directories in which a mount of a missing path is looked for: the
/// conventional mount where it exists, and the directories that projects are
/// in.
pub open spec fn search_roots(
    mount_exists: bool,
    project_roots: Seq<Seq<char>>,
) -> Seq<Seq<char>> {
    let parents = parents_of(project_roots);
    if mount_exists {
        path::in_order(seq![WORKSPACES@] + parents)
    } else {
        path::in_order(parents)
    }
}

/// The places at which a mount of a missing path is looked for: its name in
/// each of the directories.
pub open spec fn mount_places(
    missing: Seq<char>,
    mount_exists: bool,
    project_roots: Seq<Seq<char>>,
) -> Seq<Seq<char>> {
    match path::file_name_of(missing) {
        Some(name) => {
            let roots = search_roots(mount_exists, project_roots);
            Seq::new(roots.len(), |i: int| path::joined(roots[i], name))
        },
        None => Seq::empty(),
    }
}

/// The places at which a mount of a missing path is looked for.
pub fn mount_candidates(missing: &str, mount_exists: bool, project_roots: &Vec<String>) -> (r: Vec<
    String,
>)
    ensures
        view::each(r@) == mount_places(missing@, mount_exists, view::each(project_roots@)),
{
    let name = match path::file_name(missing) {
        Some(name) => name,
        None => {
            let none: Vec<String> = Vec::new();
            assert(view::each(none@) =~= Seq::empty());
            return none;
        },
    };
    let mut roots: Vec<String> = Vec::new();
    if mount_exists {
        roots.push(WORKSPACES.to_owned());
        assert(view::each(roots@) =~= seq![WORKSPACES@]);
    } else {
        assert(view::each(roots@) =~= Seq::empty());
    }
    let ghost start = view::each(roots@);
    let ghost all = view::each(project_roots@);
    let ghost wanted = Seq::new(all.len(), |i: int| path::parent_of(all[i]));
    let mut i: usize = 0;
    assert(view::each(roots@) =~= start + view::kept(wanted.take(0)));
    while i < project_roots.len()
        invariant
            i <= project_roots@.len(),
            all == view::each(project_roots@),
            wanted == Seq::new(all.len(), |i: int| path::parent_of(all[i])),
            view::each(roots@) == start + view::kept(wanted.take(i as int)),
        decreases project_roots@.len() - i,
    {
        assert(all[i as int] == project_roots@[i as int]@);
        proof {
            view::kept_step(wanted, i as int);
        }
        if let Some(parent) = path::parent(project_roots[i].as_str()) {
            let ghost done = roots@;
            let ghost next = parent;
            roots.push(parent);
            assert(view::each(roots@) =~= view::each(done).push(next@));
            assert(start + view::kept(wanted.take(i as int)).push(next@) =~= (start + view::kept(
                wanted.take(i as int),
            )).push(next@));
        }
        i += 1;
    }
    assert(wanted.take(all.len() as int) =~= wanted);
    assert(Seq::<Seq<char>>::empty() + view::kept(wanted) =~= view::kept(wanted));
    let ordered = path::sorted(&roots);
    let ghost dirs = view::each(ordered@);
    assert(dirs == search_roots(mount_exists, all));
    let mut out: Vec<String> = Vec::new();
    let mut k: usize = 0;
    while k < ordered.len()
        invariant
            k <= ordered@.len(),
            dirs == view::each(ordered@),
            out@.len() == k,
            forall|m: int| 0 <= m < k ==> (#[trigger] out@[m])@ == path::joined(dirs[m], name@),
        decreases ordered@.len() - k,
    {
        assert(dirs[k as int] == ordered@[k as int]@);
        out.push(path::join(ordered[k].as_str(), name.as_str()));
        k += 1;
    }
    assert(view::each(out@) =~= mount_places(missing@, mount_exists, all));
    out
}

/// Of some places, those at which a directory is and that are not the missing
/// path itself.
pub open spec fn other_places(
    missing: Seq<char>,
    places: Seq<Seq<char>>,
    is_dir: Seq<bool>,
) -> Seq<Seq<char>> {
    where_true(
        places,
        Seq::new(
            places.len(),
            |i: int|
                i < is_dir.len() && is_dir[i] && path::components(places[i]) != path::components(
                    missing,
                ),
        ),
    )
}

/// The directories that a missing path may mean: the places at which a mount of
/// it is looked for and a directory is, in order and each once. `is_dir` says
/// of each place whether a directory is there.
pub fn suggest_mounts(missing: &str, places: &Vec<String>, is_dir: &Vec<bool>) -> (r: Vec<String>)
    ensures
        view::each(r@) == path::in_order(
            other_places(missing@, view::each(places@), is_dir@),
        ),
{
    let ghost all = view::each(places@);
    let mut holds: Vec<bool> = Vec::new();
    let mut i: usize = 0;
    while i < places.len()
        invariant
            i <= places@.len(),
            all == view::each(places@),
            holds@.len() == i,
            forall|k: int|
                0 <= k < i ==> #[trigger] holds@[k] == (k < is_dir@.len() && is_dir@[k]
                    && path::components(all[k]) != path::components(missing@)),
        decreases places@.len() - i,
    {
        assert(all[i as int] == places@[i as int]@);
        let here = i < is_dir.len() && is_dir[i] && !path::same(places[i].as_str(), missing);
        holds.push(here);
        i += 1;
    }
    assert(holds@ =~= Seq::new(
        all.len(),
        |i: int|
            i < is_dir@.len() && is_dir@[i] && path::components(all[i]) != path::components(
                missing@,
            ),
    ));
    let kept = keep_where(places, &holds);
    path::sorted(&kept)
}

/// A path in quotes.
pub open spec fn quoted(p: Seq<char>) -> Seq<char> {
    "`"@ + p + "`"@
}

/// What is said of a path that does not exist where the server looks.
pub open spec fn not_found_message(
    missing: Seq<char>,
    suggestions: Seq<Seq<char>>,
) -> Seq<char> {
    let head = "path does not exist inside Henka: `"@ + missing
        + "`. Henka resolves paths on its own filesystem, not the caller's \u{2014} when it runs in a container, host paths must be mounted (by convention under /workspaces) and registered by their in-container path."@;
    let offer = if suggestions.len() == 0 {
        head
    } else {
        head + " A mounted working copy of the same name exists at: "@ + text::joined(
            Seq::new(suggestions.len(), |i: int| quoted(suggestions[i])),
            ", "@,
        ) + "."@
    };
    offer
        + " To keep registering by caller-side paths, set HENKA_PATH_MAP=<host-prefix>=<container-prefix>."@
}

/// The error for a path that does not exist where the server looks, with the
/// directories that may be meant.
pub fn path_not_found_error(missing: &str, suggestions: &Vec<String>) -> (r: McpError)
    ensures
        r@ == protocol::invalid(not_found_message(missing@, view::each(suggestions@))),
{
    let head = text::cat3(
        "path does not exist inside Henka: `",
        missing,
        "`. Henka resolves paths on its own filesystem, not the caller's \u{2014} when it runs in a container, host paths must be mounted (by convention under /workspaces) and registered by their in-container path.",
    );
    let ghost all = view::each(suggestions@);
    assert(all.len() == suggestions@.len());
    let offer = if suggestions.len() == 0 {
        head
    } else {
        let mut parts: Vec<String> = Vec::new();
        let mut i: usize = 0;
        while i < suggestions.len()
            invariant
                i <= suggestions@.len(),
                all == view::each(suggestions@),
                parts@.len() == i,
                forall|k: int| 0 <= k < i ==> (#[trigger] parts@[k])@ == quoted(all[k]),
            decreases suggestions@.len() - i,
        {
            assert(all[i as int] == suggestions@[i as int]@);
            parts.push(text::cat3("`", suggestions[i].as_str(), "`"));
            i += 1;
        }
        assert(view::each(parts@) =~= Seq::new(all.len(), |i: int| quoted(all[i])));
        let list = text::join(&parts, ", ");
        let told = text::cat3(
            head.as_str(),
            " A mounted working copy of the same name exists at: ",
            list.as_str(),
        );
        text::cat(told.as_str(), ".")
    };
    McpError::invalid_params(
        text::cat(
            offer.as_str(),
            " To keep registering by caller-side paths, set HENKA_PATH_MAP=<host-prefix>=<container-prefix>.",
        ),
    )
}

/// What is said of a project whose root the server sees under another path.
pub open spec fn mount_note(from: Seq<char>, to: Seq<char>) -> Seq<char> {
    "Henka reads this project at `"@ + to + "`, the configured mount for your `"@ + from
        + "`. When the mount is a bind of your checkout it is the same tree on disk, not a separate copy \u{2014} coordinates you computed against your copy apply directly. Don't judge that by the path alone (mounts differ between containers): call project_status and confirm its `revision` and `digest` match your checkout (`digest` is reproducible from your changed files). If they differ, target edits with an explicit `workspace` or guard positions with `expect`."@
}

/// How a caller's path became the path that the server reads.
#[derive(Debug)]
pub struct PathTranslation {
    /// The caller's path.
    pub from: String,
    /// The server's path.
    pub to: String,
    /// What is said of it.
    pub note: String,
}

impl PathTranslation {
    /// The same tree, seen under another path.
    pub fn mount(from: &str, to: &str) -> (r: PathTranslation)
        ensures
            r.from@ == from@,
            r.to@ == to@,
            r.note@ == mount_note(from@, to@),
    {
        let head = text::cat3(
            "Henka reads this project at `",
            to,
            "`, the configured mount for your `",
        );
        let note = text::cat3(
            head.as_str(),
            from,
            "`. When the mount is a bind of your checkout it is the same tree on disk, not a separate copy \u{2014} coordinates you computed against your copy apply directly. Don't judge that by the path alone (mounts differ between containers): call project_status and confirm its `revision` and `digest` match your checkout (`digest` is reproducible from your changed files). If they differ, target edits with an explicit `workspace` or guard positions with `expect`.",
        );
        PathTranslation { from: from.to_owned(), to: to.to_owned(), note }
    }
}

} // verus!
