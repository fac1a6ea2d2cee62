//! Runs: what a run of an operation does with what it is told.

use crate::edit::WorkspaceEditView;
use crate::error::ErrorKind;
use crate::error::ErrorView;
use crate::json::JsonView;
use crate::mcp;
use crate::path;
use crate::pathmap;
use crate::run::ActView;
use crate::run::EventView;
use crate::run::OperationOutcomeView;
use crate::run::OutcomeView;
use crate::run::RunView;
use crate::run::StageView;
use crate::run::ThenView;
use crate::workspace;
use vstd::prelude::*;

verus! {

/// A run is about what it was started with, whatever happens: its target, what
/// is expected there, whether it is a preview, and whom it asks. Only the working
/// copy is settled on the way, and only at first.
pub proof fn runs_stay_about_the_same(run: RunView, event: EventView)
    requires
        run.in_order(),
        run.awaits(event),
    ensures
        ({
            let after = run.step(event).0;
            &&& after.target == run.target
            &&& after.expect == run.expect
            &&& after.dry_run == run.dry_run
            &&& after.project_root == run.project_root
            &&& after.asks == run.asks
            &&& after.failure == run.failure
            &&& !(run.stage is Placing) ==> after.workspace == run.workspace
            &&& !(run.stage is Restoring) ==> after.queries == run.queries
        }),
{
}

/// A run begins in the working copy that is named, as the server sees it; or it
/// looks for the one that holds the file; or it begins at the root of the project.
pub proof fn runs_begin_where_they_are_told(
    run: RunView,
    named: Option<Seq<char>>,
    paths: Seq<(Seq<char>, Seq<char>)>,
)
    ensures
        ({
            let (after, act) = run.begun(named, paths);
            let absolute = run.target.file() is Some && path::is_rooted(run.target.file()->Some_0);
            &&& named is Some ==> act == ActView::FindRepositories(
                pathmap::mapped(paths, named->Some_0),
            ) && after.workspace == pathmap::mapped(paths, named->Some_0)
            &&& named is None && absolute ==> act == ActView::FindWorkingCopy(
                run.target.file()->Some_0,
            )
            &&& named is None && !absolute ==> act == ActView::FindRepositories(run.project_root)
                && after.workspace == run.project_root
        }),
{
}

/// The working copy that is found is the one that is acted in; without one it is
/// the project itself.
pub proof fn the_working_copy_found_is_acted_in(run: RunView, found: Option<Seq<char>>)
    requires
        run.stage is Placing,
    ensures
        ({
            let (after, act) = run.step(EventView::WorkingCopy(found));
            let there = match found {
                Some(r) => r,
                None => run.project_root,
            };
            after.workspace == there && act == ActView::FindRepositories(there)
        }),
{
}

/// A working copy of another repository is never acted in.
pub proof fn foreign_working_copies_are_refused(
    run: RunView,
    a: Option<Seq<char>>,
    b: Option<Seq<char>>,
    c: Seq<char>,
    d: Seq<char>,
)
    requires
        run.stage is Comparing,
    ensures
        ({
            let act = run.step(EventView::Repositories(a, b, c, d)).1;
            let same = workspace::same_repository(a, b, c, d);
            &&& !same ==> act is Stop && act->Stop_0 is Failed && act->Stop_0->Failed_0.kind
                == ErrorKind::InvalidTarget
            &&& same && run.expect is Some && (run.target is Position || run.target is Selection)
                ==> act == ActView::Read(
                path::joined(run.workspace, run.target.file()->Some_0),
            )
            &&& same && (run.expect is None || run.target is File || run.target is Project)
                && run.asks.len() > 0 ==> act == ActView::Open(run.asks[0])
        }),
{
}

/// What is read at the target has to be what the caller expects, or nothing is
/// run.
pub proof fn what_is_read_has_to_be_expected(
    run: RunView,
    found: Result<Option<Seq<char>>, Seq<char>>,
    revision: Option<workspace::RevisionView>,
)
    requires
        run.stage is Checking,
        run.in_order(),
    ensures
        ({
            let act = run.step(EventView::Read(found, revision)).1;
            &&& found is Err || (found is Ok && found->Ok_0 != run.expect) ==> act is Stop
                && act->Stop_0 is Failed && act->Stop_0->Failed_0.kind == ErrorKind::InvalidTarget
            &&& found is Ok && found->Ok_0 == run.expect && run.asks.len() > 0 ==> act
                == ActView::Open(run.asks[0])
        }),
{
}

/// A session is begun before anything is run in it. The content of the working
/// copy is laid over what the session knows, unless the session is on it.
pub proof fn working_copies_are_laid_over(run: RunView, at: int, root: Option<Seq<char>>)
    ensures
        run.stage == StageView::Opening(at) ==> run.step(EventView::Opened(Ok(root))) == (
            run.at(StageView::Beginning(at, root)),
            ActView::Begin,
        ),
        run.stage == StageView::Beginning(at, root) ==> ({
            let act = run.step(EventView::Begun).1;
            let on_it = root is Some && path::components(root->Some_0) == path::components(
                run.workspace,
            );
            &&& on_it ==> act == ActView::Run(run.asks[at])
            &&& !on_it ==> act == ActView::Overlay(run.workspace)
        }),
        run.stage == StageView::Overlaying(at, root) ==> run.step(
            EventView::Overlaid(Ok(())),
        ).1 == ActView::Run(run.asks[at]),
{
}

/// What a backend answers is put behind the answers before it, and the next
/// backend is asked; when all have answered, the run tells their answers, or the
/// failure that the plan ended with.
pub proof fn answers_are_gathered_in_order(
    run: RunView,
    at: int,
    root: Option<Seq<char>>,
    answer: JsonView,
)
    requires
        run.stage == StageView::Restoring(at, root, Ok(OperationOutcomeView::Query(answer))),
        run.in_order(),
    ensures
        ({
            let (after, act) = run.step(EventView::Restored);
            let next = after.step(EventView::Ended).1;
            &&& act == ActView::End
            &&& after.queries == run.queries.push(answer)
            &&& at + 1 < run.asks.len() ==> next == ActView::Open(run.asks[at + 1])
            &&& at + 1 == run.asks.len() && run.failure is None ==> next == ActView::Stop(
                OutcomeView::Queries(run.queries.push(answer)),
            )
            &&& at + 1 == run.asks.len() && run.failure is Some ==> next == ActView::Stop(
                OutcomeView::Failed(run.failure->Some_0),
            )
        }),
{
}

/// An edit that an operation gives is moved to the working copy, and shown or
/// made there as it then is; one that leads outside is neither.
pub proof fn edits_are_made_as_given(
    run: RunView,
    at: int,
    root: Option<Seq<char>>,
    e: WorkspaceEditView,
    revision: Option<Seq<char>>,
)
    requires
        run.stage == StageView::Restoring(at, root, Ok(OperationOutcomeView::Edit(e))),
        run.in_order(),
    ensures
        ({
            let (after, act) = run.step(EventView::Restored);
            let there = workspace::edit_for(e, root, run.workspace);
            &&& workspace::edit_admissible(there, run.workspace) ==> act == ActView::FindRevision(
                run.workspace,
            ) && after.step(EventView::Revision(revision)).1 == (if run.dry_run {
                ActView::Preview(there)
            } else {
                ActView::Apply(there)
            })
            &&& !workspace::edit_admissible(there, run.workspace) ==> act == ActView::End
                && after.step(EventView::Ended).1 is Stop && after.step(
                EventView::Ended,
            ).1->Stop_0 is Failed && after.step(EventView::Ended).1->Stop_0->Failed_0.kind
                == ErrorKind::InvalidTarget
        }),
{
}

/// The run tells where an edit was shown or made and at which revision, whether
/// it was made, and what came of it. A session on the edited checkout is told.
pub proof fn edits_are_told(
    run: RunView,
    root: Option<Seq<char>>,
    revision: Option<Seq<char>>,
    done: JsonView,
)
    requires
        run.stage == StageView::Finishing(root, revision),
    ensures
        ({
            let (after, act) = run.step(EventView::Finished(Ok(done)));
            let on_it = root is Some && path::components(root->Some_0) == path::components(
                run.workspace,
            );
            let told = if run.dry_run {
                mcp::previewed(run.workspace, revision, done)
            } else {
                mcp::made(run.workspace, revision, done)
            };
            &&& !run.dry_run && on_it ==> act == ActView::Sync && after.step(EventView::Synced).1
                == ActView::End && after.step(EventView::Synced).0.step(EventView::Ended).1
                == ActView::Stop(OutcomeView::Edit(told))
            &&& run.dry_run || !on_it ==> act == ActView::End && after.step(EventView::Ended).1
                == ActView::Stop(OutcomeView::Edit(told))
        }),
{
}

/// What is told of an edit: whether it was a preview, the working copy and its
/// revision, and the files or what was done.
pub proof fn tellings_name_the_working_copy(
    workspace: Seq<char>,
    revision: Option<Seq<char>>,
    done: JsonView,
)
    ensures
        ({
            let shown = mcp::previewed(workspace, revision, done);
            let made = mcp::made(workspace, revision, done);
            &&& shown.flag_at("dry_run"@) == Some(true)
            &&& made.flag_at("dry_run"@) == Some(false)
            &&& shown.get("files"@) == Some(done)
            &&& made.get("applied"@) == Some(done)
            &&& shown.get("workspace"@) == made.get("workspace"@)
            &&& made.get("workspace"@) is Some
            &&& made.get("workspace"@)->Some_0.text_at("workspace"@) == Some(workspace)
            &&& revision is Some ==> made.get("workspace"@)->Some_0.text_at("revision"@) == revision
            &&& revision is None ==> made.get("workspace"@)->Some_0.get("revision"@) == Some(
                JsonView::Null,
            )
        }),
{
    reveal_strlit("dry_run");
    reveal_strlit("workspace");
    reveal_strlit("files");
    reveal_strlit("applied");
    reveal_strlit("revision");
    assert("dry_run"@.len() == 7 && "dry_run"@[0] == 'd');
    assert("applied"@.len() == 7 && "applied"@[0] == 'a');
    assert("workspace"@.len() == 9);
    assert("revision"@.len() == 8);
    assert("files"@.len() == 5);
}

/// A failure ends the run, and is told as it is.
pub proof fn failures_are_told_as_they_are(
    run: RunView,
    at: int,
    root: Option<Seq<char>>,
    id: Option<Seq<char>>,
    e: ErrorView,
)
    ensures
        run.stage == StageView::Opening(at) ==> run.step(EventView::Opened(Err(e))).1
            == ActView::Stop(OutcomeView::Failed(e)),
        run.stage == StageView::Overlaying(at, root) ==> run.step(EventView::Overlaid(Err(e))) == (
            run.at(StageView::Ending(ThenView::Stop(OutcomeView::Failed(e)))),
            ActView::End,
        ),
        run.stage == StageView::Restoring(at, root, Err(e)) ==> run.step(EventView::Restored) == (
            run.at(StageView::Ending(ThenView::Stop(OutcomeView::Failed(e)))),
            ActView::End,
        ),
        run.stage == StageView::Finishing(root, id) ==> run.step(EventView::Finished(Err(e))) == (
            run.at(StageView::Ending(ThenView::Stop(OutcomeView::Failed(e)))),
            ActView::End,
        ),
        run.stage == StageView::Ending(ThenView::Stop(OutcomeView::Failed(e))) ==> run.step(
            EventView::Ended,
        ).1 == ActView::Stop(OutcomeView::Failed(e)),
{
}

} // verus!
