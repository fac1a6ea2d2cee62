//! Running an operation, step by step.
//!
//! A run decides what is done next; whoever drives it does that and hands back
//! what came of it. First the working copy is found and what the caller expects
//! is looked for. Then one backend after the other is asked, each between the
//! beginning and the end of a request to it, with the working copy laid over
//! what the backend knows for as long as the operation runs. An edit is looked
//! at or made before that request ends.

use crate::edit::WorkspaceEdit;
use crate::edit::WorkspaceEditView;
use crate::error::Error;
use crate::error::ErrorKind;
use crate::error::ErrorView;
use crate::json;
use crate::json::Json;
use crate::json::JsonView;
use crate::mcp;
use crate::mcp::Ask;
use crate::mcp::DispatchResult;
use crate::mcp::Plan;
use crate::operation::OperationOutcome;
use crate::operation::Target;
use crate::operation::TargetView;
use crate::path;
use crate::pathmap::PathMap;
use crate::view;
use crate::workspace;
use crate::workspace::Revision;
use crate::workspace::RevisionView;
use vstd::prelude::*;

verus! {

// ---------------------------------------------------------------------------
// What happens
// ---------------------------------------------------------------------------

/// What came of what was done.
#[derive(Debug)]
pub enum Event {
    /// The working copy that holds the file was looked for.
    WorkingCopy(Option<String>),
    /// The repositories were looked up, each known by a text, and the paths
    /// made canonical.
    Repositories {
        /// That of the working copy.
        workspace: Option<String>,
        /// That of the project.
        project: Option<String>,
        /// The path of the working copy.
        canonical_workspace: String,
        /// The path of the project.
        canonical_project: String,
    },
    /// The file was read: what stands at the target, or why the file cannot be
    /// read.
    Read {
        /// What stands at the target.
        found: Result<Option<String>, String>,
        /// The state of the working copy.
        revision: Option<Revision>,
    },
    /// The session was opened; it has a checkout of its own, or none.
    Opened(Result<Option<String>, Error>),
    /// The request began.
    Begun,
    /// The working copy was laid over what the backend knows.
    Overlaid(Result<(), Error>),
    /// The operation ran.
    Ran(Result<OperationOutcome, Error>),
    /// The backend was given back what it knew.
    Restored,
    /// The revision of the working copy was looked up.
    Revision(Option<String>),
    /// The edit was looked at or made.
    Finished(Result<Json, Error>),
    /// The backend was told of the files that changed.
    Synced,
    /// The request ended.
    Ended,
}

/// What is to be done next.
#[derive(Debug)]
pub enum Act {
    /// Look for the working copy that holds a file.
    FindWorkingCopy(String),
    /// Look up the repositories of a working copy and of the project.
    FindRepositories(String),
    /// Read a file, to see what stands at the target.
    Read(String),
    /// Open a session with a backend.
    Open(Ask),
    /// Begin a request.
    Begin,
    /// Lay a working copy over what the backend knows.
    Overlay(String),
    /// Run the operation.
    Run(Ask),
    /// Give the backend back what it knew.
    Restore,
    /// Look up the revision of a working copy.
    FindRevision(String),
    /// Look at what an edit would change in a working copy.
    Preview(WorkspaceEdit),
    /// Make an edit in a working copy.
    Apply(WorkspaceEdit),
    /// Tell the backend of the files that changed.
    Sync,
    /// End the request.
    End,
    /// Nothing: this is the outcome.
    Stop(Outcome),
}

/// What running an operation came to.
#[derive(Debug)]
pub enum Outcome {
    /// The backends answered.
    Queries(Vec<Json>),
    /// An edit was looked at or made.
    Edit(Json),
    /// It failed.
    Failed(Error),
}

/// What an operation did.
#[verifier::ext_equal]
pub enum OperationOutcomeView {
    /// Edits.
    Edit(WorkspaceEditView),
    /// An answer.
    Query(JsonView),
}

/// What running an operation came to.
#[verifier::ext_equal]
pub enum OutcomeView {
    /// The backends answered.
    Queries(Seq<JsonView>),
    /// An edit was looked at or made.
    Edit(JsonView),
    /// It failed.
    Failed(ErrorView),
}

/// What came of what was done.
#[verifier::ext_equal]
pub enum EventView {
    /// The working copy that holds the file was looked for.
    WorkingCopy(Option<Seq<char>>),
    /// The repositories were looked up.
    Repositories(Option<Seq<char>>, Option<Seq<char>>, Seq<char>, Seq<char>),
    /// The file was read.
    Read(Result<Option<Seq<char>>, Seq<char>>, Option<RevisionView>),
    /// The session was opened.
    Opened(Result<Option<Seq<char>>, ErrorView>),
    /// The request began.
    Begun,
    /// The working copy was laid over what the backend knows.
    Overlaid(Result<(), ErrorView>),
    /// The operation ran.
    Ran(Result<OperationOutcomeView, ErrorView>),
    /// The backend was given back what it knew.
    Restored,
    /// The revision of the working copy was looked up.
    Revision(Option<Seq<char>>),
    /// The edit was looked at or made.
    Finished(Result<JsonView, ErrorView>),
    /// The backend was told of the files that changed.
    Synced,
    /// The request ended.
    Ended,
}

/// What is to be done next.
#[verifier::ext_equal]
pub enum ActView {
    /// Look for the working copy that holds a file.
    FindWorkingCopy(Seq<char>),
    /// Look up the repositories of a working copy and of the project.
    FindRepositories(Seq<char>),
    /// Read a file, to see what stands at the target.
    Read(Seq<char>),
    /// Open a session with a backend.
    Open(Ask),
    /// Begin a request.
    Begin,
    /// Lay a working copy over what the backend knows.
    Overlay(Seq<char>),
    /// Run the operation.
    Run(Ask),
    /// Give the backend back what it knew.
    Restore,
    /// Look up the revision of a working copy.
    FindRevision(Seq<char>),
    /// Look at what an edit would change in a working copy.
    Preview(WorkspaceEditView),
    /// Make an edit in a working copy.
    Apply(WorkspaceEditView),
    /// Tell the backend of the files that changed.
    Sync,
    /// End the request.
    End,
    /// Nothing: this is the outcome.
    Stop(OutcomeView),
}

impl View for OperationOutcome {
    type V = OperationOutcomeView;

    open spec fn view(&self) -> OperationOutcomeView {
        match *self {
            OperationOutcome::Edit(e) => OperationOutcomeView::Edit(e@),
            OperationOutcome::Query(v) => OperationOutcomeView::Query(v@),
        }
    }
}

impl View for Outcome {
    type V = OutcomeView;

    open spec fn view(&self) -> OutcomeView {
        match *self {
            Outcome::Queries(v) => OutcomeView::Queries(json::list_view(v@)),
            Outcome::Edit(v) => OutcomeView::Edit(v@),
            Outcome::Failed(e) => OutcomeView::Failed(e@),
        }
    }
}

/// What a result that can fail is.
pub open spec fn tried<T: View>(r: Result<T, Error>) -> Result<T::V, ErrorView> {
    match r {
        Ok(v) => Ok(v@),
        Err(e) => Err(e@),
    }
}

impl View for Event {
    type V = EventView;

    open spec fn view(&self) -> EventView {
        match *self {
            Event::WorkingCopy(root) => EventView::WorkingCopy(view::maybe(root)),
            Event::Repositories {
                workspace,
                project,
                canonical_workspace,
                canonical_project,
            } => EventView::Repositories(
                view::maybe(workspace),
                view::maybe(project),
                canonical_workspace@,
                canonical_project@,
            ),
            Event::Read { found, revision } => EventView::Read(
                match found {
                    Ok(t) => Ok(view::maybe(t)),
                    Err(why) => Err(why@),
                },
                view::maybe(revision),
            ),
            Event::Opened(r) => EventView::Opened(
                match r {
                    Ok(root) => Ok(view::maybe(root)),
                    Err(e) => Err(e@),
                },
            ),
            Event::Begun => EventView::Begun,
            Event::Overlaid(r) => EventView::Overlaid(
                match r {
                    Ok(_) => Ok(()),
                    Err(e) => Err(e@),
                },
            ),
            Event::Ran(r) => EventView::Ran(tried(r)),
            Event::Restored => EventView::Restored,
            Event::Revision(id) => EventView::Revision(view::maybe(id)),
            Event::Finished(r) => EventView::Finished(tried(r)),
            Event::Synced => EventView::Synced,
            Event::Ended => EventView::Ended,
        }
    }
}

impl View for Act {
    type V = ActView;

    open spec fn view(&self) -> ActView {
        match *self {
            Act::FindWorkingCopy(file) => ActView::FindWorkingCopy(file@),
            Act::FindRepositories(w) => ActView::FindRepositories(w@),
            Act::Read(file) => ActView::Read(file@),
            Act::Open(ask) => ActView::Open(ask),
            Act::Begin => ActView::Begin,
            Act::Overlay(w) => ActView::Overlay(w@),
            Act::Run(ask) => ActView::Run(ask),
            Act::Restore => ActView::Restore,
            Act::FindRevision(w) => ActView::FindRevision(w@),
            Act::Preview(e) => ActView::Preview(e@),
            Act::Apply(e) => ActView::Apply(e@),
            Act::Sync => ActView::Sync,
            Act::End => ActView::End,
            Act::Stop(o) => ActView::Stop(o@),
        }
    }
}

// ---------------------------------------------------------------------------
// Where a run stands
// ---------------------------------------------------------------------------

/// What follows when a request has ended.
#[derive(Debug)]
pub enum Then {
    /// The backend at a place in the plan is asked.
    Ask(usize),
    /// The run stops.
    Stop(Outcome),
}

/// What follows when a request has ended.
#[verifier::ext_equal]
pub enum ThenView {
    /// The backend at a place in the plan is asked.
    Ask(int),
    /// The run stops.
    Stop(OutcomeView),
}

impl View for Then {
    type V = ThenView;

    open spec fn view(&self) -> ThenView {
        match *self {
            Then::Ask(at) => ThenView::Ask(at as int),
            Then::Stop(o) => ThenView::Stop(o@),
        }
    }
}

/// What a run waits for.
#[derive(Debug)]
pub enum Stage {
    /// The working copy is looked for.
    Placing,
    /// The repositories are looked up.
    Comparing,
    /// The file is read.
    Checking,
    /// A session is opened with the backend at a place in the plan.
    Opening(usize),
    /// A request begins, to a session with a checkout of its own or none.
    Beginning(usize, Option<String>),
    /// The working copy is laid over what the backend knows.
    Overlaying(usize, Option<String>),
    /// The operation runs.
    Running(usize, Option<String>),
    /// The backend is given back what it knew. What the operation did is kept.
    Restoring(usize, Option<String>, Result<OperationOutcome, Error>),
    /// The revision is looked up. The edit is kept.
    Describing(Option<String>, WorkspaceEdit),
    /// The edit is looked at or made. The revision is kept.
    Finishing(Option<String>, Option<String>),
    /// The backend is told of the files that changed. What came of the edit is
    /// kept.
    Syncing(Json),
    /// The request ends.
    Ending(Then),
    /// Nothing.
    Over,
}

/// What a run waits for.
#[verifier::ext_equal]
pub enum StageView {
    /// The working copy is looked for.
    Placing,
    /// The repositories are looked up.
    Comparing,
    /// The file is read.
    Checking,
    /// A session is opened with the backend at a place in the plan.
    Opening(int),
    /// A request begins.
    Beginning(int, Option<Seq<char>>),
    /// The working copy is laid over what the backend knows.
    Overlaying(int, Option<Seq<char>>),
    /// The operation runs.
    Running(int, Option<Seq<char>>),
    /// The backend is given back what it knew.
    Restoring(int, Option<Seq<char>>, Result<OperationOutcomeView, ErrorView>),
    /// The revision is looked up.
    Describing(Option<Seq<char>>, WorkspaceEditView),
    /// The edit is looked at or made.
    Finishing(Option<Seq<char>>, Option<Seq<char>>),
    /// The backend is told of the files that changed.
    Syncing(JsonView),
    /// The request ends.
    Ending(ThenView),
    /// Nothing.
    Over,
}

impl View for Stage {
    type V = StageView;

    open spec fn view(&self) -> StageView {
        match *self {
            Stage::Placing => StageView::Placing,
            Stage::Comparing => StageView::Comparing,
            Stage::Checking => StageView::Checking,
            Stage::Opening(at) => StageView::Opening(at as int),
            Stage::Beginning(at, root) => StageView::Beginning(at as int, view::maybe(root)),
            Stage::Overlaying(at, root) => StageView::Overlaying(at as int, view::maybe(root)),
            Stage::Running(at, root) => StageView::Running(at as int, view::maybe(root)),
            Stage::Restoring(at, root, did) => StageView::Restoring(
                at as int,
                view::maybe(root),
                tried(did),
            ),
            Stage::Describing(root, e) => StageView::Describing(view::maybe(root), e@),
            Stage::Finishing(root, id) => StageView::Finishing(view::maybe(root), view::maybe(id)),
            Stage::Syncing(v) => StageView::Syncing(v@),
            Stage::Ending(then) => StageView::Ending(then@),
            Stage::Over => StageView::Over,
        }
    }
}

/// An operation that is being run.
#[derive(Debug)]
pub struct Run {
    target: Target,
    expect: Option<String>,
    dry_run: bool,
    project_root: String,
    workspace: String,
    asks: Vec<Ask>,
    failure: Option<Error>,
    queries: Vec<Json>,
    stage: Stage,
}

/// What such a run is.
#[verifier::ext_equal]
pub struct RunView {
    /// Where the operation acts.
    pub target: TargetView,
    /// What the caller expects to stand there.
    pub expect: Option<Seq<char>>,
    /// Whether edits are only looked at.
    pub dry_run: bool,
    /// The root of the project.
    pub project_root: Seq<char>,
    /// The working copy that the operation acts in.
    pub workspace: Seq<char>,
    /// The backends to ask.
    pub asks: Seq<Ask>,
    /// What comes out after they were asked, where it is not their answers.
    pub failure: Option<ErrorView>,
    /// What they answered so far.
    pub queries: Seq<JsonView>,
    /// What the run waits for.
    pub stage: StageView,
}

impl View for Run {
    type V = RunView;

    closed spec fn view(&self) -> RunView {
        RunView {
            target: self.target@,
            expect: view::maybe(self.expect),
            dry_run: self.dry_run,
            project_root: self.project_root@,
            workspace: self.workspace@,
            asks: self.asks@,
            failure: view::maybe(self.failure),
            queries: json::list_view(self.queries@),
            stage: self.stage@,
        }
    }
}

/// Whether a working copy is the checkout that a session has.
pub open spec fn on_base(root: Option<Seq<char>>, workspace: Seq<char>) -> bool {
    root is Some && path::components(root->Some_0) == path::components(workspace)
}

/// The failure of a working copy of another repository.
pub open spec fn foreign(workspace: Seq<char>) -> ErrorView {
    ErrorView {
        kind: ErrorKind::InvalidTarget,
        detail: "workspace `"@ + workspace + "` is not a working copy of the project"@,
    }
}

/// The failure of a file that cannot be read.
pub open spec fn cannot_read(file: Seq<char>, why: Seq<char>) -> ErrorView {
    ErrorView {
        kind: ErrorKind::InvalidTarget,
        detail: "cannot read `"@ + file + "` to validate the target: "@ + why,
    }
}

/// The failure of an edit to files outside the working copy.
pub open spec fn escapes() -> ErrorView {
    ErrorView {
        kind: ErrorKind::InvalidTarget,
        detail: "refactoring would edit files outside the workspace"@,
    }
}

impl RunView {
    /// Whether the run is in order: the backend that is asked is in the plan,
    /// those before it have answered, and an edit is one that is admissible.
    pub open spec fn in_order(self) -> bool {
        match self.stage {
            StageView::Placing | StageView::Comparing => self.queries.len() == 0,
            StageView::Checking => self.queries.len() == 0 && self.expects(),
            StageView::Opening(at)
            | StageView::Beginning(at, _)
            | StageView::Overlaying(at, _)
            | StageView::Running(at, _)
            | StageView::Restoring(at, _, _) => 0 <= at < self.asks.len() && self.queries.len()
                == at,
            StageView::Describing(_, e) => workspace::edit_admissible(e, self.workspace),
            StageView::Ending(ThenView::Ask(at)) => 0 <= at <= self.asks.len()
                && self.queries.len() == at,
            _ => true,
        }
    }

    /// Whether what came is what the run waits for.
    pub open spec fn awaits(self, event: EventView) -> bool {
        match self.stage {
            StageView::Placing => event is WorkingCopy,
            StageView::Comparing => event is Repositories,
            StageView::Checking => event is Read,
            StageView::Opening(_) => event is Opened,
            StageView::Beginning(_, _) => event is Begun,
            StageView::Overlaying(_, _) => event is Overlaid,
            StageView::Running(_, _) => event is Ran,
            StageView::Restoring(_, _, _) => event is Restored,
            StageView::Describing(_, _) => event is Revision,
            StageView::Finishing(_, _) => event is Finished,
            StageView::Syncing(_) => event is Synced,
            StageView::Ending(_) => event is Ended,
            StageView::Over => false,
        }
    }

    /// The run at another stage.
    pub open spec fn at(self, stage: StageView) -> RunView {
        RunView { stage, ..self }
    }

    /// The run stops.
    pub open spec fn stopped(self, outcome: OutcomeView) -> (RunView, ActView) {
        (self.at(StageView::Over), ActView::Stop(outcome))
    }

    /// The request ends, and something follows.
    pub open spec fn ending(self, then: ThenView) -> (RunView, ActView) {
        (self.at(StageView::Ending(then)), ActView::End)
    }

    /// The backend at a place in the plan is asked. Behind the last one, the
    /// run stops.
    pub open spec fn asking(self, at: int) -> (RunView, ActView) {
        if at < self.asks.len() {
            (self.at(StageView::Opening(at)), ActView::Open(self.asks[at]))
        } else {
            match self.failure {
                Some(e) => self.stopped(OutcomeView::Failed(e)),
                None => self.stopped(OutcomeView::Queries(self.queries)),
            }
        }
    }

    /// How a run begins: in the working copy that is named, else in the one that
    /// holds an absolute file, else at the root of the project.
    pub open spec fn begun(
        self,
        named: Option<Seq<char>>,
        paths: Seq<(Seq<char>, Seq<char>)>,
    ) -> (RunView, ActView) {
        if named is None && self.target.file() is Some && path::is_rooted(
            self.target.file()->Some_0,
        ) {
            (self, ActView::FindWorkingCopy(self.target.file()->Some_0))
        } else {
            self.placed(
                workspace::acting_in(named, self.target, self.project_root, paths, None),
            )
        }
    }

    /// The operation acts in a working copy, whose repository is looked up.
    pub open spec fn placed(self, workspace: Seq<char>) -> (RunView, ActView) {
        (
            RunView { workspace, stage: StageView::Comparing, ..self },
            ActView::FindRepositories(workspace),
        )
    }

    /// Whether the caller expects something at a place in a file.
    pub open spec fn expects(self) -> bool {
        self.expect is Some && workspace::what_is_expected(self.target) is Some
    }

    /// The file that the target is in.
    pub open spec fn target_file(self) -> Seq<char> {
        path::joined(self.workspace, self.target.file()->Some_0)
    }

    /// The repositories were looked up.
    pub open spec fn compared(
        self,
        workspace_repo: Option<Seq<char>>,
        project_repo: Option<Seq<char>>,
        canonical_workspace: Seq<char>,
        canonical_project: Seq<char>,
    ) -> (RunView, ActView) {
        if !workspace::same_repository(
            workspace_repo,
            project_repo,
            canonical_workspace,
            canonical_project,
        ) {
            self.stopped(OutcomeView::Failed(foreign(self.workspace)))
        } else if self.expects() {
            (self.at(StageView::Checking), ActView::Read(self.target_file()))
        } else {
            self.asking(0)
        }
    }

    /// The file was read.
    pub open spec fn checked(
        self,
        found: Result<Option<Seq<char>>, Seq<char>>,
        revision: Option<RevisionView>,
    ) -> (RunView, ActView) {
        match found {
            Err(why) => self.stopped(OutcomeView::Failed(cannot_read(self.target_file(), why))),
            Ok(text) => if self.expects() && text != self.expect {
                self.stopped(
                    OutcomeView::Failed(
                        workspace::not_as_expected(
                            self.expect->Some_0,
                            self.target,
                            text,
                            self.workspace,
                            revision,
                        ),
                    ),
                )
            } else {
                self.asking(0)
            },
        }
    }

    /// The backend was given back what it knew.
    pub open spec fn restored(
        self,
        at: int,
        root: Option<Seq<char>>,
        did: Result<OperationOutcomeView, ErrorView>,
    ) -> (RunView, ActView) {
        match did {
            Err(e) => self.ending(ThenView::Stop(OutcomeView::Failed(e))),
            Ok(OperationOutcomeView::Query(v)) => (RunView {
                queries: self.queries.push(v),
                ..self
            }).ending(ThenView::Ask(at + 1)),
            Ok(OperationOutcomeView::Edit(e)) => {
                let placed = workspace::edit_for(e, root, self.workspace);
                if workspace::edit_admissible(placed, self.workspace) {
                    (
                        self.at(StageView::Describing(root, placed)),
                        ActView::FindRevision(self.workspace),
                    )
                } else {
                    self.ending(ThenView::Stop(OutcomeView::Failed(escapes())))
                }
            },
        }
    }

    /// The edit was looked at or made.
    pub open spec fn finished(
        self,
        root: Option<Seq<char>>,
        id: Option<Seq<char>>,
        did: Result<JsonView, ErrorView>,
    ) -> (RunView, ActView) {
        match did {
            Err(e) => self.ending(ThenView::Stop(OutcomeView::Failed(e))),
            Ok(v) => if self.dry_run {
                self.ending(
                    ThenView::Stop(OutcomeView::Edit(mcp::previewed(self.workspace, id, v))),
                )
            } else {
                let told = mcp::made(self.workspace, id, v);
                if on_base(root, self.workspace) {
                    (self.at(StageView::Syncing(told)), ActView::Sync)
                } else {
                    self.ending(ThenView::Stop(OutcomeView::Edit(told)))
                }
            },
        }
    }

    /// What follows when something came that the run waits for.
    pub open spec fn step(self, event: EventView) -> (RunView, ActView) {
        match (self.stage, event) {
            (StageView::Placing, EventView::WorkingCopy(root)) => self.placed(
                match root {
                    Some(r) => r,
                    None => self.project_root,
                },
            ),
            (StageView::Comparing, EventView::Repositories(a, b, c, d)) => self.compared(a, b, c, d),
            (StageView::Checking, EventView::Read(found, revision)) => self.checked(
                found,
                revision,
            ),
            (StageView::Opening(at), EventView::Opened(r)) => match r {
                Err(e) => self.stopped(OutcomeView::Failed(e)),
                Ok(root) => (self.at(StageView::Beginning(at, root)), ActView::Begin),
            },
            (StageView::Beginning(at, root), EventView::Begun) => if on_base(
                root,
                self.workspace,
            ) {
                (self.at(StageView::Running(at, root)), ActView::Run(self.asks[at]))
            } else {
                (self.at(StageView::Overlaying(at, root)), ActView::Overlay(self.workspace))
            },
            (StageView::Overlaying(at, root), EventView::Overlaid(r)) => match r {
                Err(e) => self.ending(ThenView::Stop(OutcomeView::Failed(e))),
                Ok(_) => (self.at(StageView::Running(at, root)), ActView::Run(self.asks[at])),
            },
            (StageView::Running(at, root), EventView::Ran(did)) => (
                self.at(StageView::Restoring(at, root, did)),
                ActView::Restore,
            ),
            (StageView::Restoring(at, root, did), EventView::Restored) => self.restored(
                at,
                root,
                did,
            ),
            (StageView::Describing(root, e), EventView::Revision(id)) => (
                self.at(StageView::Finishing(root, id)),
                if self.dry_run {
                    ActView::Preview(e)
                } else {
                    ActView::Apply(e)
                },
            ),
            (StageView::Finishing(root, id), EventView::Finished(did)) => self.finished(
                root,
                id,
                did,
            ),
            (StageView::Syncing(told), EventView::Synced) => self.ending(
                ThenView::Stop(OutcomeView::Edit(told)),
            ),
            (StageView::Ending(then), EventView::Ended) => match then {
                ThenView::Ask(at) => self.asking(at),
                ThenView::Stop(o) => self.stopped(o),
            },
            _ => self.stopped(OutcomeView::Queries(Seq::empty())),
        }
    }
}

// ---------------------------------------------------------------------------
// Running
// ---------------------------------------------------------------------------

impl Run {
    #[verifier::type_invariant]
    spec fn well_formed(self) -> bool {
        self@.in_order()
    }

    /// Begins to run an operation: who is asked and where it acts is planned.
    /// `named` is the working copy that the request names.
    pub fn start(
        target: Target,
        plan: Plan,
        project_root: String,
        named: Option<&str>,
        expect: Option<String>,
        dry_run: bool,
        map: &PathMap,
    ) -> (r: (Run, Act))
        ensures
            (r.0@, r.1@) == (RunView {
                target: target@,
                expect: view::maybe(expect),
                dry_run,
                project_root: project_root@,
                workspace: project_root@,
                asks: plan.asks@,
                failure: view::maybe(plan.failure),
                queries: Seq::empty(),
                stage: StageView::Placing,
            }).begun(view::maybe(named), map@),
    {
        let workspace = workspace::resolve_workspace(
            named,
            &target,
            project_root.as_str(),
            map,
            None,
        );
        let sought = match (named, target.file()) {
            (None, Some(file)) => if path::is_absolute(file.as_str()) {
                Some(file.clone())
            } else {
                None
            },
            _ => None,
        };
        let queries = json::no_values();
        match sought {
            Some(file) => {
                let here = project_root.clone();
                (
                    Run {
                        target,
                        expect,
                        dry_run,
                        project_root,
                        workspace: here,
                        asks: plan.asks,
                        failure: plan.failure,
                        queries,
                        stage: Stage::Placing,
                    },
                    Act::FindWorkingCopy(file),
                )
            },
            None => {
                let there = workspace.clone();
                (
                    Run {
                        target,
                        expect,
                        dry_run,
                        project_root,
                        workspace,
                        asks: plan.asks,
                        failure: plan.failure,
                        queries,
                        stage: Stage::Comparing,
                    },
                    Act::FindRepositories(there),
                )
            },
        }
    }

    /// Takes apart the stage and the rest.
    fn parted(self) -> (r: (Run, Stage))
        ensures
            r.0@ == self@.at(StageView::Over),
            r.1@ == self@.stage,
            self@.in_order(),
    {
        proof {
            use_type_invariant(&self);
        }
        (
            Run {
                target: self.target,
                expect: self.expect,
                dry_run: self.dry_run,
                project_root: self.project_root,
                workspace: self.workspace,
                asks: self.asks,
                failure: self.failure,
                queries: self.queries,
                stage: Stage::Over,
            },
            self.stage,
        )
    }

    fn moved(self, stage: Stage) -> (r: Run)
        requires
            self@.at(stage@).in_order(),
        ensures
            r@ == self@.at(stage@),
    {
        Run {
            target: self.target,
            expect: self.expect,
            dry_run: self.dry_run,
            project_root: self.project_root,
            workspace: self.workspace,
            asks: self.asks,
            failure: self.failure,
            queries: self.queries,
            stage,
        }
    }

    fn stop(self, outcome: Outcome) -> (r: (Run, Act))
        ensures
            (r.0@, r.1@) == self@.stopped(outcome@),
    {
        (self.moved(Stage::Over), Act::Stop(outcome))
    }

    fn end(self, then: Then) -> (r: (Run, Act))
        requires
            self@.at(StageView::Ending(then@)).in_order(),
        ensures
            (r.0@, r.1@) == self@.ending(then@),
    {
        (self.moved(Stage::Ending(then)), Act::End)
    }

    fn ask(self, at: usize) -> (r: (Run, Act))
        requires
            at <= self@.asks.len(),
            self@.queries.len() == at,
        ensures
            (r.0@, r.1@) == self@.asking(at as int),
    {
        if at < self.asks.len() {
            let next = self.asks[at];
            return (self.moved(Stage::Opening(at)), Act::Open(next));
        }
        let Run {
            target,
            expect,
            dry_run,
            project_root,
            workspace,
            asks,
            failure,
            queries,
            stage: _,
        } = self;
        match failure {
            Some(e) => {
                let kept = Error::new(e.kind, e.detail.clone());
                let over = Run {
                    target,
                    expect,
                    dry_run,
                    project_root,
                    workspace,
                    asks,
                    failure: Some(kept),
                    queries,
                    stage: Stage::Over,
                };
                (over, Act::Stop(Outcome::Failed(e)))
            },
            None => {
                let answers = json::copy_list(&queries);
                let over = Run {
                    target,
                    expect,
                    dry_run,
                    project_root,
                    workspace,
                    asks,
                    failure: None,
                    queries,
                    stage: Stage::Over,
                };
                (over, Act::Stop(Outcome::Queries(answers)))
            },
        }
    }

    fn place(self, workspace: String) -> (r: (Run, Act))
        requires
            self@.queries.len() == 0,
        ensures
            (r.0@, r.1@) == self@.placed(workspace@),
    {
        let there = workspace.clone();
        (
            Run {
                target: self.target,
                expect: self.expect,
                dry_run: self.dry_run,
                project_root: self.project_root,
                workspace,
                asks: self.asks,
                failure: self.failure,
                queries: self.queries,
                stage: Stage::Comparing,
            },
            Act::FindRepositories(there),
        )
    }

    fn compare(
        self,
        workspace_repo: Option<String>,
        project_repo: Option<String>,
        canonical_workspace: String,
        canonical_project: String,
    ) -> (r: (Run, Act))
        requires
            self@.queries.len() == 0,
        ensures
            (r.0@, r.1@) == self@.compared(
                view::maybe(workspace_repo),
                view::maybe(project_repo),
                canonical_workspace@,
                canonical_project@,
            ),
    {
        let a = match &workspace_repo {
            Some(t) => Some(t.as_str()),
            None => None,
        };
        let b = match &project_repo {
            Some(t) => Some(t.as_str()),
            None => None,
        };
        match workspace::ensure_same_repo(
            self.workspace.as_str(),
            a,
            b,
            canonical_workspace.as_str(),
            canonical_project.as_str(),
        ) {
            Err(e) => {
                return self.stop(Outcome::Failed(e));
            },
            Ok(_) => {},
        }
        let expected = match &self.expect {
            Some(t) => Some(t.as_str()),
            None => None,
        };
        match workspace::expectation_file(expected, &self.target, self.workspace.as_str()) {
            Some(file) => (self.moved(Stage::Checking), Act::Read(file)),
            None => self.ask(0),
        }
    }

    fn check(self, found: Result<Option<String>, String>, revision: Option<Revision>) -> (r: (
        Run,
        Act,
    ))
        requires
            self@.queries.len() == 0,
            self@.expects(),
        ensures
            (r.0@, r.1@) == self@.checked(
                match found {
                    Ok(t) => Ok(view::maybe(t)),
                    Err(why) => Err(why@),
                },
                view::maybe(revision),
            ),
    {
        let seen = match found {
            Ok(seen) => seen,
            Err(why) => {
                let file = match self.target.file() {
                    Some(file) => path::join(self.workspace.as_str(), file.as_str()),
                    None => path::join(self.workspace.as_str(), ""),
                };
                let e = workspace::unreadable(file.as_str(), why.as_str());
                return self.stop(Outcome::Failed(e));
            },
        };
        let text = match &seen {
            Some(t) => Some(t.as_str()),
            None => None,
        };
        let expected = match &self.expect {
            Some(t) => Some(t.as_str()),
            None => None,
        };
        let state = match &revision {
            Some(r) => Some(r),
            None => None,
        };
        match workspace::validate_expectation(
            expected,
            &self.target,
            text,
            self.workspace.as_str(),
            state,
        ) {
            Err(e) => self.stop(Outcome::Failed(e)),
            Ok(_) => self.ask(0),
        }
    }

    fn restore(self, at: usize, root: Option<String>, did: Result<OperationOutcome, Error>) -> (r: (
        Run,
        Act,
    ))
        requires
            at < self@.asks.len(),
            self@.queries.len() == at,
        ensures
            (r.0@, r.1@) == self@.restored(at as int, view::maybe(root), tried(did)),
    {
        match did {
            Err(e) => self.end(Then::Stop(Outcome::Failed(e))),
            Ok(OperationOutcome::Query(v)) => {
                let count: usize = self.asks.len();
                assert(at < count);
                let ghost before = self@;
                let ghost answer = v@;
                let answered = Run {
                    target: self.target,
                    expect: self.expect,
                    dry_run: self.dry_run,
                    project_root: self.project_root,
                    workspace: self.workspace,
                    asks: self.asks,
                    failure: self.failure,
                    queries: json::listed(self.queries, v),
                    stage: Stage::Over,
                };
                assert(answered@.queries =~= before.queries.push(answer));
                answered.end(Then::Ask(at + 1))
            },
            Ok(OperationOutcome::Edit(e)) => {
                let from = match &root {
                    Some(t) => Some(t.as_str()),
                    None => None,
                };
                match workspace::place_edit(e, from, self.workspace.as_str()) {
                    Err(failure) => self.end(Then::Stop(Outcome::Failed(failure))),
                    Ok(placed) => {
                        let there = self.workspace.clone();
                        (self.moved(Stage::Describing(root, placed)), Act::FindRevision(there))
                    },
                }
            },
        }
    }

    fn finish(self, root: Option<String>, id: Option<String>, did: Result<Json, Error>) -> (r: (
        Run,
        Act,
    ))
        ensures
            (r.0@, r.1@) == self@.finished(view::maybe(root), view::maybe(id), tried(did)),
    {
        let v = match did {
            Ok(v) => v,
            Err(e) => {
                return self.end(Then::Stop(Outcome::Failed(e)));
            },
        };
        if self.dry_run {
            return match mcp::preview_result(self.workspace.as_str(), &id, v) {
                DispatchResult::Edit(told) => self.end(Then::Stop(Outcome::Edit(told))),
                DispatchResult::Query(told) => self.end(Then::Stop(Outcome::Edit(told))),
            };
        }
        let told = match mcp::applied_result(self.workspace.as_str(), &id, v) {
            DispatchResult::Edit(told) => told,
            DispatchResult::Query(told) => told,
        };
        let from = match &root {
            Some(t) => Some(t.as_str()),
            None => None,
        };
        if workspace::is_base(from, self.workspace.as_str()) {
            (self.moved(Stage::Syncing(told)), Act::Sync)
        } else {
            self.end(Then::Stop(Outcome::Edit(told)))
        }
    }

    /// Whether what came is what the run waits for.
    pub fn awaits(&self, event: &Event) -> (r: bool)
        ensures
            r == self@.awaits(event@),
    {
        match (&self.stage, event) {
            (Stage::Placing, Event::WorkingCopy(_)) => true,
            (Stage::Comparing, Event::Repositories { .. }) => true,
            (Stage::Checking, Event::Read { .. }) => true,
            (Stage::Opening(_), Event::Opened(_)) => true,
            (Stage::Beginning(_, _), Event::Begun) => true,
            (Stage::Overlaying(_, _), Event::Overlaid(_)) => true,
            (Stage::Running(_, _), Event::Ran(_)) => true,
            (Stage::Restoring(_, _, _), Event::Restored) => true,
            (Stage::Describing(_, _), Event::Revision(_)) => true,
            (Stage::Finishing(_, _), Event::Finished(_)) => true,
            (Stage::Syncing(_), Event::Synced) => true,
            (Stage::Ending(_), Event::Ended) => true,
            _ => false,
        }
    }

    /// Goes on when something came that the run waits for, and says what is to
    /// be done next.
    pub fn next(self, event: Event) -> (r: (Run, Act))
        requires
            self@.awaits(event@),
        ensures
            (r.0@, r.1@) == self@.step(event@),
    {
        let ghost before = self@;
        let (run, stage) = self.parted();
        match (stage, event) {
            (Stage::Placing, Event::WorkingCopy(root)) => {
                let workspace = match root {
                    Some(r) => r,
                    None => run.project_root.clone(),
                };
                run.place(workspace)
            },
            (
                Stage::Comparing,
                Event::Repositories { workspace, project, canonical_workspace, canonical_project },
            ) => run.compare(workspace, project, canonical_workspace, canonical_project),
            (Stage::Checking, Event::Read { found, revision }) => run.check(found, revision),
            (Stage::Opening(at), Event::Opened(opened)) => match opened {
                Err(e) => run.stop(Outcome::Failed(e)),
                Ok(root) => (run.moved(Stage::Beginning(at, root)), Act::Begin),
            },
            (Stage::Beginning(at, root), Event::Begun) => {
                let from = match &root {
                    Some(t) => Some(t.as_str()),
                    None => None,
                };
                if workspace::is_base(from, run.workspace.as_str()) {
                    let asked = run.asks[at];
                    (run.moved(Stage::Running(at, root)), Act::Run(asked))
                } else {
                    let there = run.workspace.clone();
                    (run.moved(Stage::Overlaying(at, root)), Act::Overlay(there))
                }
            },
            (Stage::Overlaying(at, root), Event::Overlaid(laid)) => match laid {
                Err(e) => run.end(Then::Stop(Outcome::Failed(e))),
                Ok(_) => {
                    let asked = run.asks[at];
                    (run.moved(Stage::Running(at, root)), Act::Run(asked))
                },
            },
            (Stage::Running(at, root), Event::Ran(did)) => (
                run.moved(Stage::Restoring(at, root, did)),
                Act::Restore,
            ),
            (Stage::Restoring(at, root, did), Event::Restored) => run.restore(at, root, did),
            (Stage::Describing(root, e), Event::Revision(id)) => {
                let only_look = run.dry_run;
                let at_work = run.moved(Stage::Finishing(root, id));
                if only_look {
                    (at_work, Act::Preview(e))
                } else {
                    (at_work, Act::Apply(e))
                }
            },
            (Stage::Finishing(root, id), Event::Finished(did)) => run.finish(root, id, did),
            (Stage::Syncing(told), Event::Synced) => run.end(Then::Stop(Outcome::Edit(told))),
            (Stage::Ending(then), Event::Ended) => match then {
                Then::Ask(at) => run.ask(at),
                Then::Stop(o) => run.stop(o),
            },
            _ => run.stop(Outcome::Queries(json::no_values())),
        }
    }
}

// ---------------------------------------------------------------------------
// What runs promise
// ---------------------------------------------------------------------------

/// Whether a request to a backend is under way.
pub open spec fn under_way(stage: StageView) -> bool {
    match stage {
        StageView::Overlaying(_, _)
        | StageView::Running(_, _)
        | StageView::Restoring(_, _, _)
        | StageView::Describing(_, _)
        | StageView::Finishing(_, _)
        | StageView::Syncing(_)
        | StageView::Ending(_) => true,
        _ => false,
    }
}

/// Whether something is done to a backend or to files in the course of a
/// request.
pub open spec fn within_a_request(act: ActView) -> bool {
    match act {
        ActView::Overlay(_)
        | ActView::Run(_)
        | ActView::Restore
        | ActView::Preview(_)
        | ActView::Apply(_)
        | ActView::Sync => true,
        _ => false,
    }
}

/// A run stays in order.
pub proof fn runs_stay_in_order(run: RunView, event: EventView)
    requires
        run.in_order(),
        run.awaits(event),
    ensures
        run.step(event).0.in_order(),
{
}

/// A request that is under way ends only when the run says so: nothing else
/// leads out of it. So an edit is made, and the backend told of it, before
/// another request can reach the backend.
pub proof fn requests_end_only_when_said(run: RunView, event: EventView)
    requires
        run.in_order(),
        run.awaits(event),
    ensures
        under_way(run.stage) && !(run.stage is Ending) ==> under_way(run.step(event).0.stage),
        within_a_request(run.step(event).1) ==> under_way(run.step(event).0.stage),
        run.step(event).1 == ActView::End <==> run.step(event).0.stage is Ending,
        !under_way(run.stage) && under_way(run.step(event).0.stage) ==> run.stage is Beginning,
{
}

/// Whatever an operation did, the backend is given back what it knew right
/// after.
pub proof fn what_a_backend_knew_is_always_restored(run: RunView, event: EventView)
    requires
        run.in_order(),
        run.awaits(event),
        run.stage is Running,
    ensures
        run.step(event).1 == ActView::Restore,
{
}

/// No backend is asked before the caller was found to be right about the
/// target, where they say what they expect there.
pub proof fn expectations_are_met_first(run: RunView, event: EventView)
    requires
        run.in_order(),
        run.awaits(event),
        run.stage is Placing || run.stage is Comparing || run.stage is Checking,
        run.step(event).1 is Open,
        run.expects(),
    ensures
        event matches EventView::Read(Ok(found), _) && found == run.expect,
{
}

/// An edit that is looked at or made names no absolute path that leads out of
/// the working copy. Where edits are only to be looked at, none is made.
pub proof fn absolute_paths_lead_inside(run: RunView, event: EventView)
    requires
        run.in_order(),
        run.awaits(event),
    ensures
        run.step(event).1 matches ActView::Preview(e) ==> workspace::edit_admissible(e, run.workspace),
        run.step(event).1 matches ActView::Apply(e) ==> workspace::edit_admissible(e, run.workspace)
            && !run.dry_run,
{
}

/// A run that stops with answers has one of every backend in its plan, and the
/// plan did not end early.
pub proof fn answers_are_complete(run: RunView, event: EventView)
    requires
        run.in_order(),
        run.awaits(event),
        !(run.stage matches StageView::Ending(ThenView::Stop(_))),
    ensures
        run.step(event).1 matches ActView::Stop(OutcomeView::Queries(answers)) ==> answers.len()
            == run.asks.len() && run.failure is None,
{
}

/// How many steps a run can still take, at the most.
pub open spec fn steps_left(run: RunView) -> int {
    let all = run.asks.len() as int;
    match run.stage {
        StageView::Placing => 12 * all + 16,
        StageView::Comparing => 12 * all + 15,
        StageView::Checking => 12 * all + 14,
        StageView::Opening(at) => 12 * (all - at) + 12,
        StageView::Beginning(at, _) => 12 * (all - at) + 11,
        StageView::Overlaying(at, _) => 12 * (all - at) + 10,
        StageView::Running(at, _) => 12 * (all - at) + 9,
        StageView::Restoring(at, _, _) => 12 * (all - at) + 8,
        StageView::Describing(_, _) => 5,
        StageView::Finishing(_, _) => 4,
        StageView::Syncing(_) => 3,
        StageView::Ending(ThenView::Ask(at)) => 12 * (all - at) + 13,
        StageView::Ending(ThenView::Stop(_)) => 1,
        StageView::Over => 0,
    }
}

/// Every run comes to an end: with every step, fewer are left.
pub proof fn runs_come_to_an_end(run: RunView, event: EventView)
    requires
        run.in_order(),
        run.awaits(event),
    ensures
        0 <= steps_left(run.step(event).0) < steps_left(run),
        run.step(event).1 is Stop <==> run.step(event).0.stage is Over,
{
}

} // verus!
