//! One session of an editor: what each of its messages asks for, and what it is
//! answered.
//!
//! A session does no work itself. For each message it says what is to be done,
//! and it shapes what came of it into the response that the editor waits for.

use crate::error;
use crate::error::Error;
use crate::json;
use crate::json::Json;
use crate::json::JsonView;
use crate::json::Number;
use crate::json::NumberView;
use crate::json::Object;
use crate::lsp::mapping;
use crate::lsp::mapping::Identity;
use crate::lsp::mapping::IdentityView;
use crate::mcp::DispatchResult;
use crate::operation::OperationDescriptor;
use crate::operation::Target;
use crate::operation::TargetView;
use crate::ops;
use crate::text;
use crate::view;
use vstd::prelude::*;

verus! {

/// The code for a method that is not known.
pub const METHOD_NOT_FOUND: i64 = -32601;

/// The code for parameters that are at fault.
pub const INVALID_PARAMS: i64 = -32602;

/// The code for a failure of the server.
pub const INTERNAL_ERROR: i64 = -32603;

/// A failure that is reported for a request.
#[derive(Debug)]
pub struct Fail {
    /// Its code.
    pub code: i64,
    /// What is said of it.
    pub message: String,
}

/// What such a failure is.
#[verifier::ext_equal]
pub struct FailView {
    /// Its code.
    pub code: i64,
    /// What is said of it.
    pub message: Seq<char>,
}

impl View for Fail {
    type V = FailView;

    open spec fn view(&self) -> FailView {
        FailView { code: self.code, message: self.message@ }
    }
}

/// A failure for parameters that are at fault.
pub open spec fn at_fault(message: Seq<char>) -> FailView {
    FailView { code: INVALID_PARAMS, message }
}

impl Fail {
    /// A failure for a method that is not known.
    pub fn method_not_found(method: &str) -> (r: Fail)
        ensures
            r@ == (FailView {
                code: METHOD_NOT_FOUND,
                message: "method not supported: "@ + method@,
            }),
    {
        Fail { code: METHOD_NOT_FOUND, message: text::cat("method not supported: ", method) }
    }

    /// A failure for parameters that are at fault.
    pub fn invalid_params(message: String) -> (r: Fail)
        ensures
            r@ == at_fault(message@),
    {
        Fail { code: INVALID_PARAMS, message }
    }
}

/// How a failure of an operation is told to the editor.
pub open spec fn failed_as(err: error::ErrorView, message: Seq<char>) -> FailView {
    FailView {
        code: if error::callers_fault(err.kind) {
            INVALID_PARAMS
        } else {
            INTERNAL_ERROR
        },
        message,
    }
}

/// The failure that is reported for an error. `message` tells of it.
pub fn core_fail(err: &Error, message: String) -> (r: Fail)
    ensures
        r@ == failed_as(err@, message@),
{
    if err.is_callers() {
        Fail::invalid_params(message)
    } else {
        Fail { code: INTERNAL_ERROR, message }
    }
}

// ---------------------------------------------------------------------------
// Messages
// ---------------------------------------------------------------------------

/// A message of an editor.
#[derive(Debug)]
pub enum Incoming {
    /// The session is over.
    Exit,
    /// Nothing has to be done.
    Notification,
    /// Something is asked for.
    Request {
        /// What the answer is marked with.
        id: Json,
        /// What is asked for.
        method: String,
        /// About what.
        params: Json,
    },
}

/// What a message asks for.
pub open spec fn method_of(message: JsonView) -> Seq<char> {
    match message.text_at("method"@) {
        Some(m) => m,
        None => ""@,
    }
}

/// What a message is about.
pub open spec fn params_of(message: JsonView) -> JsonView {
    match message.get("params"@) {
        Some(p) => p,
        None => JsonView::Null,
    }
}

/// Reads a message. One without an id wants no answer; documents that change in
/// the editor are not followed, since the working copy is read from disk.
pub fn read_incoming(message: &Json) -> (r: Incoming)
    ensures
        match message@.get("id"@) {
            None => if method_of(message@) == "exit"@ {
                r is Exit
            } else {
                r is Notification
            },
            Some(mark) => r matches Incoming::Request { id, method, params } && id@ == mark
                && method@ == method_of(message@) && params@ == params_of(message@),
        },
{
    let method = match message.str_at("method") {
        Some(m) => m,
        None => "",
    };
    match message.get("id") {
        None => if text::same(method, "exit") {
            Incoming::Exit
        } else {
            Incoming::Notification
        },
        Some(id) => {
            let params = match message.get("params") {
                Some(p) => p.clone(),
                None => Json::Null,
            };
            Incoming::Request { id: id.clone(), method: method.to_owned(), params }
        },
    }
}

/// What a request is answered with.
pub open spec fn replied(id: JsonView, result: JsonView) -> JsonView {
    JsonView::Object(map!["jsonrpc"@ => json::txt("2.0"), "id"@ => id, "result"@ => result])
}

/// The answer to a request.
pub fn reply(id: &Json, result: Json) -> (r: Json)
    ensures
        r@ == replied(id@, result@),
{
    Json::Object(
        Object::new().with("jsonrpc", Json::text("2.0")).with("id", id.clone()).with(
            "result",
            result,
        ),
    )
}

/// A number that may be negative.
pub open spec fn signed(n: i64) -> JsonView {
    if n < 0 {
        JsonView::Number(NumberView::Negative(n))
    } else {
        JsonView::Number(NumberView::Unsigned(n as u64))
    }
}

/// What a request that failed is answered with.
pub open spec fn refused(id: JsonView, fail: FailView) -> JsonView {
    JsonView::Object(
        map![
            "jsonrpc"@ => json::txt("2.0"),
            "id"@ => id,
            "error"@ => JsonView::Object(
                map!["code"@ => signed(fail.code), "message"@ => JsonView::Text(fail.message)],
            )
        ],
    )
}

/// The answer to a request that failed.
pub fn reply_error(id: &Json, fail: Fail) -> (r: Json)
    ensures
        r@ == refused(id@, fail@),
{
    let code = if fail.code < 0 {
        Json::Number(Number::Negative(fail.code))
    } else {
        Json::Number(Number::Unsigned(fail.code as u64))
    };
    Json::Object(
        Object::new().with("jsonrpc", Json::text("2.0")).with("id", id.clone()).with(
            "error",
            Json::Object(
                Object::new().with("code", code).with("message", Json::Text(fail.message)),
            ),
        ),
    )
}

// ---------------------------------------------------------------------------
// Requests
// ---------------------------------------------------------------------------

/// The response that the answer to an operation becomes.
#[derive(Clone, Copy, Debug, PartialEq, Eq, Structural)]
pub enum Shape {
    /// Places, of usages.
    Usages,
    /// Places, of definitions.
    Definitions,
    /// Places, of implementations.
    Implementations,
    /// A description.
    Hover,
    /// The symbols of a file.
    Outline,
    /// Handles on declarations.
    Items,
    /// Callers.
    Incoming,
    /// What is called.
    Outgoing,
    /// The answer itself.
    Whole,
}

/// An operation that is to be run.
#[derive(Debug)]
pub struct Work {
    /// The operation.
    pub operation: String,
    /// Where it acts.
    pub target: Target,
    /// Its own parameters.
    pub params: Json,
    /// The project.
    pub project_id: String,
    /// The working copy, where it is not the project's own checkout.
    pub workspace: Option<String>,
    /// Whether an edit is only previewed.
    pub dry_run: bool,
    /// What its answer becomes.
    pub shape: Shape,
}

/// What such work is.
#[verifier::ext_equal]
pub struct WorkView {
    /// The operation.
    pub operation: Seq<char>,
    /// Where it acts.
    pub target: TargetView,
    /// Its own parameters.
    pub params: JsonView,
    /// The project.
    pub project_id: Seq<char>,
    /// The working copy.
    pub workspace: Option<Seq<char>>,
    /// Whether an edit is only previewed.
    pub dry_run: bool,
    /// What its answer becomes.
    pub shape: Shape,
}

impl View for Work {
    type V = WorkView;

    open spec fn view(&self) -> WorkView {
        WorkView {
            operation: self.operation@,
            target: self.target@,
            params: self.params@,
            project_id: self.project_id@,
            workspace: view::maybe(self.workspace),
            dry_run: self.dry_run,
            shape: self.shape,
        }
    }
}

/// What is to be done for a request.
#[derive(Debug)]
pub enum Step {
    /// The projects are looked through again, and the editor is told what the
    /// server can do.
    Welcome,
    /// An answer is given at once.
    Answer(Json),
    /// An operation is run.
    Run(Work),
    /// An operation that the editor names is run, with arguments.
    Command {
        /// The operation.
        command: String,
        /// Its arguments.
        args: Object,
        /// The project.
        project_id: String,
        /// The working copy, where it is not the project's own checkout.
        workspace: Option<String>,
    },
}

/// What such a step is.
#[verifier::ext_equal]
pub enum StepView {
    /// The editor is welcomed.
    Welcome,
    /// An answer is given at once.
    Answer(JsonView),
    /// An operation is run.
    Run(WorkView),
    /// An operation that the editor names is run.
    Command {
        /// The operation.
        command: Seq<char>,
        /// Its arguments.
        args: Map<Seq<char>, JsonView>,
        /// The project.
        project_id: Seq<char>,
        /// The working copy.
        workspace: Option<Seq<char>>,
    },
}

impl View for Step {
    type V = StepView;

    open spec fn view(&self) -> StepView {
        match *self {
            Step::Welcome => StepView::Welcome,
            Step::Answer(j) => StepView::Answer(j@),
            Step::Run(w) => StepView::Run(w@),
            Step::Command { command, args, project_id, workspace } => StepView::Command {
                command: command@,
                args: args@,
                project_id: project_id@,
                workspace: view::maybe(workspace),
            },
        }
    }
}

/// The failure for a request before the editor has named its folder.
pub open spec fn no_workspace() -> FailView {
    at_fault("no workspace: send `initialize` first"@)
}

/// An operation that is run for the project that the editor opened.
pub open spec fn run_of(
    identity: Option<IdentityView>,
    operation: &str,
    target: Result<TargetView, Seq<char>>,
    params: JsonView,
    dry_run: bool,
    shape: Shape,
) -> Result<StepView, FailView> {
    match target {
        Err(m) => Err(at_fault(m)),
        Ok(target) => match identity {
            None => Err(no_workspace()),
            Some(id) => Ok(
                StepView::Run(
                    WorkView {
                        operation: operation@,
                        target,
                        params,
                        project_id: id.project_id,
                        workspace: id.workspace,
                        dry_run,
                        shape,
                    },
                ),
            ),
        },
    }
}

/// The target of a request on a whole document.
pub open spec fn file_target_of(params: JsonView) -> Result<TargetView, Seq<char>> {
    match mapping::document_uri(params) {
        Some(u) => Ok(TargetView::File { file: crate::uri::path_of(u) }),
        None => Err("missing `textDocument.uri`"@),
    }
}

/// The parameters of a request about a handle.
pub open spec fn item_params_of(params: JsonView) -> Option<JsonView> {
    match params.get("item"@) {
        Some(item) => if item is Object {
            Some(JsonView::Object(map!["item"@ => item]))
        } else {
            None
        },
        None => None,
    }
}

/// A request about a handle.
pub open spec fn handle_run(
    identity: Option<IdentityView>,
    operation: &str,
    params: JsonView,
    shape: Shape,
) -> Result<StepView, FailView> {
    match item_params_of(params) {
        None => Err(at_fault("missing call hierarchy `item`"@)),
        Some(own) => run_of(identity, operation, Ok(TargetView::Project), own, true, shape),
    }
}

/// No parameters.
pub open spec fn nothing() -> JsonView {
    JsonView::Object(Map::empty())
}

/// The new name that a request gives.
pub open spec fn new_name_of(params: JsonView) -> Option<Seq<char>> {
    match params.text_at("newName"@) {
        Some(t) => if t.len() == 0 {
            None
        } else {
            Some(t)
        },
        None => None,
    }
}

/// The arguments of a command: the first of them, where it is an object.
pub open spec fn command_args(params: JsonView) -> Map<Seq<char>, JsonView> {
    match params.items_at("arguments"@) {
        Some(s) => if s.len() > 0 && s[0] is Object {
            s[0]->Object_0
        } else {
            Map::empty()
        },
        None => Map::empty(),
    }
}

/// A request for an operation that the editor names.
pub open spec fn command_step(identity: Option<IdentityView>, params: JsonView) -> Result<
    StepView,
    FailView,
> {
    match params.text_at("command"@) {
        None => Err(at_fault("missing `command`"@)),
        Some(command) => match identity {
            None => Err(no_workspace()),
            Some(id) => Ok(
                StepView::Command {
                    command,
                    args: command_args(params),
                    project_id: id.project_id,
                    workspace: id.workspace,
                },
            ),
        },
    }
}

/// A rename. It is made by the server, which then tells what it changed.
pub open spec fn rename_step(identity: Option<IdentityView>, params: JsonView) -> Result<
    StepView,
    FailView,
> {
    match mapping::position_target_of(params) {
        Err(m) => Err(at_fault(m)),
        Ok(target) => match new_name_of(params) {
            None => Err(at_fault("missing `newName`"@)),
            Some(name) => run_of(
                identity,
                "rename",
                Ok(target),
                JsonView::Object(map!["new_name"@ => JsonView::Text(name)]),
                false,
                Shape::Whole,
            ),
        },
    }
}

/// What is to be done for a request.
pub open spec fn step_of(
    identity: Option<IdentityView>,
    method: Seq<char>,
    params: JsonView,
) -> Result<StepView, FailView> {
    let at = mapping::position_target_of(params);
    if method == "initialize"@ {
        Ok(StepView::Welcome)
    } else if method == "initialized"@ || method == "shutdown"@ {
        Ok(StepView::Answer(JsonView::Null))
    } else if method == "textDocument/references"@ {
        run_of(identity, "find-usages", at, nothing(), true, Shape::Usages)
    } else if method == "textDocument/definition"@ {
        run_of(identity, "go-to-definition", at, nothing(), true, Shape::Definitions)
    } else if method == "textDocument/implementation"@ {
        run_of(identity, "find-implementations", at, nothing(), true, Shape::Implementations)
    } else if method == "textDocument/hover"@ {
        run_of(identity, "describe-symbol", at, nothing(), true, Shape::Hover)
    } else if method == "textDocument/documentSymbol"@ {
        run_of(identity, "file-outline", file_target_of(params), nothing(), true, Shape::Outline)
    } else if method == "textDocument/prepareCallHierarchy"@ {
        run_of(identity, "prepare-call-hierarchy", at, nothing(), true, Shape::Items)
    } else if method == "callHierarchy/incomingCalls"@ {
        handle_run(identity, "incoming-calls", params, Shape::Incoming)
    } else if method == "callHierarchy/outgoingCalls"@ {
        handle_run(identity, "outgoing-calls", params, Shape::Outgoing)
    } else if method == "textDocument/rename"@ {
        rename_step(identity, params)
    } else if method == "textDocument/prepareRename"@ {
        Ok(StepView::Answer(JsonView::Null))
    } else if method == "workspace/executeCommand"@ {
        command_step(identity, params)
    } else if method == "textDocument/codeAction"@ {
        Ok(StepView::Answer(JsonView::List(Seq::empty())))
    } else {
        Err(
            FailView { code: METHOD_NOT_FOUND, message: "method not supported: "@ + method },
        )
    }
}

/// What a step that may fail is.
pub open spec fn stepped(r: Result<Step, Fail>) -> Result<StepView, FailView> {
    match r {
        Ok(s) => Ok(s@),
        Err(f) => Err(f@),
    }
}

/// A session of an editor.
#[derive(Debug)]
pub struct Session {
    identity: Option<Identity>,
}

impl Session {
    /// What the editor's folder stands for.
    pub closed spec fn opened(&self) -> Option<IdentityView> {
        view::maybe(self.identity)
    }

    /// A session in which nothing was said yet.
    pub fn new() -> (r: Session)
        ensures
            r.opened() is None,
    {
        Session { identity: None }
    }

    fn run(
        &self,
        operation: &str,
        target: Result<Target, String>,
        params: Json,
        dry_run: bool,
        shape: Shape,
    ) -> (r: Result<Step, Fail>)
        ensures
            stepped(r) == run_of(
                self.opened(),
                operation,
                mapping::said(target),
                params@,
                dry_run,
                shape,
            ),
    {
        let target = match target {
            Ok(target) => target,
            Err(m) => {
                return Err(Fail::invalid_params(m));
            },
        };
        match &self.identity {
            None => Err(
                Fail::invalid_params("no workspace: send `initialize` first".to_owned()),
            ),
            Some(id) => {
                let workspace = match &id.workspace {
                    Some(w) => Some(w.clone()),
                    None => None,
                };
                Ok(
                    Step::Run(
                        Work {
                            operation: operation.to_owned(),
                            target,
                            params,
                            project_id: id.project_id.clone(),
                            workspace,
                            dry_run,
                            shape,
                        },
                    ),
                )
            },
        }
    }

    fn run_for_handle(&self, operation: &str, params: &Json, shape: Shape) -> (r: Result<
        Step,
        Fail,
    >)
        ensures
            stepped(r) == handle_run(self.opened(), operation, params@, shape),
    {
        match params.get("item") {
            Some(item) => if item.is_object() {
                let own = Json::Object(Object::new().with("item", item.clone()));
                return self.run(operation, Ok(Target::Project), own, true, shape);
            },
            None => {},
        }
        Err(Fail::invalid_params("missing call hierarchy `item`".to_owned()))
    }

    fn rename(&self, params: &Json) -> (r: Result<Step, Fail>)
        ensures
            stepped(r) == rename_step(self.opened(), params@),
    {
        let target = match mapping::position_target(params) {
            Ok(target) => target,
            Err(m) => {
                return Err(Fail::invalid_params(m));
            },
        };
        if let Some(name) = params.str_at("newName") {
            if !text::is_empty(name) {
                let own = Json::Object(Object::new().with("new_name", Json::text(name)));
                return self.run("rename", Ok(target), own, false, Shape::Whole);
            }
        }
        Err(Fail::invalid_params("missing `newName`".to_owned()))
    }

    fn execute_command(&self, params: &Json) -> (r: Result<Step, Fail>)
        ensures
            stepped(r) == command_step(self.opened(), params@),
    {
        let command = match params.str_at("command") {
            Some(command) => command,
            None => {
                return Err(Fail::invalid_params("missing `command`".to_owned()));
            },
        };
        let mut args = Object::new();
        if let Some(list) = params.array_at("arguments") {
            if list.len() > 0 {
                assert(json::list_view(list@)[0] == list@[0]@);
                if let Json::Object(o) = &list[0] {
                    args = o.clone();
                }
            }
        }
        assert(args@ == command_args(params@));
        match &self.identity {
            None => Err(
                Fail::invalid_params("no workspace: send `initialize` first".to_owned()),
            ),
            Some(id) => {
                let workspace = match &id.workspace {
                    Some(w) => Some(w.clone()),
                    None => None,
                };
                Ok(
                    Step::Command {
                        command: command.to_owned(),
                        args,
                        project_id: id.project_id.clone(),
                        workspace,
                    },
                )
            },
        }
    }

    /// What is to be done for a request. The first of them names the editor's
    /// folder, and with it the project.
    #[verifier::rlimit(30)]
    pub fn on_request(&mut self, method: &str, params: &Json) -> (r: Result<Step, Fail>)
        ensures
            stepped(r) == step_of(old(self).opened(), method@, params@),
            final(self).opened() == (if method@ == "initialize"@ {
                mapping::identity_of(params@)
            } else {
                old(self).opened()
            }),
    {
        if text::same(method, "initialize") {
            self.identity = mapping::identity(params);
            Ok(Step::Welcome)
        } else if text::same(method, "initialized") || text::same(method, "shutdown") {
            Ok(Step::Answer(Json::Null))
        } else if text::same(method, "textDocument/references") {
            self.run(
                "find-usages",
                mapping::position_target(params),
                Json::empty_object(),
                true,
                Shape::Usages,
            )
        } else if text::same(method, "textDocument/definition") {
            self.run(
                "go-to-definition",
                mapping::position_target(params),
                Json::empty_object(),
                true,
                Shape::Definitions,
            )
        } else if text::same(method, "textDocument/implementation") {
            self.run(
                "find-implementations",
                mapping::position_target(params),
                Json::empty_object(),
                true,
                Shape::Implementations,
            )
        } else if text::same(method, "textDocument/hover") {
            self.run(
                "describe-symbol",
                mapping::position_target(params),
                Json::empty_object(),
                true,
                Shape::Hover,
            )
        } else if text::same(method, "textDocument/documentSymbol") {
            self.run(
                "file-outline",
                mapping::file_target(params),
                Json::empty_object(),
                true,
                Shape::Outline,
            )
        } else if text::same(method, "textDocument/prepareCallHierarchy") {
            self.run(
                "prepare-call-hierarchy",
                mapping::position_target(params),
                Json::empty_object(),
                true,
                Shape::Items,
            )
        } else if text::same(method, "callHierarchy/incomingCalls") {
            self.run_for_handle("incoming-calls", params, Shape::Incoming)
        } else if text::same(method, "callHierarchy/outgoingCalls") {
            self.run_for_handle("outgoing-calls", params, Shape::Outgoing)
        } else if text::same(method, "textDocument/rename") {
            self.rename(params)
        } else if text::same(method, "textDocument/prepareRename") {
            Ok(Step::Answer(Json::Null))
        } else if text::same(method, "workspace/executeCommand") {
            self.execute_command(params)
        } else if text::same(method, "textDocument/codeAction") {
            Ok(Step::Answer(Json::List(json::no_values())))
        } else {
            Err(Fail::method_not_found(method))
        }
    }

    /// The folder that the editor opened.
    pub fn folder(&self) -> (r: &str)
        ensures
            r@ == (match self.opened() {
                Some(id) => id.folder,
                None => ""@,
            }),
    {
        match &self.identity {
            Some(id) => id.folder.as_str(),
            None => "",
        }
    }
}

/// The arguments of a command as a request, for the operation that it names.
pub fn command_request(descriptor: &OperationDescriptor, args: &Object) -> (r: Result<
    crate::mcp::Request,
    Fail,
>)
    ensures
        match ops::target_in(args@, descriptor@.target) {
            Err(e) => r is Err && r->Err_0@ == at_fault(e.message),
            Ok(target) => r is Ok && ({
                let request = r->Ok_0;
                &&& request.target@ == target
                &&& request.params@ == JsonView::Object(ops::own_arguments(args@))
                &&& request.workspace is None
                &&& view::maybe(request.expect) == ops::given(args@, "expect"@)
                &&& request.dry_run == ops::wants_preview(args@)
            }),
        },
{
    match ops::parse_target(args, descriptor.target) {
        Err(e) => Err(Fail::invalid_params(e.message)),
        Ok(target) => Ok(
            crate::mcp::Request {
                target,
                params: ops::operation_params(args),
                workspace: None,
                expect: ops::expect(args),
                dry_run: ops::dry_run(args),
            },
        ),
    }
}

// ---------------------------------------------------------------------------
// Responses
// ---------------------------------------------------------------------------

/// The response that an answer becomes.
pub open spec fn shaped(shape: Shape, query: JsonView, folder: Seq<char>) -> JsonView {
    match shape {
        Shape::Usages => JsonView::List(
            mapping::locations_in(mapping::entries_of(query, "usages"@), folder),
        ),
        Shape::Definitions => JsonView::List(
            mapping::locations_in(mapping::entries_of(query, "definitions"@), folder),
        ),
        Shape::Implementations => JsonView::List(
            mapping::locations_in(mapping::entries_of(query, "implementations"@), folder),
        ),
        Shape::Hover => mapping::hover_in(query),
        Shape::Outline => JsonView::List(mapping::symbols_in(mapping::entries_of(query, "symbols"@))),
        Shape::Items => JsonView::List(
            view::kept(mapping::handles_in(mapping::entries_of(query, "items"@))),
        ),
        Shape::Incoming => JsonView::List(
            view::kept(mapping::calls_in(mapping::entries_of(query, "calls"@), "from"@)),
        ),
        Shape::Outgoing => JsonView::List(
            view::kept(mapping::calls_in(mapping::entries_of(query, "calls"@), "to"@)),
        ),
        Shape::Whole => query,
    }
}

/// Whether an answer can become a response: the text of its entries can go
/// along with their handles.
pub open spec fn can_shape(shape: Shape, query: JsonView) -> bool {
    match shape {
        Shape::Items => mapping::all_handles_can_carry(mapping::entries_of(query, "items"@)),
        Shape::Incoming => mapping::all_calls_can_carry(
            mapping::entries_of(query, "calls"@),
            "from"@,
        ),
        Shape::Outgoing => mapping::all_calls_can_carry(mapping::entries_of(query, "calls"@), "to"@),
        _ => true,
    }
}

/// The answer that an operation gave, whatever it did.
pub open spec fn value_in(result: DispatchResult) -> JsonView {
    match result {
        DispatchResult::Query(v) => v@,
        DispatchResult::Edit(v) => v@,
    }
}

/// The answer that an operation gave, whatever it did.
pub fn into_value(result: DispatchResult) -> (r: Json)
    ensures
        r@ == value_in(result),
{
    match result {
        DispatchResult::Query(v) => v,
        DispatchResult::Edit(v) => v,
    }
}

/// Whether an answer can become a response.
pub fn shape_fits(shape: Shape, query: &Json) -> (r: bool)
    ensures
        r == can_shape(shape, query@),
{
    match shape {
        Shape::Items => mapping::handles_can_carry(query),
        Shape::Incoming => mapping::calls_can_carry(query, "from"),
        Shape::Outgoing => mapping::calls_can_carry(query, "to"),
        _ => true,
    }
}

/// The response that an answer becomes.
pub fn respond(shape: Shape, query: Json, folder: &str) -> (r: Json)
    requires
        can_shape(shape, query@),
    ensures
        r@ == shaped(shape, query@, folder@),
{
    match shape {
        Shape::Usages => mapping::locations(&query, "usages", folder),
        Shape::Definitions => mapping::locations(&query, "definitions", folder),
        Shape::Implementations => mapping::locations(&query, "implementations", folder),
        Shape::Hover => mapping::hover(&query),
        Shape::Outline => mapping::outline(&query),
        Shape::Items => mapping::call_hierarchy_items(&query),
        Shape::Incoming => mapping::calls(&query, "from"),
        Shape::Outgoing => mapping::calls(&query, "to"),
        Shape::Whole => query,
    }
}

/// What the server can do, as the editor is told.
pub open spec fn capabilities_of(commands: Seq<Seq<char>>, version: Seq<char>) -> JsonView {
    JsonView::Object(
        map![
            "capabilities"@ => JsonView::Object(
                map![
                    "positionEncoding"@ => json::txt("utf-16"),
                    "referencesProvider"@ => JsonView::Bool(true),
                    "definitionProvider"@ => JsonView::Bool(true),
                    "implementationProvider"@ => JsonView::Bool(true),
                    "hoverProvider"@ => JsonView::Bool(true),
                    "documentSymbolProvider"@ => JsonView::Bool(true),
                    "callHierarchyProvider"@ => JsonView::Bool(true),
                    "renameProvider"@ => JsonView::Object(
                        map!["prepareProvider"@ => JsonView::Bool(true)],
                    ),
                    "executeCommandProvider"@ => JsonView::Object(
                        map![
                            "commands"@ => JsonView::List(
                                Seq::new(commands.len(), |i: int| JsonView::Text(commands[i])),
                            )
                        ],
                    )
                ],
            ),
            "serverInfo"@ => JsonView::Object(
                map!["name"@ => json::txt("henka"), "version"@ => JsonView::Text(version)],
            )
        ],
    )
}

/// What the server can do, as the editor is told. `commands` are the ids of the
/// operations.
pub fn capabilities(commands: &Vec<String>, version: &str) -> (r: Json)
    ensures
        r@ == capabilities_of(view::each(commands@), version@),
{
    let ghost all = view::each(commands@);
    let mut ids = json::no_values();
    let mut i: usize = 0;
    let ghost wanted = Seq::new(all.len(), |i: int| JsonView::Text(all[i]));
    assert(json::list_view(ids@) =~= wanted.take(0));
    while i < commands.len()
        invariant
            i <= commands@.len(),
            all == view::each(commands@),
            wanted == Seq::new(all.len(), |i: int| JsonView::Text(all[i])),
            json::list_view(ids@) == wanted.take(i as int),
        decreases commands@.len() - i,
    {
        assert(all[i as int] == commands@[i as int]@);
        ids = json::listed(ids, Json::text(commands[i].as_str()));
        assert(wanted.take(i + 1) =~= wanted.take(i as int).push(wanted[i as int]));
        i += 1;
    }
    assert(wanted.take(all.len() as int) =~= wanted);
    let can = Object::new().with("positionEncoding", Json::text("utf-16")).with(
        "referencesProvider",
        Json::Bool(true),
    ).with("definitionProvider", Json::Bool(true)).with(
        "implementationProvider",
        Json::Bool(true),
    ).with("hoverProvider", Json::Bool(true)).with("documentSymbolProvider", Json::Bool(true)).with(
        "callHierarchyProvider",
        Json::Bool(true),
    ).with(
        "renameProvider",
        Json::Object(Object::new().with("prepareProvider", Json::Bool(true))),
    ).with(
        "executeCommandProvider",
        Json::Object(Object::new().with("commands", Json::List(ids))),
    );
    Json::Object(
        Object::new().with("capabilities", Json::Object(can)).with(
            "serverInfo",
            Json::Object(
                Object::new().with("name", Json::text("henka")).with(
                    "version",
                    Json::text(version),
                ),
            ),
        ),
    )
}

/// A session that has not been told of a folder runs nothing.
pub proof fn nothing_runs_before_a_folder_is_named(method: Seq<char>, params: JsonView)
    ensures
        !(step_of(None, method, params) matches Ok(StepView::Run(_))),
        !(step_of(None, method, params) matches Ok(StepView::Command { .. })),
{
}

/// A request that is no rename only reads: what it runs is never more than
/// tried.
pub proof fn only_renames_write(
    identity: Option<IdentityView>,
    method: Seq<char>,
    params: JsonView,
)
    ensures
        step_of(identity, method, params) matches Ok(StepView::Run(work)) ==> work.dry_run || method
            == "textDocument/rename"@,
{
}

} // verus!
