//! What is known for the time that an editor is connected.
//!
//! Which project the editor's folder is gets looked up when it is first needed,
//! and again after every failed attempt: to register the project is enough to
//! make a running session work.

use crate::json;
use crate::json::Json;
use crate::json::JsonView;
use crate::json::Object;
use crate::language;
use crate::language::Language;
use crate::proxy::documents::Documents;
use crate::proxy::mcp;
use crate::proxy::mcp::McpClientError;
use crate::proxy::mcp::McpClientErrorView;
use crate::proxy::project;
use crate::proxy::project::RegisteredProject;
use crate::proxy::project::RegisteredProjectView;
use crate::text;
use crate::view;
use crate::wire;
use crate::wire::Malformed;
use vstd::prelude::*;

verus! {

// ---------------------------------------------------------------------------
// Errors
// ---------------------------------------------------------------------------

/// What kind of error an editor is told.
#[derive(Clone, Copy, Debug, PartialEq, Eq, Structural)]
pub enum LspErrorCode {
    /// The request itself is wrong.
    InvalidParams,
    /// The request could not be carried out.
    InternalError,
}

/// An error that an editor is told.
#[derive(Clone, Debug, PartialEq, Eq)]
pub struct LspError {
    /// Its kind.
    pub code: LspErrorCode,
    /// What is said.
    pub message: String,
}

/// What such an error is.
#[verifier::ext_equal]
pub struct LspErrorView {
    /// Its kind.
    pub code: LspErrorCode,
    /// What is said.
    pub message: Seq<char>,
}

impl View for LspError {
    type V = LspErrorView;

    open spec fn view(&self) -> LspErrorView {
        LspErrorView { code: self.code, message: self.message@ }
    }
}

/// An error of a request that is wrong.
pub open spec fn invalid(message: Seq<char>) -> LspErrorView {
    LspErrorView { code: LspErrorCode::InvalidParams, message }
}

/// The error of a failed call.
pub open spec fn internal(e: McpClientErrorView) -> LspErrorView {
    LspErrorView { code: LspErrorCode::InternalError, message: e.message() }
}

impl LspError {
    /// An error of a request that is wrong.
    pub fn invalid_params(message: String) -> (r: LspError)
        ensures
            r@ == invalid(message@),
    {
        LspError { code: LspErrorCode::InvalidParams, message }
    }
}

/// The error of a failed call, with what was said of it word for word.
pub fn internal_error(e: &McpClientError) -> (r: LspError)
    ensures
        r@ == internal(e@),
{
    LspError { code: LspErrorCode::InternalError, message: e.message() }
}

// ---------------------------------------------------------------------------
// Operations
// ---------------------------------------------------------------------------

/// What an operation is asked about.
#[derive(Clone, Copy, Debug, PartialEq, Eq, Structural)]
pub enum TargetKind {
    /// A position in a file.
    Position,
    /// A selection in a file.
    Selection,
    /// A file.
    File,
    /// The whole project.
    Project,
}

impl Default for TargetKind {
    fn default() -> (r: TargetKind)
        ensures
            r == TargetKind::Position,
    {
        TargetKind::Position
    }
}

/// An operation of the remote server, as far as an editor has to know it.
#[derive(Clone, Debug)]
pub struct OperationDescriptor {
    /// Its id.
    pub id: String,
    /// Its name for people.
    pub title: String,
    /// The kind of code action that it is, if it is one.
    pub code_action_kind: Option<String>,
    /// What it is asked about.
    pub target: TargetKind,
    /// The names of the languages that it works on.
    pub languages: Vec<String>,
}

/// What such an operation is.
#[verifier::ext_equal]
pub struct OperationDescriptorView {
    /// Its id.
    pub id: Seq<char>,
    /// Its name for people.
    pub title: Seq<char>,
    /// The kind of code action that it is, if it is one.
    pub code_action_kind: Option<Seq<char>>,
    /// What it is asked about.
    pub target: TargetKind,
    /// The names of the languages that it works on.
    pub languages: Seq<Seq<char>>,
}

impl View for OperationDescriptor {
    type V = OperationDescriptorView;

    open spec fn view(&self) -> OperationDescriptorView {
        OperationDescriptorView {
            id: self.id@,
            title: self.title@,
            code_action_kind: view::maybe(self.code_action_kind),
            target: self.target,
            languages: view::each(self.languages@),
        }
    }
}

impl OperationDescriptorView {
    /// Whether the operation is offered for a file. One that names no languages
    /// is offered for all, and a file of no known language is left to the
    /// remote server to judge.
    pub open spec fn serves(self, file: Seq<char>) -> bool {
        ||| self.languages.len() == 0
        ||| match language::language_of(file) {
            Some(l) => self.languages.contains(language::language_name(l)),
            None => true,
        }
    }
}

impl OperationDescriptor {
    /// Whether the operation is offered for a file.
    pub fn applies_to(&self, file: &str) -> (r: bool)
        ensures
            r == self@.serves(file@),
    {
        if self.languages.len() == 0 {
            return true;
        }
        let language = match Language::from_path(file) {
            Some(l) => l.as_str(),
            None => {
                return true;
            },
        };
        let ghost names = view::each(self.languages@);
        let mut i: usize = 0;
        while i < self.languages.len()
            invariant
                i <= self.languages@.len(),
                names == view::each(self.languages@),
                names == self@.languages,
                names.len() > 0,
                language::language_of(file@) is Some,
                language@ == language::language_name(language::language_of(file@)->Some_0),
                forall|k: int| 0 <= k < i ==> #[trigger] names[k] != language@,
            decreases self.languages@.len() - i,
        {
            assert(names[i as int] == self.languages@[i as int]@);
            if text::same(self.languages[i].as_str(), language) {
                return true;
            }
            i += 1;
        }
        false
    }
}

/// The target that a name means.
pub open spec fn target_named(name: Seq<char>) -> Option<TargetKind> {
    if name == "position"@ {
        Some(TargetKind::Position)
    } else if name == "selection"@ {
        Some(TargetKind::Selection)
    } else if name == "file"@ {
        Some(TargetKind::File)
    } else if name == "project"@ {
        Some(TargetKind::Project)
    } else {
        None
    }
}

fn read_target_name(name: &str) -> (r: Option<TargetKind>)
    ensures
        r == target_named(name@),
{
    if text::same(name, "position") {
        Some(TargetKind::Position)
    } else if text::same(name, "selection") {
        Some(TargetKind::Selection)
    } else if text::same(name, "file") {
        Some(TargetKind::File)
    } else if text::same(name, "project") {
        Some(TargetKind::Project)
    } else {
        None
    }
}

/// The target in a field: a name, or an object with that name alone and nothing
/// under it. A field that is missing is a position.
pub open spec fn target_in(f: Option<JsonView>) -> Option<TargetKind> {
    match f {
        None => Some(TargetKind::Position),
        Some(JsonView::Text(name)) => target_named(name),
        Some(JsonView::Object(m)) => if alone(m, "position"@) {
            Some(TargetKind::Position)
        } else if alone(m, "selection"@) {
            Some(TargetKind::Selection)
        } else if alone(m, "file"@) {
            Some(TargetKind::File)
        } else if alone(m, "project"@) {
            Some(TargetKind::Project)
        } else {
            None
        },
        _ => None,
    }
}

/// Whether an object holds one name alone, with nothing under it.
pub open spec fn alone(m: Map<Seq<char>, JsonView>, name: Seq<char>) -> bool {
    m == Map::<Seq<char>, JsonView>::empty().insert(name, JsonView::Null)
}

fn is_alone(o: &Object, name: &str) -> (r: bool)
    ensures
        r == alone(o@, name@),
{
    let found = match o.get(name) {
        Some(v) => v.is_null(),
        None => false,
    };
    let keys = o.keys();
    let mut i: usize = 0;
    while i < keys.len()
        invariant
            i <= keys@.len(),
            forall|k: int| 0 <= k < keys@.len() ==> o@.contains_key(#[trigger] keys@[k]@),
            forall|k: int| 0 <= k < i ==> (#[trigger] keys@[k])@ == name@,
        decreases keys@.len() - i,
    {
        if !text::same(keys[i].as_str(), name) {
            assert(o@.contains_key(keys@[i as int]@));
            return false;
        }
        i += 1;
    }
    proof {
        if found {
            assert forall|key: Seq<char>| o@.contains_key(key) implies key == name@ by {
                let k = choose|k: int| 0 <= k < keys@.len() && (#[trigger] keys@[k])@ == key;
                assert(keys@[k]@ == name@);
            }
            assert(o@ =~= Map::<Seq<char>, JsonView>::empty().insert(name@, JsonView::Null));
        }
    }
    found
}

fn read_target(f: Option<&Json>) -> (r: Option<TargetKind>)
    ensures
        r == target_in(view::maybe(f)),
{
    match f {
        None => Some(TargetKind::Position),
        Some(Json::Text(name)) => read_target_name(name.as_str()),
        Some(Json::Object(o)) => if is_alone(o, "position") {
            Some(TargetKind::Position)
        } else if is_alone(o, "selection") {
            Some(TargetKind::Selection)
        } else if is_alone(o, "file") {
            Some(TargetKind::File)
        } else if is_alone(o, "project") {
            Some(TargetKind::Project)
        } else {
            None
        },
        _ => None,
    }
}

/// The languages in a field, none where it is missing.
pub open spec fn languages_in(f: Option<JsonView>) -> Option<Seq<Seq<char>>> {
    match f {
        None => Some(Seq::empty()),
        Some(JsonView::List(s)) => wire::texts_of(s),
        _ => None,
    }
}

fn read_languages(f: Option<&Json>) -> (r: Option<Vec<String>>)
    ensures
        languages_in(view::maybe(f)) == (match r {
            Some(v) => Some(view::each(v@)),
            None => None,
        }),
{
    match f {
        None => {
            let none: Vec<String> = Vec::new();
            assert(view::each(none@) =~= Seq::empty());
            Some(none)
        },
        Some(Json::List(list)) => wire::get_texts(list),
        _ => None,
    }
}

/// An operation, as the remote server lists it.
pub open spec fn descriptor_of(j: JsonView) -> Option<OperationDescriptorView> {
    if wire::structure(j, 5) {
        match (
            wire::text_of(wire::field(j, "id"@, 0)),
            wire::text_of(wire::field(j, "title"@, 1)),
            wire::maybe_text(wire::field(j, "code_action_kind"@, 2)),
            target_in(wire::field(j, "target"@, 3)),
            languages_in(wire::field(j, "languages"@, 4)),
        ) {
            (
                Some(id),
                Some(title),
                Some(code_action_kind),
                Some(target),
                Some(languages),
            ) => Some(
                OperationDescriptorView { id, title, code_action_kind, target, languages },
            ),
            _ => None,
        }
    } else {
        None
    }
}

/// Reads an operation.
pub fn read_descriptor(j: &Json) -> (r: Result<OperationDescriptor, Malformed>)
    ensures
        match r {
            Ok(d) => descriptor_of(j@) == Some(d@),
            Err(_) => descriptor_of(j@) is None,
        },
{
    if !wire::is_structure(j, 5) {
        return Err(Malformed);
    }
    match (
        wire::get_text(wire::get_field(j, "id", 0)),
        wire::get_text(wire::get_field(j, "title", 1)),
        wire::get_maybe_text(wire::get_field(j, "code_action_kind", 2)),
        read_target(wire::get_field(j, "target", 3)),
        read_languages(wire::get_field(j, "languages", 4)),
    ) {
        (Some(id), Some(title), Some(code_action_kind), Some(target), Some(languages)) => Ok(
            OperationDescriptor { id, title, code_action_kind, target, languages },
        ),
        _ => Err(Malformed),
    }
}

/// A list of operations, if all its values are operations.
pub open spec fn descriptors_of(j: JsonView) -> Option<Seq<OperationDescriptorView>> {
    match j {
        JsonView::List(s) => if forall|i: int|
            0 <= i < s.len() ==> descriptor_of(#[trigger] s[i]) is Some {
            Some(Seq::new(s.len(), |i: int| descriptor_of(s[i])->Some_0))
        } else {
            None
        },
        _ => None,
    }
}

/// Reads a list of operations.
pub fn read_descriptors(j: &Json) -> (r: Result<Vec<OperationDescriptor>, Malformed>)
    ensures
        match r {
            Ok(v) => descriptors_of(j@) == Some(view::each(v@)),
            Err(_) => descriptors_of(j@) is None,
        },
{
    let list = match j {
        Json::List(list) => list,
        _ => {
            return Err(Malformed);
        },
    };
    let ghost all = json::list_view(list@);
    let mut out: Vec<OperationDescriptor> = Vec::new();
    let mut i: usize = 0;
    while i < list.len()
        invariant
            i <= list@.len(),
            all == json::list_view(list@),
            j@ == JsonView::List(all),
            out@.len() == i,
            forall|k: int|
                0 <= k < i ==> descriptor_of(#[trigger] all[k]) == Some(out@[k]@),
        decreases list@.len() - i,
    {
        assert(all[i as int] == list@[i as int]@);
        match read_descriptor(&list[i]) {
            Ok(d) => out.push(d),
            Err(_) => {
                assert(descriptor_of(all[i as int]) is None);
                return Err(Malformed);
            },
        }
        i += 1;
    }
    assert(view::each(out@) =~= descriptors_of(j@)->Some_0);
    Ok(out)
}

/// A project, as the remote server lists it.
pub open spec fn project_of(j: JsonView) -> Option<RegisteredProjectView> {
    if wire::structure(j, 2) {
        match (wire::text_of(wire::field(j, "id"@, 0)), wire::text_of(wire::field(j, "root"@, 1))) {
            (Some(id), Some(root)) => Some(RegisteredProjectView { id, root }),
            _ => None,
        }
    } else {
        None
    }
}

fn read_project(j: &Json) -> (r: Option<RegisteredProject>)
    ensures
        view::maybe(r) == project_of(j@),
{
    if !wire::is_structure(j, 2) {
        return None;
    }
    match (
        wire::get_text(wire::get_field(j, "id", 0)),
        wire::get_text(wire::get_field(j, "root", 1)),
    ) {
        (Some(id), Some(root)) => Some(RegisteredProject { id, root }),
        _ => None,
    }
}

/// A list of projects, if all its values are projects.
pub open spec fn projects_of(j: JsonView) -> Option<Seq<RegisteredProjectView>> {
    match j {
        JsonView::List(s) => if forall|i: int|
            0 <= i < s.len() ==> project_of(#[trigger] s[i]) is Some {
            Some(Seq::new(s.len(), |i: int| project_of(s[i])->Some_0))
        } else {
            None
        },
        _ => None,
    }
}

/// Reads a list of projects.
pub fn read_projects(j: &Json) -> (r: Result<Vec<RegisteredProject>, Malformed>)
    ensures
        match r {
            Ok(v) => projects_of(j@) == Some(view::each(v@)),
            Err(_) => projects_of(j@) is None,
        },
{
    let list = match j {
        Json::List(list) => list,
        _ => {
            return Err(Malformed);
        },
    };
    let ghost all = json::list_view(list@);
    let mut out: Vec<RegisteredProject> = Vec::new();
    let mut i: usize = 0;
    while i < list.len()
        invariant
            i <= list@.len(),
            all == json::list_view(list@),
            j@ == JsonView::List(all),
            out@.len() == i,
            forall|k: int| 0 <= k < i ==> project_of(#[trigger] all[k]) == Some(out@[k]@),
        decreases list@.len() - i,
    {
        assert(all[i as int] == list@[i as int]@);
        match read_project(&list[i]) {
            Some(p) => out.push(p),
            None => {
                assert(project_of(all[i as int]) is None);
                return Err(Malformed);
            },
        }
        i += 1;
    }
    assert(view::each(out@) =~= projects_of(j@)->Some_0);
    Ok(out)
}

// ---------------------------------------------------------------------------
// The binding
// ---------------------------------------------------------------------------

/// The arguments of a call with the project and the working copy in them,
/// whatever stood there.
pub open spec fn enveloped(
    params: JsonView,
    project: Seq<char>,
    workspace: Seq<char>,
) -> JsonView {
    let fields = match params {
        JsonView::Object(m) => m,
        _ => Map::empty(),
    };
    JsonView::Object(
        fields.insert("project"@, JsonView::Text(project)).insert(
            "workspace"@,
            JsonView::Text(workspace),
        ),
    )
}

/// Puts the project and the working copy into the arguments of a call. They
/// win over what the caller put there. Arguments that are no object count as
/// none.
pub fn merge_envelope(params: Json, project: &str, workspace: &str) -> (r: Json)
    ensures
        r@ == enveloped(params@, project@, workspace@),
{
    let fields = match params {
        Json::Object(o) => o,
        _ => Object::new(),
    };
    Json::Object(
        fields.with("project", Json::text(project)).with("workspace", Json::text(workspace)),
    )
}

/// Every call names the session's own project and working copy, and passes the
/// other arguments on as they are.
pub proof fn the_envelope_wins(
    params: JsonView,
    project: Seq<char>,
    workspace: Seq<char>,
    key: Seq<char>,
)
    ensures
        enveloped(params, project, workspace).text_at("project"@) == Some(project),
        enveloped(params, project, workspace).text_at("workspace"@) == Some(workspace),
        key != "project"@ && key != "workspace"@ ==> enveloped(params, project, workspace).get(key)
            == params.get(key),
{
    reveal_strlit("project");
    reveal_strlit("workspace");
    assert("project"@.len() != "workspace"@.len());
}

/// The project that a session acts on.
#[derive(Clone, Debug)]
pub struct Binding {
    /// Its id.
    pub project_id: String,
    /// The folder that the editor opened.
    pub workspace_path: String,
    /// The operations that it has.
    pub operations: Vec<OperationDescriptor>,
}

/// What such a binding is.
#[verifier::ext_equal]
pub struct BindingView {
    /// Its id.
    pub project_id: Seq<char>,
    /// The folder that the editor opened.
    pub workspace_path: Seq<char>,
    /// The operations that it has.
    pub operations: Seq<OperationDescriptorView>,
}

impl View for Binding {
    type V = BindingView;

    open spec fn view(&self) -> BindingView {
        BindingView {
            project_id: self.project_id@,
            workspace_path: self.workspace_path@,
            operations: view::each(self.operations@),
        }
    }
}

/// The first operation with an id, from `i` on.
pub open spec fn operation_from(
    operations: Seq<OperationDescriptorView>,
    id: Seq<char>,
    i: int,
) -> Option<OperationDescriptorView>
    decreases operations.len() - i,
{
    if i < 0 || i >= operations.len() {
        None
    } else if operations[i].id == id {
        Some(operations[i])
    } else {
        operation_from(operations, id, i + 1)
    }
}

impl Binding {
    /// The operation with an id, if there is one.
    pub fn operation(&self, id: &str) -> (r: Option<&OperationDescriptor>)
        ensures
            view::maybe(r) == operation_from(self@.operations, id@, 0),
    {
        let ghost all = view::each(self.operations@);
        let mut i: usize = 0;
        while i < self.operations.len()
            invariant
                i <= self.operations@.len(),
                all == view::each(self.operations@),
                operation_from(all, id@, 0) == operation_from(all, id@, i as int),
            decreases self.operations@.len() - i,
        {
            assert(all[i as int] == self.operations@[i as int]@);
            if text::same(self.operations[i].id.as_str(), id) {
                return Some(&self.operations[i]);
            }
            i += 1;
        }
        None
    }

    /// The arguments of a call, with the project and the working copy in them.
    pub fn call_args(&self, params: Json) -> (r: Json)
        ensures
            r@ == enveloped(params@, self@.project_id, self@.workspace_path),
    {
        merge_envelope(params, self.project_id.as_str(), self.workspace_path.as_str())
    }
}

/// What is said where no project is in a folder.
pub open spec fn unregistered(workspace: Seq<char>) -> Seq<char> {
    let derived = match project::likely_id(workspace) {
        Some(id) => id,
        None => Seq::empty(),
    };
    unregistered_as(workspace, derived)
}

/// What is said where no project is in a folder, given the id that its name
/// implies.
pub open spec fn unregistered_as(workspace: Seq<char>, derived: Seq<char>) -> Seq<char> {
    "henka has no project rooted at `"@ + workspace + "`, and none registered under the id `"@
        + derived
        + "` its directory name would imply. Register it on the host with `register_project` against that path, or set HENKA_PROXY_PROJECT to the id it is registered under \u{2014} the proxy will not auto-register."@
}

/// What is said where no project is in a folder, given the id that its name
/// implies.
pub fn unregistered_message_as(workspace_path: &str, derived: &str) -> (r: String)
    ensures
        r@ == unregistered_as(workspace_path@, derived@),
{
    text::cat(
        text::cat(
            text::cat3(
                "henka has no project rooted at `",
                workspace_path,
                "`, and none registered under the id `",
            ).as_str(),
            derived,
        ).as_str(),
        "` its directory name would imply. Register it on the host with `register_project` against that path, or set HENKA_PROXY_PROJECT to the id it is registered under \u{2014} the proxy will not auto-register.",
    )
}

/// What is said where no project is in a folder: what was looked for, and the
/// two ways out.
pub fn unregistered_message(workspace_path: &str) -> (r: String)
    ensures
        r@ == unregistered(workspace_path@),
{
    let derived = match project::derive_project_id(workspace_path) {
        Some(id) => id,
        None => "".to_owned(),
    };
    proof {
        reveal_strlit("");
        assert(""@ =~= Seq::<char>::empty());
    }
    unregistered_message_as(workspace_path, derived.as_str())
}

/// Whether an editor says that it takes edits as a list of document changes.
pub open spec fn takes_document_changes(params: JsonView) -> bool {
    match params.get("capabilities"@) {
        Some(c) => match c.get("workspace"@) {
            Some(w) => match w.get("workspaceEdit"@) {
                Some(e) => e.flag_at("documentChanges"@) == Some(true),
                None => false,
            },
            None => false,
        },
        None => false,
    }
}

/// Whether an editor says that it takes edits as a list of document changes.
pub fn client_supports_document_changes(params: &Json) -> (r: bool)
    ensures
        r == takes_document_changes(params@),
{
    match params.get("capabilities") {
        Some(c) => match c.get("workspace") {
            Some(w) => match w.get("workspaceEdit") {
                Some(e) => match e.bool_at("documentChanges") {
                    Some(b) => b,
                    None => false,
                },
                None => false,
            },
            None => false,
        },
        None => false,
    }
}

/// What has to be asked next of the remote server to bind the session.
#[derive(Debug, PartialEq, Eq)]
pub enum Lookup {
    /// Nothing.
    Bound,
    /// Which projects there are.
    ListProjects,
    /// Which operations a project has.
    ListOperations(String),
}

/// What such a step is.
#[verifier::ext_equal]
pub enum LookupView {
    /// Nothing.
    Bound,
    /// Which projects there are.
    ListProjects,
    /// Which operations a project has.
    ListOperations(Seq<char>),
}

impl View for Lookup {
    type V = LookupView;

    open spec fn view(&self) -> LookupView {
        match self {
            Lookup::Bound => LookupView::Bound,
            Lookup::ListProjects => LookupView::ListProjects,
            Lookup::ListOperations(id) => LookupView::ListOperations(id@),
        }
    }
}

/// The id of the project in a folder, by what the remote server answers about
/// its projects. `complaint` is what is said of an answer of another shape.
pub open spec fn project_found(
    workspace: Seq<char>,
    answer: Result<JsonView, McpClientErrorView>,
    complaint: Seq<char>,
) -> Result<Seq<char>, LspErrorView> {
    match answer {
        Err(e) => Err(internal(e)),
        Ok(v) => match projects_of(v) {
            None => Err(internal(McpClientErrorView::BadJson("list_projects"@, complaint))),
            Some(projects) => match project::project_in(projects, workspace) {
                Some(id) => Ok(id),
                None => Err(invalid(unregistered(workspace))),
            },
        },
    }
}

/// The operations of a project, by what the remote server answers about them.
pub open spec fn operations_found(
    answer: Result<JsonView, McpClientErrorView>,
    complaint: Seq<char>,
) -> Result<Seq<OperationDescriptorView>, LspErrorView> {
    match answer {
        Err(e) => Err(internal(e)),
        Ok(v) => match descriptors_of(v) {
            None => Err(internal(McpClientErrorView::BadJson("list_operations"@, complaint))),
            Some(operations) => Ok(operations),
        },
    }
}

/// What is known for the time that an editor is connected. `C` is the
/// connection to the remote server.
#[derive(Debug)]
pub struct Session<C> {
    /// The connection to the remote server.
    pub mcp: C,
    /// The folder that the editor opened.
    pub workspace_path: String,
    /// The id of the project, where it is given and not looked up.
    pub project_override: Option<String>,
    /// Whether the editor takes edits as a list of document changes.
    pub supports_document_changes: bool,
    /// The documents that the editor has open.
    pub documents: Documents,
    /// The project that the folder is, once it was found.
    pub binding: Option<Binding>,
}

impl<C> Session<C> {
    /// The binding, once it was found.
    pub open spec fn bound(&self) -> Option<BindingView> {
        view::maybe(self.binding)
    }

    /// What has to be asked next: of a project that is given, its operations;
    /// otherwise first which projects there are.
    pub open spec fn next_lookup(&self) -> LookupView {
        if self.bound() is Some {
            LookupView::Bound
        } else {
            match self.project_override {
                Some(id) => LookupView::ListOperations(id@),
                None => LookupView::ListProjects,
            }
        }
    }

    /// A session that is not bound yet. `params` is what the editor said when
    /// it connected.
    pub fn new(
        mcp: C,
        workspace_path: String,
        project_override: Option<String>,
        params: &Json,
    ) -> (r: Session<C>)
        ensures
            r.mcp == mcp,
            r.workspace_path@ == workspace_path@,
            view::maybe(r.project_override) == view::maybe(project_override),
            r.supports_document_changes == takes_document_changes(params@),
            forall|u: Seq<char>| #[trigger] r.documents.buffer(u) is None,
            r.bound() is None,
    {
        Session {
            mcp,
            workspace_path,
            project_override,
            supports_document_changes: client_supports_document_changes(params),
            documents: Documents::new(),
            binding: None,
        }
    }

    /// The binding, once it was found.
    pub fn binding(&self) -> (r: Option<&Binding>)
        ensures
            view::maybe(r) == self.bound(),
    {
        match &self.binding {
            Some(b) => Some(b),
            None => None,
        }
    }

    /// What has to be asked next of the remote server to bind the session.
    pub fn lookup(&self) -> (r: Lookup)
        ensures
            r@ == self.next_lookup(),
    {
        if let Some(_) = &self.binding {
            return Lookup::Bound;
        }
        match &self.project_override {
            Some(id) => Lookup::ListOperations(id.clone()),
            None => Lookup::ListProjects,
        }
    }

    /// The id of the session's project, by what the remote server answers about
    /// its projects.
    pub fn lookup_project_id(
        &self,
        answer: Result<Json, McpClientError>,
        complaint: &str,
    ) -> (r: Result<String, LspError>)
        ensures
            match r {
                Ok(id) => project_found(
                    self.workspace_path@,
                    mcp::answer_view(answer),
                    complaint@,
                ) == Ok::<Seq<char>, LspErrorView>(id@),
                Err(e) => project_found(
                    self.workspace_path@,
                    mcp::answer_view(answer),
                    complaint@,
                ) == Err::<Seq<char>, LspErrorView>(e@),
            },
    {
        let value = match answer {
            Ok(v) => v,
            Err(e) => {
                return Err(internal_error(&e));
            },
        };
        let projects = match read_projects(&value) {
            Ok(p) => p,
            Err(_) => {
                return Err(
                    internal_error(
                        &McpClientError::BadJson {
                            tool: "list_projects".to_owned(),
                            source: complaint.to_owned(),
                        },
                    ),
                );
            },
        };
        match project::resolve_project_id(&projects, self.workspace_path.as_str()) {
            Some(id) => Ok(id),
            None => Err(
                LspError::invalid_params(unregistered_message(self.workspace_path.as_str())),
            ),
        }
    }

    /// Binds the session to a project, by what the remote server answers about
    /// the operations of that project. Where the answer is no use, the session
    /// stays as it is, and the next request can try again.
    pub fn bind(
        &mut self,
        project_id: String,
        answer: Result<Json, McpClientError>,
        complaint: &str,
    ) -> (r: Result<(), LspError>)
        ensures
            match operations_found(mcp::answer_view(answer), complaint@) {
                Ok(operations) => r is Ok && final(self).bound() == Some(
                    BindingView {
                        project_id: project_id@,
                        workspace_path: old(self).workspace_path@,
                        operations,
                    },
                ),
                Err(e) => r is Err && r->Err_0@ == e && final(self).bound() == old(self).bound(),
            },
            final(self).mcp == old(self).mcp,
            final(self).workspace_path == old(self).workspace_path,
            final(self).project_override == old(self).project_override,
            final(self).supports_document_changes == old(self).supports_document_changes,
            final(self).documents == old(self).documents,
    {
        let value = match answer {
            Ok(v) => v,
            Err(e) => {
                return Err(internal_error(&e));
            },
        };
        match read_descriptors(&value) {
            Ok(operations) => {
                let workspace_path = self.workspace_path.clone();
                self.binding = Some(Binding { project_id, workspace_path, operations });
                Ok(())
            },
            Err(_) => Err(
                internal_error(
                    &McpClientError::BadJson {
                        tool: "list_operations".to_owned(),
                        source: complaint.to_owned(),
                    },
                ),
            ),
        }
    }
}

} // verus!
