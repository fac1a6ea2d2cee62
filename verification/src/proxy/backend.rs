//! What the proxy tells an editor that it can do, and how it carries out what
//! the editor asks.
//!
//! What is advertised goes by the operations that the project has. Where they
//! are not known, everything is advertised: an editor sends no request for what
//! it was not told about, so a session that advertised nothing could never
//! recover.

use crate::edit::Position;
use crate::edit::PositionEncoding;
use crate::json;
use crate::json::Json;
use crate::json::JsonView;
use crate::json::Object;
use crate::proxy::convert;
use crate::proxy::documents;
use crate::proxy::documents::Documents;
use crate::proxy::session;
use crate::proxy::session::Binding;
use crate::proxy::session::BindingView;
use crate::proxy::session::LspError;
use crate::proxy::session::LspErrorCode;
use crate::proxy::session::LspErrorView;
use crate::proxy::session::OperationDescriptor;
use crate::proxy::session::OperationDescriptorView;
use crate::proxy::session::Session;
use crate::text;
use crate::view;
use vstd::prelude::*;

verus! {

/// The operation that changes the parameters of a method.
pub const CHANGE_SIGNATURE_OP: &'static str = "change-signature";

/// The operation that moves a class.
pub const MOVE_OP: &'static str = "move";

/// The operation behind the references of a symbol.
pub const STANDARD_OP_REFERENCES: &'static str = "find-usages";

/// The operation behind a rename.
pub const STANDARD_OP_RENAME: &'static str = "rename";

// ---------------------------------------------------------------------------
// Capabilities
// ---------------------------------------------------------------------------

/// How an editor tells about the text of its documents.
#[derive(Clone, Copy, Debug, PartialEq, Eq, Structural)]
pub enum TextDocumentSync {
    /// Not at all.
    Nothing,
    /// The whole text with every change.
    Full,
    /// Only what changed.
    Incremental,
}

/// What can be done about renames.
#[derive(Clone, Copy, Debug, PartialEq, Eq, Structural)]
pub struct RenameOptions {
    /// Whether a rename can be tried first.
    pub prepare_provider: Option<bool>,
}

/// What can be done about code actions.
#[derive(Debug)]
pub struct CodeActionOptions {
    /// The kinds of code actions that there are, where they are known.
    pub code_action_kinds: Option<Vec<String>>,
    /// Whether the edit of an action is asked for on its own.
    pub resolve_provider: Option<bool>,
}

/// What can be done about commands.
#[derive(Debug)]
pub struct ExecuteCommandOptions {
    /// The commands that there are.
    pub commands: Vec<String>,
}

/// What an editor is told that can be done.
#[derive(Debug)]
pub struct ServerCapabilities {
    /// What positions count.
    pub position_encoding: Option<PositionEncoding>,
    /// How the editor tells about the text of its documents.
    pub text_document_sync: Option<TextDocumentSync>,
    /// Whether the references of a symbol can be asked for.
    pub references_provider: Option<bool>,
    /// What can be done about renames.
    pub rename_provider: Option<RenameOptions>,
    /// What can be done about code actions.
    pub code_action_provider: Option<CodeActionOptions>,
    /// What can be done about commands.
    pub execute_command_provider: Option<ExecuteCommandOptions>,
}

/// What can be done about code actions.
#[verifier::ext_equal]
pub struct CodeActionOptionsView {
    /// The kinds of code actions that there are, where they are known.
    pub code_action_kinds: Option<Seq<Seq<char>>>,
    /// Whether the edit of an action is asked for on its own.
    pub resolve_provider: Option<bool>,
}

impl View for CodeActionOptions {
    type V = CodeActionOptionsView;

    open spec fn view(&self) -> CodeActionOptionsView {
        CodeActionOptionsView {
            code_action_kinds: match self.code_action_kinds {
                Some(kinds) => Some(view::each(kinds@)),
                None => None,
            },
            resolve_provider: self.resolve_provider,
        }
    }
}

impl View for ExecuteCommandOptions {
    type V = Seq<Seq<char>>;

    open spec fn view(&self) -> Seq<Seq<char>> {
        view::each(self.commands@)
    }
}

/// What an editor is told that can be done.
#[verifier::ext_equal]
pub struct ServerCapabilitiesView {
    /// What positions count.
    pub position_encoding: Option<PositionEncoding>,
    /// How the editor tells about the text of its documents.
    pub text_document_sync: Option<TextDocumentSync>,
    /// Whether the references of a symbol can be asked for.
    pub references_provider: Option<bool>,
    /// What can be done about renames.
    pub rename_provider: Option<RenameOptions>,
    /// What can be done about code actions.
    pub code_action_provider: Option<CodeActionOptionsView>,
    /// The commands that there are.
    pub commands: Option<Seq<Seq<char>>>,
}

impl View for ServerCapabilities {
    type V = ServerCapabilitiesView;

    open spec fn view(&self) -> ServerCapabilitiesView {
        ServerCapabilitiesView {
            position_encoding: self.position_encoding,
            text_document_sync: self.text_document_sync,
            references_provider: self.references_provider,
            rename_provider: self.rename_provider,
            code_action_provider: view::maybe(self.code_action_provider),
            commands: view::maybe(self.execute_command_provider),
        }
    }
}

/// What can be done whatever operations there are: positions count UTF-16 code
/// units, and the whole text of a document comes with every change.
pub open spec fn base() -> ServerCapabilitiesView {
    ServerCapabilitiesView {
        position_encoding: Some(PositionEncoding::Utf16),
        text_document_sync: Some(TextDocumentSync::Full),
        references_provider: None,
        rename_provider: None,
        code_action_provider: None,
        commands: None,
    }
}

/// What can be done whatever operations there are.
pub fn base_capabilities() -> (r: ServerCapabilities)
    ensures
        r@ == base(),
{
    ServerCapabilities {
        position_encoding: Some(PositionEncoding::Utf16),
        text_document_sync: Some(TextDocumentSync::Full),
        references_provider: None,
        rename_provider: None,
        code_action_provider: None,
        execute_command_provider: None,
    }
}

/// Whether an operation is among some.
pub open spec fn offers(operations: Seq<OperationDescriptorView>, id: Seq<char>) -> bool {
    exists|i: int| 0 <= i < operations.len() && (#[trigger] operations[i]).id == id
}

fn has_operation(operations: &Vec<OperationDescriptor>, id: &str) -> (r: bool)
    ensures
        r == offers(view::each(operations@), id@),
{
    let ghost all = view::each(operations@);
    let mut i: usize = 0;
    while i < operations.len()
        invariant
            i <= operations@.len(),
            all == view::each(operations@),
            forall|k: int| 0 <= k < i ==> (#[trigger] all[k]).id != id@,
        decreases operations@.len() - i,
    {
        assert(all[i as int] == operations@[i as int]@);
        if text::same(operations[i].id.as_str(), id) {
            assert(all[i as int].id == id@);
            return true;
        }
        i += 1;
    }
    false
}

/// The kinds of code actions that some operations are, in their order.
pub open spec fn action_kinds(operations: Seq<OperationDescriptorView>) -> Seq<Seq<char>> {
    view::kept(Seq::new(operations.len(), |i: int| operations[i].code_action_kind))
}

fn collect_kinds(operations: &Vec<OperationDescriptor>) -> (r: Vec<String>)
    ensures
        view::each(r@) == action_kinds(view::each(operations@)),
{
    broadcast use view::each_push;

    let ghost all = view::each(operations@);
    let ghost kinds = Seq::new(all.len(), |i: int| all[i].code_action_kind);
    let mut out: Vec<String> = Vec::new();
    let mut i: usize = 0;
    assert(view::each(out@) =~= view::kept(kinds.take(0)));
    while i < operations.len()
        invariant
            i <= operations@.len(),
            all == view::each(operations@),
            kinds == Seq::new(all.len(), |i: int| all[i].code_action_kind),
            view::each(out@) == view::kept(kinds.take(i as int)),
        decreases operations@.len() - i,
    {
        broadcast use view::each_push;

        proof {
            view::kept_step(kinds, i as int);
            assert(all[i as int] == operations@[i as int]@);
        }
        if let Some(kind) = &operations[i].code_action_kind {
            out.push(kind.clone());
        }
        i += 1;
    }
    assert(kinds.take(kinds.len() as int) =~= kinds);
    out
}

/// The command of an operation.
pub open spec fn command_name(id: Seq<char>) -> Seq<char> {
    "henka."@ + id
}

/// The commands of the two operations that have no request of their own, as far
/// as they are there.
pub open spec fn commands_of(change_signature: bool, moving: bool) -> Seq<Seq<char>> {
    (if change_signature {
        seq![command_name(CHANGE_SIGNATURE_OP@)]
    } else {
        seq![]
    }) + (if moving {
        seq![command_name(MOVE_OP@)]
    } else {
        seq![]
    })
}

fn list_commands(change_signature: bool, moving: bool) -> (r: Vec<String>)
    ensures
        view::each(r@) == commands_of(change_signature, moving),
{
    let mut out: Vec<String> = Vec::new();
    if change_signature {
        out.push(text::cat("henka.", CHANGE_SIGNATURE_OP));
    }
    if moving {
        out.push(text::cat("henka.", MOVE_OP));
    }
    assert(view::each(out@) =~= commands_of(change_signature, moving));
    out
}

/// What can be done with some operations.
pub open spec fn advertised(operations: Seq<OperationDescriptorView>) -> ServerCapabilitiesView {
    let kinds = action_kinds(operations);
    let commands = commands_of(
        offers(operations, CHANGE_SIGNATURE_OP@),
        offers(operations, MOVE_OP@),
    );
    ServerCapabilitiesView {
        references_provider: if offers(operations, STANDARD_OP_REFERENCES@) {
            Some(true)
        } else {
            None
        },
        rename_provider: if offers(operations, STANDARD_OP_RENAME@) {
            Some(RenameOptions { prepare_provider: Some(true) })
        } else {
            None
        },
        code_action_provider: if kinds.len() > 0 {
            Some(
                CodeActionOptionsView {
                    code_action_kinds: Some(kinds),
                    resolve_provider: Some(true),
                },
            )
        } else {
            None
        },
        commands: if commands.len() > 0 {
            Some(commands)
        } else {
            None
        },
        ..base()
    }
}

/// What an editor is told that can be done with some operations.
pub fn advertise_capabilities(operations: &Vec<OperationDescriptor>) -> (r: ServerCapabilities)
    ensures
        r@ == advertised(view::each(operations@)),
{
    let mut caps = base_capabilities();
    if has_operation(operations, STANDARD_OP_REFERENCES) {
        caps.references_provider = Some(true);
    }
    if has_operation(operations, STANDARD_OP_RENAME) {
        caps.rename_provider = Some(RenameOptions { prepare_provider: Some(true) });
    }
    let kinds = collect_kinds(operations);
    if kinds.len() > 0 {
        caps.code_action_provider =
        Some(CodeActionOptions { code_action_kinds: Some(kinds), resolve_provider: Some(true) });
    }
    let commands = list_commands(
        has_operation(operations, CHANGE_SIGNATURE_OP),
        has_operation(operations, MOVE_OP),
    );
    if commands.len() > 0 {
        caps.execute_command_provider = Some(ExecuteCommandOptions { commands });
    }
    caps
}

/// All that can be done, where the operations are not known.
pub open spec fn unfiltered() -> ServerCapabilitiesView {
    ServerCapabilitiesView {
        references_provider: Some(true),
        rename_provider: Some(RenameOptions { prepare_provider: Some(true) }),
        code_action_provider: Some(
            CodeActionOptionsView { code_action_kinds: None, resolve_provider: Some(true) },
        ),
        commands: Some(commands_of(true, true)),
        ..base()
    }
}

/// All that can be done, where the operations are not known.
pub fn unfiltered_capabilities() -> (r: ServerCapabilities)
    ensures
        r@ == unfiltered(),
{
    let mut caps = base_capabilities();
    caps.references_provider = Some(true);
    caps.rename_provider = Some(RenameOptions { prepare_provider: Some(true) });
    caps.code_action_provider =
    Some(CodeActionOptions { code_action_kinds: None, resolve_provider: Some(true) });
    caps.execute_command_provider =
    Some(ExecuteCommandOptions { commands: list_commands(true, true) });
    caps
}

/// What an editor is told that can be done in a session: what the operations of
/// its project allow, or everything, where it is not bound to a project.
pub fn offered_capabilities<C>(session: &Session<C>) -> (r: ServerCapabilities)
    ensures
        r@ == (match session.bound() {
            Some(binding) => advertised(binding.operations),
            None => unfiltered(),
        }),
{
    match session.binding() {
        Some(binding) => advertise_capabilities(&binding.operations),
        None => unfiltered_capabilities(),
    }
}

proof fn kept_is_among<T>(s: Seq<Option<T>>, k: int)
    requires
        0 <= k < view::kept(s).len(),
    ensures
        s.contains(Some(view::kept(s)[k])),
    decreases s.len(),
{
    if s.len() > 0 {
        let front = s.drop_last();
        if s.last() is Some && k == view::kept(s).len() - 1 {
            assert(s[s.len() - 1] == Some(view::kept(s)[k]));
        } else {
            kept_is_among(front, k);
            let i = choose|i: int| 0 <= i < front.len() && front[i] == Some(view::kept(front)[k]);
            assert(s[i] == front[i]);
        }
    }
}

/// What is advertised is backed by an operation: a request by the operation
/// behind it, a kind of code action by an operation of that kind, and a command
/// by the operation that it names.
pub proof fn advertised_is_offered(operations: Seq<OperationDescriptorView>)
    ensures
        advertised(operations).references_provider is Some <==> offers(
            operations,
            STANDARD_OP_REFERENCES@,
        ),
        advertised(operations).rename_provider is Some <==> offers(operations, STANDARD_OP_RENAME@),
        advertised(operations).code_action_provider is Some ==> (forall|k: int|
            0 <= k < action_kinds(operations).len() ==> exists|i: int|
                0 <= i < operations.len() && (#[trigger] operations[i]).code_action_kind == Some(
                    #[trigger] action_kinds(operations)[k],
                )),
        forall|i: int|
            0 <= i < operations.len() && (#[trigger] operations[i]).code_action_kind is Some
                ==> action_kinds(operations).contains(operations[i].code_action_kind->Some_0),
        forall|k: int|
            advertised(operations).commands is Some && 0 <= k
                < advertised(operations).commands->Some_0.len() ==> exists|id: Seq<char>|
                offers(operations, id) && #[trigger] command_name(id) == (#[trigger] advertised(
                    operations,
                ).commands->Some_0[k]),
{
    let kinds = Seq::new(operations.len(), |i: int| operations[i].code_action_kind);
    assert forall|k: int| 0 <= k < action_kinds(operations).len() implies exists|i: int|
        0 <= i < operations.len() && (#[trigger] operations[i]).code_action_kind == Some(
            #[trigger] action_kinds(operations)[k],
        ) by {
        kept_is_among(kinds, k);
        let i = choose|i: int| 0 <= i < kinds.len() && kinds[i] == Some(view::kept(kinds)[k]);
        assert(operations[i].code_action_kind == kinds[i]);
    }
    assert forall|i: int|
        0 <= i < operations.len() && (#[trigger] operations[i]).code_action_kind is Some implies
        action_kinds(operations).contains(operations[i].code_action_kind->Some_0) by {
        assert(kinds[i] == operations[i].code_action_kind);
        view::kept_contains(kinds, i);
    }
    assert forall|k: int|
        advertised(operations).commands is Some && 0 <= k < advertised(
            operations,
        ).commands->Some_0.len() implies exists|id: Seq<char>|
        offers(operations, id) && #[trigger] command_name(id) == (#[trigger] advertised(
            operations,
        ).commands->Some_0[k]) by {
        let commands = advertised(operations).commands->Some_0;
        if commands[k] == command_name(CHANGE_SIGNATURE_OP@) && offers(
            operations,
            CHANGE_SIGNATURE_OP@,
        ) {
        } else {
            assert(commands[k] == command_name(MOVE_OP@));
        }
    }
}

/// A session without a project advertises every request and command that any
/// project can have.
pub proof fn unbound_sessions_can_ask_for_anything(operations: Seq<OperationDescriptorView>)
    ensures
        unfiltered().references_provider is Some,
        unfiltered().rename_provider is Some,
        unfiltered().code_action_provider is Some,
        unfiltered().code_action_provider->Some_0.code_action_kinds is None,
        unfiltered().position_encoding == advertised(operations).position_encoding,
        unfiltered().text_document_sync == advertised(operations).text_document_sync,
        forall|k: int|
            advertised(operations).commands is Some && 0 <= k
                < advertised(operations).commands->Some_0.len()
                ==> unfiltered().commands->Some_0.contains(
                #[trigger] advertised(operations).commands->Some_0[k],
            ),
{
    let all = unfiltered().commands->Some_0;
    assert(all[0] == command_name(CHANGE_SIGNATURE_OP@));
    assert(all[1] == command_name(MOVE_OP@));
    assert forall|k: int|
        advertised(operations).commands is Some && 0 <= k < advertised(
            operations,
        ).commands->Some_0.len() implies all.contains(
        #[trigger] advertised(operations).commands->Some_0[k],
    ) by {
        let c = advertised(operations).commands->Some_0[k];
        assert(c == all[0] || c == all[1]);
    }
}

// ---------------------------------------------------------------------------
// Connecting
// ---------------------------------------------------------------------------

/// The positions that an editor says it can count in, where it says so.
pub open spec fn encodings_of(params: JsonView) -> Option<Seq<JsonView>> {
    match params.get("capabilities"@) {
        Some(c) => match c.get("general"@) {
            Some(g) => g.items_at("positionEncodings"@),
            None => None,
        },
        None => None,
    }
}

/// Whether an editor can count in UTF-16 code units, which is what it does
/// where it says nothing.
pub open spec fn counts_utf16(params: JsonView) -> bool {
    match encodings_of(params) {
        Some(s) => s.contains(json::txt("utf-16")),
        None => true,
    }
}

/// Whether an editor can count in UTF-16 code units.
pub fn accepts_utf16(params: &Json) -> (r: bool)
    ensures
        r == counts_utf16(params@),
{
    let list = match params.get("capabilities") {
        Some(c) => match c.get("general") {
            Some(g) => match g.array_at("positionEncodings") {
                Some(list) => list,
                None => {
                    return true;
                },
            },
            None => {
                return true;
            },
        },
        None => {
            return true;
        },
    };
    let ghost all = json::list_view(list@);
    let mut i: usize = 0;
    while i < list.len()
        invariant
            i <= list@.len(),
            all == json::list_view(list@),
            encodings_of(params@) == Some(all),
            forall|k: int| 0 <= k < i ==> #[trigger] all[k] != json::txt("utf-16"),
        decreases list@.len() - i,
    {
        assert(all[i as int] == list@[i as int]@);
        if let Some(t) = list[i].as_str() {
            if text::same(t, "utf-16") {
                assert(all[i as int] == json::txt("utf-16"));
                return true;
            }
        }
        i += 1;
    }
    false
}

/// The folders that an editor opens.
pub open spec fn folders_of(params: JsonView) -> Seq<JsonView> {
    match params.items_at("workspaceFolders"@) {
        Some(s) => s,
        None => Seq::empty(),
    }
}

/// The path of the folder that an editor opens: of its first folder, or else of
/// its root.
pub open spec fn opened_path(params: JsonView) -> Option<Seq<char>> {
    if folders_of(params).len() > 0 {
        match folders_of(params)[0].text_at("uri"@) {
            Some(uri) => convert::path_in(uri),
            None => None,
        }
    } else {
        match params.text_at("rootUri"@) {
            Some(uri) => convert::path_in(uri),
            None => params.text_at("rootPath"@),
        }
    }
}

/// The path of the folder that an editor opens.
pub fn resolve_workspace_path(params: &Json) -> (r: Option<String>)
    ensures
        view::maybe(r) == opened_path(params@),
{
    if let Some(folders) = params.array_at("workspaceFolders") {
        if folders.len() > 0 {
            assert(json::list_view(folders@)[0] == folders@[0]@);
            return match folders[0].str_at("uri") {
                Some(uri) => convert::uri_to_path(uri),
                None => None,
            };
        }
    }
    match params.str_at("rootUri") {
        Some(uri) => convert::uri_to_path(uri),
        None => match params.str_at("rootPath") {
            Some(p) => Some(p.to_owned()),
            None => None,
        },
    }
}

/// What is said to an editor that cannot count in UTF-16 code units.
pub const WRONG_ENCODING: &'static str =
    "henka-lsp-proxy requires the client to accept UTF-16 position encoding, but the client only offered other encodings";

/// What is said to an editor that opens nothing with a path.
pub const NO_WORKSPACE: &'static str =
    "initialize did not carry a workspaceFolder or rootUri the proxy could resolve to a filesystem path";

/// The folder to work in for an editor that connects, or why it is refused: it
/// cannot count in UTF-16 code units, opens more than one folder, or opens none
/// with a path.
pub open spec fn received(params: JsonView) -> Result<Seq<char>, LspErrorView> {
    if !counts_utf16(params) {
        Err(session::invalid(WRONG_ENCODING@))
    } else if folders_of(params).len() > 1 {
        Err(
            session::invalid(
                "henka-lsp-proxy supports a single workspace folder; initialize sent "@
                    + text::decimal(folders_of(params).len()),
            ),
        )
    } else {
        match opened_path(params) {
            Some(p) => Ok(p),
            None => Err(session::invalid(NO_WORKSPACE@)),
        }
    }
}

/// Takes up an editor that connects, or says why not.
pub fn receive_client(params: &Json) -> (r: Result<String, LspError>)
    ensures
        match r {
            Ok(p) => received(params@) == Ok::<Seq<char>, LspErrorView>(p@),
            Err(e) => received(params@) == Err::<Seq<char>, LspErrorView>(e@),
        },
{
    if !accepts_utf16(params) {
        return Err(LspError::invalid_params(WRONG_ENCODING.to_owned()));
    }
    if let Some(folders) = params.array_at("workspaceFolders") {
        if folders.len() > 1 {
            return Err(
                LspError::invalid_params(
                    text::cat(
                        "henka-lsp-proxy supports a single workspace folder; initialize sent ",
                        text::decimal_text(folders.len() as u64).as_str(),
                    ),
                ),
            );
        }
    }
    match resolve_workspace_path(params) {
        Some(p) => Ok(p),
        None => Err(LspError::invalid_params(NO_WORKSPACE.to_owned())),
    }
}

/// What an editor is told of the state of its project.
pub open spec fn status_line(project_id: Seq<char>, status: JsonView) -> Seq<char> {
    let vcs = status.get("vcs"@);
    let revision = match vcs {
        Some(v) => v.text_at("revision"@),
        None => None,
    };
    let digest = match vcs {
        Some(v) => v.text_at("digest"@),
        None => None,
    };
    let changed = match vcs {
        Some(v) => match v.items_at("changed_files"@) {
            Some(s) => s.len(),
            None => 0,
        },
        None => 0,
    };
    "henka sees project `"@ + project_id + "` at revision "@ + (match revision {
        Some(r) => r,
        None => "<none>"@,
    }) + " (digest "@ + (match digest {
        Some(d) => d,
        None => "<clean>"@,
    }) + ", "@ + text::decimal(changed) + " changed files)"@
}

/// What an editor is told of the state of its project.
pub fn status_message(project_id: &str, status: &Json) -> (r: String)
    ensures
        r@ == status_line(project_id@, status@),
{
    let mut revision = "<none>";
    let mut digest = "<clean>";
    let mut changed: u64 = 0;
    if let Some(vcs) = status.get("vcs") {
        if let Some(t) = vcs.str_at("revision") {
            revision = t;
        }
        if let Some(t) = vcs.str_at("digest") {
            digest = t;
        }
        if let Some(list) = vcs.array_at("changed_files") {
            changed = list.len() as u64;
        }
    }
    let head = text::cat3("henka sees project `", project_id, "` at revision ");
    let middle = text::cat3(
        text::cat(head.as_str(), revision).as_str(),
        " (digest ",
        digest,
    );
    text::cat(
        text::cat3(middle.as_str(), ", ", text::decimal_text(changed).as_str()).as_str(),
        " changed files)",
    )
}

// ---------------------------------------------------------------------------
// Requests
// ---------------------------------------------------------------------------

/// Takes note of changes to a document. Each carries a whole text, so the last
/// one counts.
pub fn note_changes(documents: &mut Documents, uri: &str, texts: &Vec<String>)
    ensures
        forall|u: Seq<char>| #[trigger]
            final(documents).buffer(u) == (if u == uri@ && texts@.len() > 0 {
                Some(texts@[texts@.len() - 1]@)
            } else {
                old(documents).buffer(u)
            }),
{
    if texts.len() > 0 {
        documents.set(uri, texts[texts.len() - 1].clone());
    }
}

/// What is said where a request is about something that is no file.
pub const NO_FILE: &'static str = "textDocument.uri is not a file:// URI";

/// The file that a request is about.
pub open spec fn requested_file(uri: Seq<char>) -> Result<Seq<char>, LspErrorView> {
    match convert::path_in(uri) {
        Some(p) => Ok(p),
        None => Err(session::invalid(NO_FILE@)),
    }
}

/// The file that a request is about.
pub fn request_file(uri: &str) -> (r: Result<String, LspError>)
    ensures
        match r {
            Ok(p) => requested_file(uri@) == Ok::<Seq<char>, LspErrorView>(p@),
            Err(e) => requested_file(uri@) == Err::<Seq<char>, LspErrorView>(e@),
        },
{
    match convert::uri_to_path(uri) {
        Some(p) => Ok(p),
        None => Err(LspError::invalid_params(NO_FILE.to_owned())),
    }
}

/// Refuses a request about a document that differs from its file. `on_disk` is
/// the text of the file, where it can be read.
pub fn ensure_buffer_saved(
    documents: &Documents,
    uri: &str,
    path: &str,
    on_disk: Option<&str>,
) -> (r: Result<(), LspError>)
    ensures
        ({
            let differs = documents.buffer(uri@) is Some && on_disk is Some && documents.buffer(
                uri@,
            )->Some_0 != on_disk->Some_0@;
            match r {
                Ok(_) => !differs,
                Err(e) => differs && e@ == session::invalid(documents::unsaved_message(path@)),
            }
        }),
{
    match documents.check_saved(uri, path, on_disk) {
        Ok(_) => Ok(()),
        Err(m) => Err(LspError::invalid_params(m)),
    }
}

/// A place in a file, as the arguments of a call name it.
pub open spec fn place_fields(file: Seq<char>, position: Position) -> Map<Seq<char>, JsonView> {
    Map::<Seq<char>, JsonView>::empty().insert("file"@, JsonView::Text(file)).insert(
        "line"@,
        json::num(position.line as int),
    ).insert("character"@, json::num(position.character as int))
}

/// What is asked of the server to find references.
pub open spec fn references_asked(
    binding: BindingView,
    file: Seq<char>,
    position: Position,
    include_declaration: bool,
) -> JsonView {
    session::enveloped(
        JsonView::Object(
            place_fields(file, position).insert(
                "include_declaration"@,
                JsonView::Bool(include_declaration),
            ),
        ),
        binding.project_id,
        binding.workspace_path,
    )
}

/// What is asked of the server to rename; the editor makes the edit itself.
pub open spec fn rename_asked(
    binding: BindingView,
    file: Seq<char>,
    position: Position,
    new_name: Seq<char>,
) -> JsonView {
    session::enveloped(
        JsonView::Object(
            place_fields(file, position).insert("new_name"@, JsonView::Text(new_name)).insert(
                "dry_run"@,
                JsonView::Bool(true),
            ),
        ),
        binding.project_id,
        binding.workspace_path,
    )
}

fn place_object(file: &str, position: Position) -> (r: Object)
    ensures
        r@ == place_fields(file@, position),
{
    Object::new().with("file", Json::text(file)).with(
        "line",
        Json::number(position.line as u64),
    ).with("character", Json::number(position.character as u64))
}

/// The arguments of a call for the references of a symbol.
pub fn references_args(
    binding: &Binding,
    file: &str,
    position: Position,
    include_declaration: bool,
) -> (r: Json)
    ensures
        r@ == references_asked(binding@, file@, position, include_declaration),
{
    binding.call_args(
        Json::Object(
            place_object(file, position).with("include_declaration", Json::Bool(include_declaration)),
        ),
    )
}

/// The arguments of a call for a rename. It is only tried: the editor makes the
/// edit.
pub fn rename_args(binding: &Binding, file: &str, position: Position, new_name: &str) -> (r: Json)
    ensures
        r@ == rename_asked(binding@, file@, position, new_name@),
{
    binding.call_args(
        Json::Object(
            place_object(file, position).with("new_name", Json::text(new_name)).with(
                "dry_run",
                Json::Bool(true),
            ),
        ),
    )
}

/// What is said of an answer without an edit.
pub open spec fn no_edit(op_id: Seq<char>) -> LspErrorView {
    LspErrorView {
        code: LspErrorCode::InternalError,
        message: "`"@ + op_id
            + "` dry_run response carries no `edit` field \u{2014} is henka-server new enough?"@,
    }
}

/// The edit that an operation answers when it is only tried.
pub fn edit_from_response<'a>(response: &'a Json, op_id: &str) -> (r: Result<&'a Json, LspError>)
    ensures
        match r {
            Ok(edit) => response@.get("edit"@) == Some(edit@),
            Err(e) => response@.get("edit"@) is None && e@ == no_edit(op_id@),
        },
{
    match response.get("edit") {
        Some(edit) => Ok(edit),
        None => Err(
            LspError {
                code: LspErrorCode::InternalError,
                message: text::cat3(
                    "`",
                    op_id,
                    "` dry_run response carries no `edit` field \u{2014} is henka-server new enough?",
                ),
            },
        ),
    }
}

} // verus!
