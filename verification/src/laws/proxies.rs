//! The proxy: what an editor's requests become, and what its answers come from.

use crate::edit::Position;
use crate::edit::Range;
use crate::json::JsonView;
use crate::laws::reports;
use crate::laws::requests;
use crate::laws::shapes;
use crate::laws::symbols;
use crate::path;
use crate::proxy::backend;
use crate::proxy::convert;
use crate::proxy::mcp;
use crate::proxy::mcp::Block;
use crate::proxy::mcp::McpClientErrorView;
use crate::proxy::mcp::ToolResult;
use crate::proxy::project;
use crate::proxy::project::RegisteredProjectView;
use crate::proxy::session;
use crate::proxy::session::BindingView;
use crate::proxy::session::LookupView;
use crate::proxy::session::OperationDescriptorView;
use crate::proxy::session::Session;
use crate::proxy::session::TargetKind;
use crate::text;
use crate::view;
use crate::wire::LocationView;
use vstd::prelude::*;

verus! {

// ---------------------------------------------------------------------------
// Requests
// ---------------------------------------------------------------------------

proof fn argument_keys()
    ensures
        "project"@.len() == 7,
        "project"@[0] == 'p',
        "workspace"@.len() == 9,
        "workspace"@[0] == 'w',
        "file"@.len() == 4,
        "file"@[0] == 'f',
        "line"@.len() == 4,
        "line"@[0] == 'l',
        "character"@.len() == 9,
        "character"@[0] == 'c',
        "include_declaration"@.len() == 19,
        "new_name"@.len() == 8,
        "dry_run"@.len() == 7,
        "dry_run"@[0] == 'd',
{
    reveal_strlit("project");
    reveal_strlit("workspace");
    reveal_strlit("file");
    reveal_strlit("line");
    reveal_strlit("character");
    reveal_strlit("include_declaration");
    reveal_strlit("new_name");
    reveal_strlit("dry_run");
}

/// Arguments that name a place in a file of a project.
pub open spec fn asks_at(
    asked: JsonView,
    binding: BindingView,
    file: Seq<char>,
    p: Position,
) -> bool {
    &&& asked.text_at("project"@) == Some(binding.project_id)
    &&& asked.text_at("workspace"@) == Some(binding.workspace_path)
    &&& asked.text_at("file"@) == Some(file)
    &&& asked.count_at("line"@) == Some(p.line as u64)
    &&& asked.count_at("character"@) == Some(p.character as u64)
}

/// What the editor asks at a position is asked of the server at that position, in
/// the editor's own project and working copy. A rename is only ever previewed:
/// the editor makes the edit.
pub proof fn places_are_asked_about_as_they_are(
    binding: BindingView,
    file: Seq<char>,
    p: Position,
    include_declaration: bool,
    new_name: Seq<char>,
)
    ensures
        asks_at(
            backend::references_asked(binding, file, p, include_declaration),
            binding,
            file,
            p,
        ),
        backend::references_asked(binding, file, p, include_declaration).flag_at(
            "include_declaration"@,
        ) == Some(include_declaration),
        asks_at(backend::rename_asked(binding, file, p, new_name), binding, file, p),
        backend::rename_asked(binding, file, p, new_name).text_at("new_name"@) == Some(new_name),
        backend::rename_asked(binding, file, p, new_name).flag_at("dry_run"@) == Some(true),
{
    argument_keys();
}

/// What the proxy asks, the server reads as it was meant: the position and the
/// file come back out of the arguments.
pub proof fn the_server_reads_what_the_proxy_asks(
    binding: BindingView,
    file: Seq<char>,
    p: Position,
    new_name: Seq<char>,
)
    ensures
        ({
            let asked = backend::rename_asked(binding, file, p, new_name);
            &&& asked is Object
            &&& crate::ops::target_in(
                asked->Object_0,
                crate::operation::TargetKind::Position,
            ) == Ok::<crate::operation::TargetView, crate::protocol::McpErrorView>(
                crate::operation::TargetView::Position { file, position: p },
            )
            &&& crate::ops::wants_preview(asked->Object_0)
        }),
{
    places_are_asked_about_as_they_are(binding, file, p, true, new_name);
    let asked = backend::rename_asked(binding, file, p, new_name);
    requests::targets_are_what_the_arguments_name(asked->Object_0, file, p, p);
}

/// Arguments that are an object are sent as they are, nothing is sent as nothing,
/// and any other value goes along under a name of its own.
pub proof fn arguments_are_sent_as_they_are(args: JsonView)
    ensures
        args is Object ==> mcp::arguments_of(args) == Some(args->Object_0),
        args is Null ==> mcp::arguments_of(args) is None,
        !(args is Object || args is Null) ==> mcp::arguments_of(args) is Some && JsonView::Object(
            mcp::arguments_of(args)->Some_0,
        ).get("_"@) == Some(args),
{
}

// ---------------------------------------------------------------------------
// Answers
// ---------------------------------------------------------------------------

/// A tool's answer is what its first text says, else its structured content. An
/// error is told as one.
pub proof fn answers_are_read_from_the_first_text(
    tool: Seq<char>,
    result: ToolResult,
    read: Result<JsonView, Seq<char>>,
    shown: Seq<char>,
    k: int,
)
    requires
        forall|i: int| 0 <= i < k && i < result.content@.len() ==> #[trigger] result.content@[i] is Other,
        0 <= k <= result.content@.len(),
        k < result.content@.len() ==> result.content@[k] is Text,
    ensures
        ({
            let answer = mcp::answer_of(tool, result, read, shown);
            let has_text = k < result.content@.len();
            let failed = result.is_error == Some(true);
            &&& !failed && has_text && read is Ok ==> answer is Ok && answer->Ok_0 == read->Ok_0
            &&& !failed && has_text && read is Err ==> answer is Err && answer->Err_0
                == McpClientErrorView::BadJson(tool, read->Err_0)
            &&& !failed && !has_text && result.structured_content is Some ==> answer is Ok
                && answer->Ok_0 == result.structured_content->Some_0@
            &&& !failed && !has_text && result.structured_content is None ==> answer is Err
                && answer->Err_0 == McpClientErrorView::EmptyResult(tool)
            &&& failed && has_text ==> answer is Err && answer->Err_0
                == McpClientErrorView::ToolError(tool, result.content@[k]->Text_0@)
            &&& failed && !has_text && result.structured_content is Some ==> answer is Err
                && answer->Err_0 == McpClientErrorView::ToolError(tool, shown)
        }),
{
    first_text(result.content@, 0, k);
}

proof fn first_text(content: Seq<Block>, i: int, k: int)
    requires
        0 <= i <= k <= content.len(),
        forall|m: int| i <= m < k ==> #[trigger] content[m] is Other,
        k < content.len() ==> content[k] is Text,
    ensures
        k < content.len() ==> mcp::text_from(content, i) == Some(content[k]->Text_0@),
        k == content.len() ==> mcp::text_from(content, i) is None,
    decreases k - i,
{
    if i < k {
        assert(content[i] is Other);
        first_text(content, i + 1, k);
    }
}

/// A usage as the server tells it.
pub open spec fn is_usage(j: JsonView, file: Seq<char>, r: Range) -> bool {
    j.text_at("file"@) == Some(file) && shapes::points_at(j, r)
}

/// Every usage that the server tells is handed to the editor, in order, as a
/// place in a file of its working copy.
pub proof fn every_usage_is_located(
    usages: Seq<JsonView>,
    files: Seq<Seq<char>>,
    ranges: Seq<Range>,
    workspace: Seq<char>,
)
    requires
        usages.len() == files.len() == ranges.len(),
        forall|i: int|
            0 <= i < usages.len() ==> is_usage(#[trigger] usages[i], files[i], ranges[i])
                && convert::is_uri(convert::uri_text(path::joined(workspace, files[i]))),
    ensures
        ({
            let places = view::kept(convert::usage_places(usages, workspace));
            &&& places.len() == usages.len()
            &&& forall|i: int|
                0 <= i < usages.len() ==> #[trigger] places[i] == (LocationView {
                    uri: convert::uri_text(path::joined(workspace, files[i])),
                    range: ranges[i],
                })
        }),
{
    let all = Seq::new(
        usages.len(),
        |i: int|
            LocationView {
                uri: convert::uri_text(path::joined(workspace, files[i])),
                range: ranges[i],
            },
    );
    assert forall|i: int| 0 <= i < usages.len() implies #[trigger] convert::usage_places(
        usages,
        workspace,
    )[i] == Some(all[i]) by {
        assert(is_usage(usages[i], files[i], ranges[i]));
    }
    reports::all_are_kept(convert::usage_places(usages, workspace), all);
}

/// The usages are those that the answer lists; an answer without a list has none.
pub proof fn usages_are_those_listed(value: JsonView)
    ensures
        value.items_at("usages"@) is Some ==> convert::usages_of(value) == value.items_at(
            "usages"@,
        )->Some_0,
        value.items_at("usages"@) is None ==> convert::usages_of(value).len() == 0,
{
}

// ---------------------------------------------------------------------------
// Projects and operations
// ---------------------------------------------------------------------------

/// A value that spells a registered project.
pub open spec fn is_project(j: JsonView, p: RegisteredProjectView) -> bool {
    j.text_at("id"@) == Some(p.id) && j.text_at("root"@) == Some(p.root)
}

/// Every project that the server lists is read, in order.
pub proof fn every_project_is_read(items: Seq<JsonView>, projects: Seq<RegisteredProjectView>)
    requires
        items.len() == projects.len(),
        forall|i: int| 0 <= i < items.len() ==> is_project(#[trigger] items[i], projects[i]),
    ensures
        session::projects_of(JsonView::List(items)) == Some(projects),
{
    assert forall|i: int| 0 <= i < items.len() implies session::project_of(#[trigger] items[i])
        == Some(projects[i]) by {
        assert(is_project(items[i], projects[i]));
    }
    assert(session::projects_of(JsonView::List(items))->Some_0 =~= projects);
}

/// The project of a working copy is the first that is rooted there. Without one
/// it is the project that the directory's name implies, if it is registered.
pub proof fn projects_are_found_by_their_root(
    projects: Seq<RegisteredProjectView>,
    workspace: Seq<char>,
    k: int,
)
    ensures
        0 <= k < projects.len() && path::components(projects[k].root) == path::components(workspace)
            && (forall|i: int|
            0 <= i < k ==> path::components((#[trigger] projects[i]).root) != path::components(
                workspace,
            )) ==> project::project_in(projects, workspace) == Some(projects[k].id),
        (forall|i: int|
            0 <= i < projects.len() ==> path::components((#[trigger] projects[i]).root)
                != path::components(workspace)) ==> ({
            let found = project::project_in(projects, workspace);
            let implied = project::likely_id(workspace);
            let known = implied is Some && exists|i: int|
                0 <= i < projects.len() && (#[trigger] projects[i]).id == implied->Some_0;
            &&& known ==> found == implied
            &&& !known ==> found is None
        }),
{
    if 0 <= k < projects.len() && path::components(projects[k].root) == path::components(workspace)
        && (forall|i: int|
        0 <= i < k ==> path::components((#[trigger] projects[i]).root) != path::components(
            workspace,
        )) {
        first_rooted(projects, workspace, 0, k);
    }
    if forall|i: int|
        0 <= i < projects.len() ==> path::components((#[trigger] projects[i]).root)
            != path::components(workspace) {
        first_rooted(projects, workspace, 0, projects.len() as int);
    }
}

proof fn first_rooted(
    projects: Seq<RegisteredProjectView>,
    workspace: Seq<char>,
    i: int,
    k: int,
)
    requires
        0 <= i <= k <= projects.len(),
        forall|m: int|
            i <= m < k ==> path::components((#[trigger] projects[m]).root) != path::components(
                workspace,
            ),
        k < projects.len() ==> path::components(projects[k].root) == path::components(workspace),
    ensures
        project::rooted_from(projects, workspace, i) == (if k < projects.len() {
            Some(k)
        } else {
            None
        }),
    decreases k - i,
{
    if i < k {
        first_rooted(projects, workspace, i + 1, k);
    }
}

/// An id is made of a name in small letters: every letter and digit stays, every
/// other character becomes a dash, and the dashes at both ends go.
pub proof fn ids_are_made_of_letters_and_digits(lowered: Seq<char>, from: int, to: int)
    requires
        0 <= from < to <= lowered.len(),
        project::slug_char(lowered[from]),
        project::slug_char(lowered[to - 1]),
        forall|i: int| 0 <= i < from ==> !project::slug_char(#[trigger] lowered[i]),
        forall|i: int| to <= i < lowered.len() ==> !project::slug_char(#[trigger] lowered[i]),
    ensures
        project::slug_of(lowered).len() == to - from,
        forall|i: int|
            0 <= i < to - from ==> #[trigger] project::slug_of(lowered)[i] == (if project::slug_char(
                lowered[from + i],
            ) {
                lowered[from + i]
            } else {
                '-'
            }),
{
    let d = project::dashed(lowered);
    assert forall|i: int| 0 <= i < from implies d[i] == '-' by {
        assert(!project::slug_char(lowered[i]));
    }
    assert(d[from] != '-');
    front_goes(d, from);
    let e = d.skip(from);
    assert forall|i: int| to - from <= i < e.len() implies e[i] == '-' by {
        assert(!project::slug_char(lowered[from + i]));
    }
    assert(e[to - from - 1] == d[to - 1]);
    back_goes(e, to - from);
    assert(e.take(to - from).len() == to - from);
}

proof fn front_goes(s: Seq<char>, n: int)
    requires
        0 <= n < s.len(),
        forall|i: int| 0 <= i < n ==> s[i] == '-',
        s[n] != '-',
    ensures
        project::undash_front(s) == s.skip(n),
    decreases n,
{
    if n > 0 {
        assert(s.first() == '-');
        let rest = s.skip(1);
        assert forall|i: int| 0 <= i < n - 1 implies rest[i] == '-' by {
            assert(rest[i] == s[i + 1]);
        }
        front_goes(rest, n - 1);
        assert(rest.skip(n - 1) =~= s.skip(n));
    } else {
        assert(s.skip(0) =~= s);
    }
}

proof fn back_goes(s: Seq<char>, n: int)
    requires
        0 < n <= s.len(),
        forall|i: int| n <= i < s.len() ==> s[i] == '-',
        s[n - 1] != '-',
    ensures
        project::undash_back(s) == s.take(n),
    decreases s.len() - n,
{
    if n < s.len() {
        assert(s.last() == '-');
        back_goes(s.drop_last(), n);
        assert(s.drop_last().take(n) =~= s.take(n));
    } else {
        assert(s.take(n) =~= s);
    }
}

/// A value that spells an operation that the server offers.
pub open spec fn is_operation(j: JsonView, d: OperationDescriptorView) -> bool {
    &&& j.text_at("id"@) == Some(d.id)
    &&& j.text_at("title"@) == Some(d.title)
    &&& symbols::has_text(j, "code_action_kind"@, d.code_action_kind)
    &&& match j.get("target"@) {
        None => d.target == TargetKind::Position,
        Some(JsonView::Text(t)) => {
            ||| t == "position"@ && d.target == TargetKind::Position
            ||| t == "selection"@ && d.target == TargetKind::Selection
            ||| t == "file"@ && d.target == TargetKind::File
            ||| t == "project"@ && d.target == TargetKind::Project
        },
        _ => false,
    }
    &&& match j.get("languages"@) {
        None => d.languages.len() == 0,
        Some(JsonView::List(s)) => s.len() == d.languages.len() && forall|i: int|
            0 <= i < s.len() ==> #[trigger] s[i] == JsonView::Text(d.languages[i]),
        _ => false,
    }
}

/// Every operation that the server offers is read, in order.
pub proof fn every_operation_is_read(
    items: Seq<JsonView>,
    operations: Seq<OperationDescriptorView>,
)
    requires
        items.len() == operations.len(),
        forall|i: int| 0 <= i < items.len() ==> is_operation(#[trigger] items[i], operations[i]),
    ensures
        session::descriptors_of(JsonView::List(items)) == Some(operations),
{
    assert forall|i: int| 0 <= i < items.len() implies session::descriptor_of(#[trigger] items[i])
        == Some(operations[i]) by {
        operation_is_read(items[i], operations[i]);
    }
    assert(session::descriptors_of(JsonView::List(items))->Some_0 =~= operations);
}

proof fn operation_is_read(j: JsonView, d: OperationDescriptorView)
    requires
        is_operation(j, d),
    ensures
        session::descriptor_of(j) == Some(d),
{
    reveal_strlit("position");
    reveal_strlit("selection");
    reveal_strlit("file");
    reveal_strlit("project");
    assert("position"@.len() == 8);
    assert("selection"@.len() == 9);
    assert("file"@.len() == 4);
    assert("project"@.len() == 7);
    let none: Seq<Seq<char>> = Seq::empty();
    if j.get("languages"@) is None {
        assert(d.languages =~= none);
    } else {
        let s = j.get("languages"@)->Some_0->List_0;
        assert forall|i: int| 0 <= i < s.len() implies (#[trigger] s[i]) is Text by {
            assert(s[i] == JsonView::Text(d.languages[i]));
        }
        assert(Seq::new(s.len(), |i: int| s[i]->Text_0) =~= d.languages);
    }
}

/// An operation is known by its id: the first that has it.
pub proof fn operations_are_found_by_their_id(
    operations: Seq<OperationDescriptorView>,
    id: Seq<char>,
    i: int,
)
    requires
        0 <= i <= operations.len(),
    ensures
        match session::operation_from(operations, id, i) {
            Some(d) => d.id == id && exists|k: int|
                i <= k < operations.len() && d == #[trigger] operations[k] && forall|m: int|
                    i <= m < k ==> (#[trigger] operations[m]).id != id,
            None => forall|m: int|
                i <= m < operations.len() ==> (#[trigger] operations[m]).id != id,
        },
    decreases operations.len() - i,
{
    if i < operations.len() {
        if operations[i].id == id {
            assert(operations[i] == session::operation_from(operations, id, i)->Some_0);
        } else {
            operations_are_found_by_their_id(operations, id, i + 1);
        }
    }
}

/// Every command that the server's operations allow is announced to the editor,
/// and every kind of action, in the order of the operations.
pub proof fn what_is_offered_is_announced(
    operations: Seq<OperationDescriptorView>,
    more: OperationDescriptorView,
)
    ensures
        backend::offers(operations, "change-signature"@) ==> backend::advertised(
            operations,
        ).commands is Some && backend::advertised(operations).commands->Some_0.contains(
            "henka."@ + "change-signature"@,
        ),
        backend::offers(operations, "move"@) ==> backend::advertised(operations).commands is Some
            && backend::advertised(operations).commands->Some_0.contains("henka."@ + "move"@),
        backend::action_kinds(operations.push(more)) == (match more.code_action_kind {
            Some(kind) => backend::action_kinds(operations).push(kind),
            None => backend::action_kinds(operations),
        }),
        backend::action_kinds(operations).len() > 0 ==> backend::advertised(
            operations,
        ).code_action_provider is Some && backend::advertised(
            operations,
        ).code_action_provider->Some_0.code_action_kinds == Some(backend::action_kinds(operations)),
        backend::action_kinds(operations).len() == 0 ==> backend::advertised(
            operations,
        ).code_action_provider is None,
        backend::offers(operations, "find-usages"@) <==> backend::advertised(
            operations,
        ).references_provider == Some(true),
        backend::offers(operations, "rename"@) <==> backend::advertised(
            operations,
        ).rename_provider is Some,
{
    let commands = backend::commands_of(
        backend::offers(operations, "change-signature"@),
        backend::offers(operations, "move"@),
    );
    if backend::offers(operations, "change-signature"@) {
        assert(commands[0] == "henka."@ + "change-signature"@);
    }
    if backend::offers(operations, "move"@) {
        assert(commands[commands.len() - 1] == "henka."@ + "move"@);
    }
    let all = operations.push(more);
    let a = Seq::new(operations.len(), |i: int| operations[i].code_action_kind);
    let b = Seq::new(all.len(), |i: int| all[i].code_action_kind);
    assert(b.drop_last() =~= a);
}

/// An operation serves a file of one of its languages. One without languages
/// serves every file, and a file of no known language is served by every
/// operation.
pub proof fn operations_serve_files_of_their_languages(
    d: OperationDescriptorView,
    file: Seq<char>,
)
    ensures
        d.languages.len() == 0 ==> d.serves(file),
        crate::language::language_of(file) is None ==> d.serves(file),
        d.languages.len() > 0 && crate::language::language_of(file) is Some ==> (d.serves(file)
            <==> d.languages.contains(
            crate::language::language_name(crate::language::language_of(file)->Some_0),
        )),
{
}

// ---------------------------------------------------------------------------
// The editor
// ---------------------------------------------------------------------------

/// What a session looks up next: nothing once it is bound; the operations of the
/// project that it was told to use; else which project it is.
pub proof fn sessions_look_up_what_they_miss<C>(session: Session<C>)
    ensures
        session.bound() is Some ==> session.next_lookup() == LookupView::Bound,
        session.bound() is None && session.project_override is Some ==> session.next_lookup()
            == LookupView::ListOperations(session.project_override->Some_0@),
        session.bound() is None && session.project_override is None ==> session.next_lookup()
            == LookupView::ListProjects,
{
}

/// An editor is received where it counts as the server does and opens one folder,
/// whose path it is then known by. It is turned away otherwise.
pub proof fn editors_are_received_with_one_folder(params: JsonView)
    ensures
        ({
            let received = backend::received(params);
            let folders = params.items_at("workspaceFolders"@);
            let counts = params.get("capabilities"@) is Some && params.get(
                "capabilities"@,
            )->Some_0.get("general"@) is Some && params.get("capabilities"@)->Some_0.get(
                "general"@,
            )->Some_0.items_at("positionEncodings"@) is Some;
            let listed = params.get("capabilities"@)->Some_0.get("general"@)->Some_0.items_at(
                "positionEncodings"@,
            )->Some_0;
            &&& counts && !listed.contains(JsonView::Text("utf-16"@)) ==> received is Err
            &&& folders is Some && folders->Some_0.len() > 1 ==> received is Err
            &&& received is Ok && folders is Some && folders->Some_0.len() == 1
                ==> folders->Some_0[0].text_at("uri"@) is Some && convert::path_in(
                folders->Some_0[0].text_at("uri"@)->Some_0,
            ) == Some(received->Ok_0)
            &&& received is Ok && (folders is None || folders->Some_0.len() == 0)
                && params.text_at("rootUri"@) is Some ==> convert::path_in(
                params.text_at("rootUri"@)->Some_0,
            ) == Some(received->Ok_0)
            &&& received is Ok && (folders is None || folders->Some_0.len() == 0)
                && params.text_at("rootUri"@) is None ==> params.text_at("rootPath"@) == Some(
                received->Ok_0,
            )
            &&& !counts && folders is Some && folders->Some_0.len() == 1
                && folders->Some_0[0].text_at("uri"@) is Some && convert::path_in(
                folders->Some_0[0].text_at("uri"@)->Some_0,
            ) is Some ==> received is Ok
        }),
{
}

/// An editor takes document changes only where it says so.
pub proof fn document_changes_are_asked_for(params: JsonView)
    ensures
        session::takes_document_changes(params) <==> params.get("capabilities"@) is Some
            && params.get("capabilities"@)->Some_0.get("workspace"@) is Some && params.get(
            "capabilities"@,
        )->Some_0.get("workspace"@)->Some_0.get("workspaceEdit"@) is Some && params.get(
            "capabilities"@,
        )->Some_0.get("workspace"@)->Some_0.get("workspaceEdit"@)->Some_0.flag_at(
            "documentChanges"@,
        ) == Some(true),
{
}

/// The project of a session is found among those that the server lists; what goes
/// wrong on the way is told as it is.
pub proof fn sessions_find_their_project(
    workspace: Seq<char>,
    answer: Result<JsonView, McpClientErrorView>,
    complaint: Seq<char>,
)
    ensures
        ({
            let found = session::project_found(workspace, answer, complaint);
            let listed = session::projects_of(answer->Ok_0);
            &&& answer is Err ==> found is Err && found->Err_0 == session::internal(answer->Err_0)
            &&& answer is Ok && listed is Some && project::project_in(listed->Some_0, workspace)
                is Some ==> found is Ok && Some(found->Ok_0) == project::project_in(
                listed->Some_0,
                workspace,
            )
            &&& answer is Ok && listed is Some && project::project_in(listed->Some_0, workspace)
                is None ==> found is Err && found->Err_0.code == session::LspErrorCode::InvalidParams
            &&& answer is Ok && listed is None ==> found is Err && found->Err_0.code
                == session::LspErrorCode::InternalError
        }),
        ({
            let found = session::operations_found(answer, complaint);
            let listed = session::descriptors_of(answer->Ok_0);
            &&& answer is Err ==> found is Err && found->Err_0 == session::internal(answer->Err_0)
            &&& answer is Ok && listed is Some ==> found is Ok && Some(found->Ok_0) == listed
            &&& answer is Ok && listed is None ==> found is Err && found->Err_0.code
                == session::LspErrorCode::InternalError
        }),
{
}

/// What is told of a failed call holds what the other side said.
pub proof fn failed_calls_are_told(tool: Seq<char>, said: Seq<char>)
    ensures
        session::internal(McpClientErrorView::ToolError(tool, said)).message == "MCP tool `"@ + tool
            + "` returned an error: "@ + said,
        session::internal(McpClientErrorView::Call(tool, said)).message == "MCP call `"@ + tool
            + "` failed: "@ + said,
        session::internal(McpClientErrorView::BadJson(tool, said)).message == "MCP tool `"@ + tool
            + "` returned malformed JSON: "@ + said,
        session::internal(McpClientErrorView::ToolError(tool, said)).code
            == session::LspErrorCode::InternalError,
{
}

/// The state of the project is told to the editor: its id, its revision and its
/// digest as the server tells them, and how many files differ.
pub proof fn states_are_told_to_the_editor(id: Seq<char>, status: JsonView, v: JsonView)
    requires
        status.get("vcs"@) == Some(v),
    ensures
        ({
            let line = backend::status_line(id, status);
            let changed = match v.items_at("changed_files"@) {
                Some(s) => s.len(),
                None => 0,
            };
            let revision = match v.text_at("revision"@) {
                Some(r) => r,
                None => "<none>"@,
            };
            let head = "henka sees project `"@ + id + "` at revision "@ + revision + " (digest "@;
            let tail = ", "@ + text::decimal(changed) + " changed files)"@;
            &&& head.is_prefix_of(line)
            &&& v.text_at("digest"@) is Some ==> line == head + v.text_at("digest"@)->Some_0 + tail
            &&& v.text_at("digest"@) is None ==> line == head + "<clean>"@ + tail
        }),
{
    let line = backend::status_line(id, status);
    let changed = match v.items_at("changed_files"@) {
        Some(s) => s.len(),
        None => 0,
    };
    let revision = match v.text_at("revision"@) {
        Some(r) => r,
        None => "<none>"@,
    };
    let digest = match v.text_at("digest"@) {
        Some(d) => d,
        None => "<clean>"@,
    };
    let head = "henka sees project `"@ + id + "` at revision "@ + revision + " (digest "@;
    let tail = ", "@ + text::decimal(changed) + " changed files)"@;
    assert(line =~= head + digest + tail);
    assert(line.subrange(0, head.len() as int) =~= head);
}

} // verus!
