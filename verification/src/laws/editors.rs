//! Editors: what an editor asks for over the language-server protocol, and what
//! it is answered.

use crate::edit::Position;
use crate::edit::Range;
use crate::error;
use crate::json::JsonView;
use crate::laws::reports;
use crate::laws::shapes;
use crate::lsp::mapping;
use crate::lsp::mapping::IdentityView;
use crate::lsp::session;
use crate::lsp::session::FailView;
use crate::lsp::session::Shape;
use crate::lsp::session::StepView;
use crate::operation::TargetView;
use crate::path;
use crate::text;
use crate::uri;
use crate::view;
use vstd::prelude::*;

verus! {

// ---------------------------------------------------------------------------
// Messages
// ---------------------------------------------------------------------------

/// Every request is answered under its own id, with its result or with what went
/// wrong, and never with both.
pub proof fn answers_bear_the_id_of_their_request(id: JsonView, result: JsonView, fail: FailView)
    ensures
        session::replied(id, result).get("id"@) == Some(id),
        session::replied(id, result).get("result"@) == Some(result),
        session::replied(id, result).get("error"@) is None,
        session::replied(id, result).text_at("jsonrpc"@) == Some("2.0"@),
        session::refused(id, fail).get("id"@) == Some(id),
        session::refused(id, fail).get("result"@) is None,
        session::refused(id, fail).text_at("jsonrpc"@) == Some("2.0"@),
        session::refused(id, fail).get("error"@) is Some,
        session::refused(id, fail).get("error"@)->Some_0.text_at("message"@) == Some(fail.message),
        fail.code < 0 ==> session::refused(id, fail).get("error"@)->Some_0.get("code"@) == Some(
            JsonView::Number(crate::json::NumberView::Negative(fail.code)),
        ),
{
    reveal_strlit("jsonrpc");
    reveal_strlit("id");
    reveal_strlit("result");
    reveal_strlit("error");
    reveal_strlit("code");
    reveal_strlit("message");
    assert("jsonrpc"@.len() == 7);
    assert("id"@.len() == 2);
    assert("result"@.len() == 6);
    assert("error"@.len() == 5);
    assert("code"@.len() == 4);
    assert("message"@.len() == 7);
}

/// A failure is told with the code for its cause.
pub proof fn failures_have_the_code_of_their_cause(e: error::ErrorView, message: Seq<char>)
    ensures
        session::failed_as(e, message).message == message,
        session::failed_as(e, message).code == (if e.kind == error::ErrorKind::Backend || e.kind
            == error::ErrorKind::ConfigRead || e.kind == error::ErrorKind::ConfigWrite || e.kind
            == error::ErrorKind::Io {
            -32603i64
        } else {
            -32602i64
        }),
        session::METHOD_NOT_FOUND == -32601i64,
{
}

// ---------------------------------------------------------------------------
// What is asked
// ---------------------------------------------------------------------------

/// A request about a document and a position in it.
pub open spec fn is_at(params: JsonView, uri: Seq<char>, p: Position) -> bool {
    &&& params.get("textDocument"@) is Some
    &&& params.get("textDocument"@)->Some_0.text_at("uri"@) == Some(uri)
    &&& params.get("position"@) is Some
    &&& shapes::is_position(params.get("position"@)->Some_0, p)
}

/// A position in a document is a position in the file of the document.
pub proof fn positions_are_in_the_file_of_the_document(
    params: JsonView,
    uri: Seq<char>,
    p: Position,
)
    requires
        is_at(params, uri, p),
    ensures
        mapping::position_target_of(params) == Ok::<TargetView, Seq<char>>(
            TargetView::Position { file: uri::path_of(uri), position: p },
        ),
{
}

/// A request without a document or a position is refused.
pub proof fn positions_are_never_made_up(params: JsonView)
    requires
        params.get("textDocument"@) is None || params.get("textDocument"@)->Some_0.text_at("uri"@)
            is None || params.get("position"@) is None || params.get("position"@)->Some_0.count_at(
            "line"@,
        ) is None || params.get("position"@)->Some_0.count_at("character"@) is None,
    ensures
        mapping::position_target_of(params) is Err,
{
}

/// A run of an operation for the project that the editor opened.
pub open spec fn runs(
    step: Result<StepView, FailView>,
    id: IdentityView,
    operation: Seq<char>,
    target: TargetView,
    params: JsonView,
    shape: Shape,
) -> bool {
    match step {
        Ok(StepView::Run(work)) => {
            &&& work.operation == operation
            &&& work.target == target
            &&& work.params == params
            &&& work.project_id == id.project_id
            &&& work.workspace == id.workspace
            &&& work.shape == shape
        },
        _ => false,
    }
}

proof fn method_names()
    ensures
        "initialize"@.len() == 10,
        "initialized"@.len() == 11,
        "shutdown"@.len() == 8,
        "textDocument/references"@.len() == 23,
        "textDocument/definition"@.len() == 23,
        "textDocument/references"@[13] == 'r',
        "textDocument/definition"@[13] == 'd',
        "textDocument/implementation"@.len() == 27,
        "textDocument/hover"@.len() == 18,
        "textDocument/documentSymbol"@.len() == 27,
        "textDocument/implementation"@[13] == 'i',
        "textDocument/documentSymbol"@[13] == 'd',
        "textDocument/prepareCallHierarchy"@.len() == 33,
        "callHierarchy/incomingCalls"@.len() == 27,
        "callHierarchy/outgoingCalls"@.len() == 27,
        "callHierarchy/incomingCalls"@[0] == 'c',
        "callHierarchy/outgoingCalls"@[0] == 'c',
        "textDocument/implementation"@[0] == 't',
        "textDocument/documentSymbol"@[0] == 't',
        "callHierarchy/incomingCalls"@[14] == 'i',
        "callHierarchy/outgoingCalls"@[14] == 'o',
        "textDocument/rename"@.len() == 19,
        "textDocument/prepareRename"@.len() == 26,
        "workspace/executeCommand"@.len() == 24,
        "textDocument/codeAction"@.len() == 23,
        "textDocument/codeAction"@[13] == 'c',
{
    reveal_strlit("initialize");
    reveal_strlit("initialized");
    reveal_strlit("shutdown");
    reveal_strlit("textDocument/references");
    reveal_strlit("textDocument/definition");
    reveal_strlit("textDocument/implementation");
    reveal_strlit("textDocument/hover");
    reveal_strlit("textDocument/documentSymbol");
    reveal_strlit("textDocument/prepareCallHierarchy");
    reveal_strlit("callHierarchy/incomingCalls");
    reveal_strlit("callHierarchy/outgoingCalls");
    reveal_strlit("textDocument/rename");
    reveal_strlit("textDocument/prepareRename");
    reveal_strlit("workspace/executeCommand");
    reveal_strlit("textDocument/codeAction");
}

/// What an editor asks at a position is run as the operation for it: at that
/// position, in the project that was opened, and answered in the shape that the
/// editor expects.
pub proof fn requests_at_a_position_run_their_operation(
    id: IdentityView,
    params: JsonView,
    uri: Seq<char>,
    p: Position,
)
    requires
        is_at(params, uri, p),
    ensures
        ({
            let at = TargetView::Position { file: uri::path_of(uri), position: p };
            let none = JsonView::Object(Map::empty());
            &&& runs(
                session::step_of(Some(id), "textDocument/references"@, params),
                id,
                "find-usages"@,
                at,
                none,
                Shape::Usages,
            )
            &&& runs(
                session::step_of(Some(id), "textDocument/definition"@, params),
                id,
                "go-to-definition"@,
                at,
                none,
                Shape::Definitions,
            )
            &&& runs(
                session::step_of(Some(id), "textDocument/implementation"@, params),
                id,
                "find-implementations"@,
                at,
                none,
                Shape::Implementations,
            )
            &&& runs(
                session::step_of(Some(id), "textDocument/hover"@, params),
                id,
                "describe-symbol"@,
                at,
                none,
                Shape::Hover,
            )
            &&& runs(
                session::step_of(Some(id), "textDocument/prepareCallHierarchy"@, params),
                id,
                "prepare-call-hierarchy"@,
                at,
                none,
                Shape::Items,
            )
        }),
{
    method_names();
    positions_are_in_the_file_of_the_document(params, uri, p);
}

/// A rename is run at the position with the new name, and is made. Without a new
/// name nothing is run.
pub proof fn renames_run_with_the_new_name(
    id: IdentityView,
    params: JsonView,
    uri: Seq<char>,
    p: Position,
)
    requires
        is_at(params, uri, p),
    ensures
        ({
            let step = session::step_of(Some(id), "textDocument/rename"@, params);
            let name = params.text_at("newName"@);
            &&& name is Some && name->Some_0.len() > 0 ==> step is Ok && step->Ok_0 is Run
                && !step->Ok_0->Run_0.dry_run && step->Ok_0->Run_0.operation == "rename"@
                && step->Ok_0->Run_0.target == (TargetView::Position {
                file: uri::path_of(uri),
                position: p,
            }) && step->Ok_0->Run_0.params.text_at("new_name"@) == name
                && step->Ok_0->Run_0.project_id == id.project_id && step->Ok_0->Run_0.workspace
                == id.workspace
            &&& name is None || name->Some_0.len() == 0 ==> step is Err
        }),
{
    method_names();
    positions_are_in_the_file_of_the_document(params, uri, p);
}

/// The outline is that of the document's file, and calls are walked from the
/// handle that the editor hands back, as it is.
pub proof fn requests_without_a_position_run_their_operation(
    id: IdentityView,
    params: JsonView,
    uri: Seq<char>,
    item: JsonView,
)
    ensures
        params.get("textDocument"@) is Some && params.get("textDocument"@)->Some_0.text_at("uri"@)
            == Some(uri) ==> runs(
            session::step_of(Some(id), "textDocument/documentSymbol"@, params),
            id,
            "file-outline"@,
            TargetView::File { file: uri::path_of(uri) },
            JsonView::Object(Map::empty()),
            Shape::Outline,
        ),
        params.get("item"@) == Some(item) && item is Object ==> {
            let incoming = session::step_of(Some(id), "callHierarchy/incomingCalls"@, params);
            let outgoing = session::step_of(Some(id), "callHierarchy/outgoingCalls"@, params);
            &&& incoming is Ok && incoming->Ok_0 is Run && incoming->Ok_0->Run_0.params.get(
                "item"@,
            ) == Some(item)
            &&& outgoing is Ok && outgoing->Ok_0 is Run && outgoing->Ok_0->Run_0.params.get(
                "item"@,
            ) == Some(item)
            &&& runs(
                incoming,
                id,
                "incoming-calls"@,
                TargetView::Project,
                incoming->Ok_0->Run_0.params,
                Shape::Incoming,
            )
            &&& runs(
                outgoing,
                id,
                "outgoing-calls"@,
                TargetView::Project,
                outgoing->Ok_0->Run_0.params,
                Shape::Outgoing,
            )
        },
        !(params.get("item"@) is Some && params.get("item"@)->Some_0 is Object)
            ==> session::step_of(Some(id), "callHierarchy/incomingCalls"@, params) is Err
            && session::step_of(Some(id), "callHierarchy/outgoingCalls"@, params) is Err,
{
    method_names();
}

/// A command is run under its name, with the first of its arguments, for the
/// project that was opened.
pub proof fn commands_run_under_their_name(id: IdentityView, params: JsonView)
    ensures
        ({
            let step = session::step_of(Some(id), "workspace/executeCommand"@, params);
            let listed = params.items_at("arguments"@);
            &&& step is Ok <==> params.text_at("command"@) is Some
            &&& step is Ok ==> step->Ok_0 is Command && Some(step->Ok_0->Command_command)
                == params.text_at("command"@) && step->Ok_0->Command_project_id == id.project_id
                && step->Ok_0->Command_workspace == id.workspace
            &&& step is Ok && listed is Some && listed->Some_0.len() > 0 && listed->Some_0[0]
                is Object ==> JsonView::Object(step->Ok_0->Command_args) == listed->Some_0[0]
            &&& step is Ok && (listed is None || listed->Some_0.len() == 0)
                ==> step->Ok_0->Command_args == Map::<Seq<char>, JsonView>::empty()
        }),
{
    method_names();
}

/// What needs no project is answered at once.
pub proof fn other_requests_are_answered_at_once(identity: Option<IdentityView>, params: JsonView)
    ensures
        session::step_of(identity, "initialize"@, params) == Ok::<StepView, FailView>(
            StepView::Welcome,
        ),
        session::step_of(identity, "shutdown"@, params) == Ok::<StepView, FailView>(
            StepView::Answer(JsonView::Null),
        ),
        session::step_of(identity, "textDocument/prepareRename"@, params) == Ok::<
            StepView,
            FailView,
        >(StepView::Answer(JsonView::Null)),
        session::step_of(identity, "textDocument/codeAction"@, params) == Ok::<StepView, FailView>(
            StepView::Answer(JsonView::List(Seq::empty())),
        ),
{
    method_names();
}

// ---------------------------------------------------------------------------
// Which project
// ---------------------------------------------------------------------------

/// The project of a folder has the name of the folder. A folder whose name goes
/// on behind a dot is a working copy of the project named before the dot.
pub proof fn folders_name_their_project(params: JsonView, folder: Seq<char>, name: Seq<char>)
    requires
        mapping::folder_of(params) == Some(folder),
        path::file_name_of(folder) == Some(name),
        name.len() > 0,
    ensures
        ({
            let id = mapping::identity_of(params);
            let plain = forall|i: int| 0 <= i < name.len() ==> name[i] != '.';
            &&& plain ==> id == Some(
                IdentityView { project_id: name, folder, workspace: None::<Seq<char>> },
            )
            &&& !plain && name[0] != '.' ==> id is Some && id->Some_0.folder == folder
                && id->Some_0.workspace == Some(folder) && id->Some_0.project_id.len() < name.len()
                && name.take(id->Some_0.project_id.len() as int) == id->Some_0.project_id
                && name[id->Some_0.project_id.len() as int] == '.' && forall|i: int|
                0 <= i < id->Some_0.project_id.len() ==> #[trigger] id->Some_0.project_id[i] != '.'
            &&& name[0] == '.' ==> id is None
        }),
{
    text::next_of_bounds(name, '.', 0);
    let dot = text::next_of(name, '.', 0);
    assert(name.take(name.len() as int) =~= name);
    if dot < name.len() {
        assert(name[dot] == '.');
        assert(name.take(dot).len() == dot);
        assert forall|i: int| 0 <= i < dot implies #[trigger] name.take(dot)[i] != '.' by {
            assert(name.take(dot)[i] == name[i]);
        }
    }
}

/// The folder is the first that the editor names, else its root.
pub proof fn the_first_folder_counts(params: JsonView)
    ensures
        ({
            let folders = params.items_at("workspaceFolders"@);
            let first = folders is Some && folders->Some_0.len() > 0 && folders->Some_0[0].text_at(
                "uri"@,
            ) is Some;
            &&& first ==> mapping::folder_of(params) == Some(
                uri::path_of(folders->Some_0[0].text_at("uri"@)->Some_0),
            )
            &&& !first && params.text_at("rootUri"@) is Some ==> mapping::folder_of(params) == Some(
                uri::path_of(params.text_at("rootUri"@)->Some_0),
            )
            &&& !first && params.text_at("rootUri"@) is None ==> mapping::folder_of(params)
                == params.text_at("rootPath"@)
        }),
{
}

// ---------------------------------------------------------------------------
// What is answered
// ---------------------------------------------------------------------------

/// An entry of a report that points at a place in a file.
pub open spec fn is_entry(entry: JsonView, file: Seq<char>, r: Range) -> bool {
    entry.text_at("file"@) == Some(file) && shapes::points_at(entry, r)
}

proof fn answer_keys()
    ensures
        "uri"@.len() == 3,
        "range"@.len() == 5,
        "range"@[0] == 'r',
        "start"@.len() == 5,
        "start"@[0] == 's',
        "end"@.len() == 3,
        "line"@.len() == 4,
        "character"@.len() == 9,
        "text"@.len() == 4,
        "context"@.len() == 7,
        "context_start_line"@.len() == 18,
        "name"@.len() == 4,
        "name"@[0] == 'n',
        "kind"@.len() == 4,
        "kind"@[0] == 'k',
        "text"@[0] == 't',
        "selectionRange"@.len() == 14,
        "children"@.len() == 8,
        "children"@[0] == 'c',
        "contents"@.len() == 8,
        "contents"@[1] == 'o',
        "value"@.len() == 5,
        "detail"@.len() == 6,
        "fromRanges"@.len() == 10,
{
    reveal_strlit("uri");
    reveal_strlit("range");
    reveal_strlit("start");
    reveal_strlit("end");
    reveal_strlit("line");
    reveal_strlit("character");
    reveal_strlit("text");
    reveal_strlit("context");
    reveal_strlit("context_start_line");
    reveal_strlit("name");
    reveal_strlit("kind");
    reveal_strlit("selectionRange");
    reveal_strlit("children");
    reveal_strlit("contents");
    reveal_strlit("value");
    reveal_strlit("detail");
    reveal_strlit("fromRanges");
}

proof fn ranges_are_spelled_out(entry: JsonView, r: Range)
    requires
        shapes::points_at(entry, r),
    ensures
        shapes::is_range(mapping::range_in(entry), r),
{
    answer_keys();
}

/// Every place of a report is answered, in order, as a place in a file of the
/// folder that the editor opened.
pub proof fn every_place_is_answered(
    entries: Seq<JsonView>,
    files: Seq<Seq<char>>,
    ranges: Seq<Range>,
    folder: Seq<char>,
)
    requires
        entries.len() == files.len() == ranges.len(),
        forall|i: int| 0 <= i < entries.len() ==> is_entry(#[trigger] entries[i], files[i], ranges[i]),
    ensures
        ({
            let answered = mapping::locations_in(entries, folder);
            &&& answered.len() == entries.len()
            &&& forall|i: int|
                0 <= i < entries.len() ==> shapes::is_location(
                    #[trigger] answered[i],
                    uri::file_uri(path::joined(folder, files[i])),
                    ranges[i],
                )
        }),
{
    let answered = mapping::locations_in(entries, folder);
    assert forall|i: int| 0 <= i < entries.len() implies shapes::is_location(
        #[trigger] answered[i],
        uri::file_uri(path::joined(folder, files[i])),
        ranges[i],
    ) by {
        assert(is_entry(entries[i], files[i], ranges[i]));
        answer_keys();
        ranges_are_spelled_out(entries[i], ranges[i]);
        let m = map![
            "uri"@ => mapping::uri_in(folder, entries[i]),
            "range"@ => mapping::range_in(entries[i])
        ];
        mapping::carrying_keeps_the_rest(entries[i], m, "uri"@);
        mapping::carrying_keeps_the_rest(entries[i], m, "range"@);
    }
}

/// What an editor is answered is what the report lists under the name for what
/// it asked.
pub proof fn answers_are_what_the_report_lists(
    query: JsonView,
    listed: Seq<JsonView>,
    folder: Seq<char>,
)
    ensures
        query.items_at("usages"@) == Some(listed) ==> session::shaped(
            Shape::Usages,
            query,
            folder,
        ) == JsonView::List(mapping::locations_in(listed, folder)),
        query.items_at("definitions"@) == Some(listed) ==> session::shaped(
            Shape::Definitions,
            query,
            folder,
        ) == JsonView::List(mapping::locations_in(listed, folder)),
        query.items_at("implementations"@) == Some(listed) ==> session::shaped(
            Shape::Implementations,
            query,
            folder,
        ) == JsonView::List(mapping::locations_in(listed, folder)),
        query.items_at("symbols"@) == Some(listed) ==> session::shaped(Shape::Outline, query, folder)
            == JsonView::List(mapping::symbols_in(listed)),
        query.items_at("items"@) == Some(listed) ==> session::shaped(Shape::Items, query, folder)
            == JsonView::List(view::kept(mapping::handles_in(listed))),
        query.items_at("calls"@) == Some(listed) ==> session::shaped(Shape::Incoming, query, folder)
            == JsonView::List(view::kept(mapping::calls_in(listed, "from"@))),
        query.items_at("calls"@) == Some(listed) ==> session::shaped(Shape::Outgoing, query, folder)
            == JsonView::List(view::kept(mapping::calls_in(listed, "to"@))),
        session::shaped(Shape::Whole, query, folder) == query,
{
}

/// A description is answered as marked-up text, with its range where it has one;
/// an empty one is answered with nothing.
pub proof fn descriptions_are_answered(query: JsonView, t: Seq<char>, r: Range)
    requires
        query.text_at("text"@) == Some(t),
    ensures
        ({
            let answered = mapping::hover_in(query);
            let contents = answered.get("contents"@);
            &&& t.len() == 0 ==> answered == JsonView::Null
            &&& t.len() > 0 ==> contents is Some && contents->Some_0.text_at("value"@) == Some(t)
                && contents->Some_0.text_at("kind"@) == Some("markdown"@)
            &&& t.len() > 0 && shapes::points_at(query, r) ==> shapes::has_range(
                answered,
                "range"@,
                r,
            )
            &&& t.len() > 0 && query.get("start_line"@) is None ==> answered.get("range"@) is None
        }),
{
    answer_keys();
    if shapes::points_at(query, r) {
        ranges_are_spelled_out(query, r);
    }
}

/// Every symbol of an outline is answered, in order and nested as it is, with its
/// name, its kind and the range of its name.
pub proof fn symbols_are_answered(entry: JsonView, r: Range)
    requires
        shapes::points_at(entry, r),
    ensures
        ({
            let answered = mapping::symbol_in(entry);
            &&& entry.get("name"@) is Some ==> answered.get("name"@) == entry.get("name"@)
            &&& entry.get("kind"@) is Some ==> answered.get("kind"@) == entry.get("kind"@)
            &&& entry.get("detail"@) is Some ==> answered.get("detail"@) == entry.get("detail"@)
            &&& shapes::has_range(answered, "selectionRange"@, r)
            &&& answered.items_at("children"@) is Some
            &&& entry.items_at("children"@) is Some ==> answered.items_at("children"@) == Some(
                mapping::symbols_in(entry.items_at("children"@)->Some_0),
            )
            &&& entry.items_at("children"@) is None ==> answered.items_at("children"@)->Some_0.len()
                == 0
        }),
{
    answer_keys();
    ranges_are_spelled_out(entry, r);
}

/// The symbols of a list are answered one for one.
pub proof fn lists_of_symbols_are_answered_one_for_one(entries: Seq<JsonView>)
    ensures
        mapping::symbols_in(entries).len() == entries.len(),
        forall|i: int|
            0 <= i < entries.len() ==> #[trigger] mapping::symbols_in(entries)[i]
                == mapping::symbol_in(entries[i]),
{
}

/// The extent of a symbol is that of its declaration, in lines, from the start of
/// its first line.
pub proof fn extents_are_those_of_the_declaration(entry: JsonView, r: Range, first: u32, last: u32)
    requires
        shapes::points_at(entry, r),
        entry.count_at("body_start_line"@) == Some(first as u64),
        entry.count_at("body_end_line"@) == Some(last as u64),
        first <= r.start.line,
        r.end.line <= last,
    ensures
        shapes::is_range(
            mapping::extent_in(entry),
            Range {
                start: Position { line: first, character: 0 },
                end: if last > r.end.line {
                    Position { line: last, character: 0 }
                } else {
                    r.end
                },
            },
        ),
        shapes::has_range(
            mapping::symbol_in(entry),
            "range"@,
            Range {
                start: Position { line: first, character: 0 },
                end: if last > r.end.line {
                    Position { line: last, character: 0 }
                } else {
                    r.end
                },
            },
        ),
{
    answer_keys();
}

/// A handle is answered as the server gave it out, and is told apart from others
/// by the source that goes with it.
pub proof fn handles_are_answered_as_given(entry: JsonView, item: JsonView, k: Seq<char>)
    requires
        entry.get("item"@) == Some(item),
        item is Object,
    ensures
        mapping::handle_in(entry) is Some,
        k != "text"@ && k != "context"@ && k != "context_start_line"@ ==> mapping::handle_in(
            entry,
        )->Some_0.get(k) == item.get(k),
{
    mapping::carrying_keeps_the_rest(entry, item->Object_0, k);
}

/// A call is answered with the handle of its other end, and with every place it
/// is made at, in order.
pub proof fn calls_are_answered(
    call: JsonView,
    direction: Seq<char>,
    item: JsonView,
    sites: Seq<Range>,
)
    requires
        direction != "fromRanges"@,
        call.get(direction) is Some,
        call.get(direction)->Some_0.get("item"@) == Some(item),
        item is Object,
        call.items_at("ranges"@) is Some,
        call.items_at("ranges"@)->Some_0.len() == sites.len(),
        forall|i: int|
            0 <= i < sites.len() ==> shapes::points_at(
                call.items_at("ranges"@)->Some_0[i],
                #[trigger] sites[i],
            ),
    ensures
        ({
            let answered = mapping::call_in(call, direction);
            &&& answered is Some
            &&& answered->Some_0.get(direction) == mapping::handle_in(
                call.get(direction)->Some_0,
            )
            &&& answered->Some_0.items_at("fromRanges"@) is Some
            &&& answered->Some_0.items_at("fromRanges"@)->Some_0.len() == sites.len()
            &&& forall|i: int|
                0 <= i < sites.len() ==> shapes::is_range(
                    answered->Some_0.items_at("fromRanges"@)->Some_0[i],
                    #[trigger] sites[i],
                )
        }),
{
    let ranges = call.items_at("ranges"@)->Some_0;
    let answered = mapping::call_in(call, direction)->Some_0;
    assert forall|i: int| 0 <= i < sites.len() implies shapes::is_range(
        answered.items_at("fromRanges"@)->Some_0[i],
        #[trigger] sites[i],
    ) by {
        assert(shapes::points_at(ranges[i], sites[i]));
        answer_keys();
        ranges_are_spelled_out(ranges[i], sites[i]);
        let m = mapping::range_in(ranges[i])->Object_0;
        mapping::carrying_keeps_the_rest(ranges[i], m, "start"@);
        mapping::carrying_keeps_the_rest(ranges[i], m, "end"@);
        assert(answered.items_at("fromRanges"@)->Some_0[i] == mapping::site_in(ranges[i]));
    }
}

/// Every handle and every call that a report lists is answered, in order.
pub proof fn every_call_is_answered(entries: Seq<JsonView>, direction: Seq<char>)
    ensures
        (forall|i: int|
            0 <= i < entries.len() ==> (#[trigger] entries[i]).get("item"@) is Some) ==> ({
            let answered = view::kept(mapping::handles_in(entries));
            &&& answered.len() == entries.len()
            &&& forall|i: int|
                0 <= i < entries.len() ==> Some(#[trigger] answered[i]) == mapping::handle_in(
                    entries[i],
                )
        }),
        (forall|i: int|
            0 <= i < entries.len() ==> (#[trigger] entries[i]).get(direction) is Some
                && entries[i].get(direction)->Some_0.get("item"@) is Some) ==> ({
            let answered = view::kept(mapping::calls_in(entries, direction));
            &&& answered.len() == entries.len()
            &&& forall|i: int|
                0 <= i < entries.len() ==> Some(#[trigger] answered[i]) == mapping::call_in(
                    entries[i],
                    direction,
                )
        }),
{
    if forall|i: int| 0 <= i < entries.len() ==> (#[trigger] entries[i]).get("item"@) is Some {
        let all = Seq::new(entries.len(), |i: int| mapping::handle_in(entries[i])->Some_0);
        assert forall|i: int| 0 <= i < entries.len() implies #[trigger] mapping::handles_in(
            entries,
        )[i] == Some(all[i]) by {
            assert(entries[i].get("item"@) is Some);
        }
        reports::all_are_kept(mapping::handles_in(entries), all);
        assert forall|i: int| 0 <= i < entries.len() implies Some(#[trigger] all[i])
            == mapping::handle_in(entries[i]) by {
            assert(entries[i].get("item"@) is Some);
        }
    }
    if forall|i: int|
        0 <= i < entries.len() ==> (#[trigger] entries[i]).get(direction) is Some
            && entries[i].get(direction)->Some_0.get("item"@) is Some {
        let all = Seq::new(entries.len(), |i: int| mapping::call_in(entries[i], direction)->Some_0);
        assert forall|i: int| 0 <= i < entries.len() implies #[trigger] mapping::calls_in(
            entries,
            direction,
        )[i] == Some(all[i]) by {
            assert(entries[i].get(direction) is Some);
        }
        reports::all_are_kept(mapping::calls_in(entries, direction), all);
        assert forall|i: int| 0 <= i < entries.len() implies Some(#[trigger] all[i])
            == mapping::call_in(entries[i], direction) by {
            assert(entries[i].get(direction) is Some);
        }
    }
}

/// The editor is told of every operation that it can run as a command.
pub proof fn commands_are_all_announced(commands: Seq<Seq<char>>, version: Seq<char>)
    ensures
        ({
            let told = session::capabilities_of(commands, version).get("capabilities"@);
            let listed = told->Some_0.get("executeCommandProvider"@)->Some_0.items_at("commands"@);
            &&& told is Some
            &&& told->Some_0.get("executeCommandProvider"@) is Some
            &&& listed is Some
            &&& listed->Some_0.len() == commands.len()
            &&& forall|i: int|
                0 <= i < commands.len() ==> #[trigger] listed->Some_0[i] == JsonView::Text(
                    commands[i],
                )
            &&& told->Some_0.text_at("positionEncoding"@) == Some("utf-16"@)
        }),
{
    reveal_strlit("capabilities");
    reveal_strlit("serverInfo");
    reveal_strlit("positionEncoding");
    reveal_strlit("referencesProvider");
    reveal_strlit("definitionProvider");
    reveal_strlit("implementationProvider");
    reveal_strlit("hoverProvider");
    reveal_strlit("documentSymbolProvider");
    reveal_strlit("callHierarchyProvider");
    reveal_strlit("renameProvider");
    reveal_strlit("executeCommandProvider");
    assert("capabilities"@.len() == 12);
    assert("serverInfo"@.len() == 10);
    assert("positionEncoding"@.len() == 16);
    assert("referencesProvider"@.len() == 18);
    assert("definitionProvider"@.len() == 18);
    assert("implementationProvider"@.len() == 22 && "implementationProvider"@[0] == 'i');
    assert("hoverProvider"@.len() == 13);
    assert("documentSymbolProvider"@.len() == 22 && "documentSymbolProvider"@[0] == 'd');
    assert("callHierarchyProvider"@.len() == 21);
    assert("renameProvider"@.len() == 14);
    assert("executeCommandProvider"@.len() == 22 && "executeCommandProvider"@[0] == 'e');
}

} // verus!
