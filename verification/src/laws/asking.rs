//! Asking: what a language server is sent for a request, and how an action that
//! it offers is carried through.

use crate::convert;
use crate::edit::Position;
use crate::edit::Range;
use crate::error::ErrorKind;
use crate::json::JsonView;
use crate::laws::shapes;
use crate::operation::TargetView;
use crate::ts_ops;
use crate::ts_ops::ActionNext;
use crate::ts_ops::CodeActionOp;
use crate::uri;
use crate::wire_edit;
use vstd::prelude::*;

verus! {

proof fn request_keys()
    ensures
        "textDocument"@.len() == 12,
        "position"@.len() == 8,
        "newName"@.len() == 7,
        "newName"@[0] == 'n',
        "context"@.len() == 7,
        "context"@[0] == 'c',
        "range"@.len() == 5,
        "query"@.len() == 5,
        "query"@[0] == 'q',
        "item"@.len() == 4,
        "line"@.len() == 4,
        "character"@.len() == 9,
        "start"@.len() == 5,
        "end"@.len() == 3,
        "diagnostics"@.len() == 11,
        "only"@.len() == 4,
{
    reveal_strlit("textDocument");
    reveal_strlit("position");
    reveal_strlit("newName");
    reveal_strlit("context");
    reveal_strlit("range");
    reveal_strlit("query");
    reveal_strlit("item");
    reveal_strlit("line");
    reveal_strlit("character");
    reveal_strlit("start");
    reveal_strlit("end");
    reveal_strlit("diagnostics");
    reveal_strlit("only");
}

/// What is sent names the document under its URI.
pub open spec fn names_document(sent: JsonView, uri: Seq<char>) -> bool {
    sent.get("textDocument"@) is Some && sent.get("textDocument"@)->Some_0.text_at("uri"@) == Some(
        uri,
    )
}

/// A request about a position opens the file of the position, names it, and
/// sends the position as it is. No other target can be asked about.
pub proof fn positions_are_sent_as_they_are(
    target: TargetView,
    method: Seq<char>,
    more: Map<Seq<char>, JsonView>,
    uri: Seq<char>,
)
    ensures
        match target {
            TargetView::Position { file, position } => {
                let call = ts_ops::call_at(target, method, more);
                &&& call is Ok
                &&& call->Ok_0.open == Some(file)
                &&& call->Ok_0.method == method
                &&& names_document(call->Ok_0.sent(uri), uri)
                &&& call->Ok_0.sent(uri).get("position"@) is Some
                &&& shapes::is_position(call->Ok_0.sent(uri).get("position"@)->Some_0, position)
                &&& forall|k: Seq<char>|
                    k != "position"@ && k != "textDocument"@ ==> #[trigger] call->Ok_0.sent(
                        uri,
                    ).get(k) == JsonView::Object(more).get(k)
            },
            _ => ts_ops::call_at(target, method, more) matches Err(e) && e.kind
                == ErrorKind::InvalidTarget,
        },
{
    request_keys();
}

/// A rename sends the new name; without one nothing is asked.
pub proof fn renames_send_the_new_name(target: TargetView, params: JsonView, uri: Seq<char>)
    ensures
        ({
            let call = ts_ops::rename_call(target, params);
            let name = params.text_at("new_name"@);
            &&& call is Ok <==> target is Position && name is Some && name->Some_0.len() > 0
            &&& call is Ok ==> call->Ok_0.method == "textDocument/rename"@
                && call->Ok_0.sent(uri).text_at("newName"@) == name && names_document(
                call->Ok_0.sent(uri),
                uri,
            ) && call->Ok_0.open == target.file() && call->Ok_0.sent(uri).get("position"@) is Some
                && shapes::is_position(
                call->Ok_0.sent(uri).get("position"@)->Some_0,
                target->Position_position,
            )
            &&& call is Err ==> call->Err_0.kind == ErrorKind::InvalidTarget
        }),
{
    request_keys();
}

/// A search for usages asks for the declaration too, unless it is told not to.
pub proof fn usages_include_the_declaration_unless_told(
    target: TargetView,
    params: JsonView,
    uri: Seq<char>,
)
    requires
        target is Position,
    ensures
        ({
            let call = ts_ops::usages_call(target, params);
            let context = call->Ok_0.sent(uri).get("context"@);
            &&& call is Ok
            &&& call->Ok_0.method == "textDocument/references"@
            &&& context is Some
            &&& context->Some_0.flag_at("includeDeclaration"@) == Some(
                params.flag_at("include_declaration"@) != Some(false),
            )
        }),
{
    request_keys();
}

/// A search for symbols sends the query, and reports as many as the caller asks
/// for.
pub proof fn searches_send_the_query(params: JsonView, uri: Seq<char>)
    ensures
        ({
            let call = ts_ops::search_call(params);
            &&& call is Ok <==> params.text_at("query"@) is Some
            &&& call is Ok ==> call->Ok_0.method == "workspace/symbol"@ && call->Ok_0.open is None
                && call->Ok_0.sent(uri).text_at("query"@) == params.text_at("query"@)
        }),
        params.count_at("limit"@) is Some && params.count_at("limit"@)->Some_0 <= usize::MAX
            ==> ts_ops::search_limit(params) == params.count_at("limit"@)->Some_0,
        params.count_at("limit"@) is None ==> ts_ops::search_limit(params)
            == convert::DEFAULT_SYMBOL_SEARCH_LIMIT,
        convert::DEFAULT_SYMBOL_SEARCH_LIMIT == 200,
{
    request_keys();
}

/// An outline is asked of a file, which is opened and named.
pub proof fn outlines_name_the_file(target: TargetView, uri: Seq<char>)
    ensures
        ({
            let call = ts_ops::outline_call(target);
            &&& call is Ok <==> target is File
            &&& call is Ok ==> call->Ok_0.method == "textDocument/documentSymbol"@
                && call->Ok_0.open == target.file() && names_document(call->Ok_0.sent(uri), uri)
        }),
{
    request_keys();
}

/// A handle is sent back as it was given out, and the file it is in is opened.
pub proof fn handles_are_sent_back(params: JsonView, method: Seq<char>, uri: Seq<char>)
    ensures
        ({
            let call = ts_ops::call_about_handle(params, method);
            let item = params.get("item"@);
            &&& call is Ok <==> item is Some && item->Some_0 is Object
            &&& call is Ok ==> call->Ok_0.method == method && call->Ok_0.sent(uri).get("item"@)
                == item
            &&& call is Ok && item->Some_0.text_at("uri"@) is Some ==> call->Ok_0.open == Some(
                uri::path_of(item->Some_0.text_at("uri"@)->Some_0),
            )
            &&& call is Ok && item->Some_0.text_at("uri"@) is None ==> call->Ok_0.open is None
        }),
        ts_ops::called_from(params) == (match params.get("item"@) {
            Some(item) => match item.text_at("uri"@) {
                Some(u) => u,
                None => ""@,
            },
            None => ""@,
        }),
{
    request_keys();
}

/// The range that a target covers: a selection as it is, a position as a range
/// of no length, and a file from its start.
pub open spec fn covers(target: TargetView, r: Range) -> bool {
    match target {
        TargetView::Selection { range, .. } => r == range,
        TargetView::Position { position, .. } => r.start == position && r.end == position,
        TargetView::File { .. } => r.start == r.end && r.start == (Position {
            line: 0,
            character: 0,
        }),
        TargetView::Project => false,
    }
}

/// Actions are asked for at the range of the target, and only those of the kind.
pub proof fn actions_are_asked_for_at_the_target(
    target: TargetView,
    kind: Seq<char>,
    r: Range,
    uri: Seq<char>,
)
    requires
        covers(target, r),
    ensures
        ({
            let call = ts_ops::actions_call(target, kind);
            let sent = call->Ok_0.sent(uri);
            &&& call is Ok
            &&& call->Ok_0.method == "textDocument/codeAction"@
            &&& call->Ok_0.open == target.file()
            &&& names_document(sent, uri)
            &&& shapes::has_range(sent, "range"@, r)
            &&& sent.get("context"@) is Some
            &&& sent.get("context"@)->Some_0.items_at("only"@) == Some(
                seq![JsonView::Text(kind)],
            )
        }),
{
    request_keys();
}

/// Actions belong to a file.
pub proof fn projects_have_no_actions(kind: Seq<char>)
    ensures
        ts_ops::actions_call(TargetView::Project, kind) is Err,
{
}

/// Whether an action is of a kind or of one nested under it.
pub open spec fn is_of_kind(action: JsonView, kind: Seq<char>) -> bool {
    match action.text_at("kind"@) {
        Some(k) => k == kind || (k.len() > kind.len() && k.take(kind.len() as int) == kind
            && k[kind.len() as int] == '.'),
        None => false,
    }
}

/// The action that is made is the first offered that is of the kind. Without one
/// the operation is not available.
pub proof fn the_first_of_the_kind_is_made(op: CodeActionOp, offered: Seq<JsonView>)
    ensures
        match op.picked(JsonView::List(offered)) {
            Ok(action) => exists|i: int|
                0 <= i < offered.len() && action == #[trigger] offered[i] && is_of_kind(
                    action,
                    op.its_kind(),
                ) && forall|k: int|
                    0 <= k < i ==> !is_of_kind(#[trigger] offered[k], op.its_kind()),
            Err(e) => e.kind == ErrorKind::OperationNotAvailable && forall|k: int|
                0 <= k < offered.len() ==> !is_of_kind(#[trigger] offered[k], op.its_kind()),
        },
{
    first_of_kind(offered, op.its_kind(), 0);
}

proof fn kinds_agree(k: Seq<char>, kind: Seq<char>)
    ensures
        ts_ops::kind_within(k, kind) <==> (k == kind || (k.len() > kind.len() && k.take(
            kind.len() as int,
        ) == kind && k[kind.len() as int] == '.')),
{
    reveal_strlit(".");
    let dotted = kind + "."@;
    assert(dotted.len() == kind.len() + 1);
    assert(dotted[kind.len() as int] == '.');
    if dotted.is_prefix_of(k) {
        assert(k.take(kind.len() as int) =~= kind) by {
            assert forall|i: int| 0 <= i < kind.len() implies k[i] == kind[i] by {
                assert(dotted[i] == kind[i]);
                assert(k.subrange(0, dotted.len() as int)[i] == k[i]);
            }
        }
        assert(k.subrange(0, dotted.len() as int)[kind.len() as int] == k[kind.len() as int]);
    }
    if k.len() > kind.len() && k.take(kind.len() as int) == kind && k[kind.len() as int] == '.' {
        assert forall|i: int| 0 <= i < dotted.len() implies k.subrange(
            0,
            dotted.len() as int,
        )[i] == dotted[i] by {
            if i < kind.len() {
                assert(k.take(kind.len() as int)[i] == k[i]);
            }
        }
        assert(k.subrange(0, dotted.len() as int) =~= dotted);
    }
}

proof fn first_of_kind(offered: Seq<JsonView>, kind: Seq<char>, i: int)
    requires
        0 <= i <= offered.len(),
    ensures
        match ts_ops::action_from(offered, kind, i) {
            Some(at) => i <= at < offered.len() && is_of_kind(offered[at], kind) && forall|k: int|
                i <= k < at ==> !is_of_kind(#[trigger] offered[k], kind),
            None => forall|k: int|
                i <= k < offered.len() ==> !is_of_kind(#[trigger] offered[k], kind),
        },
    decreases offered.len() - i,
{
    if i < offered.len() {
        if let Some(k) = offered[i].text_at("kind"@) {
            kinds_agree(k, kind);
        }
        first_of_kind(offered, kind, i + 1);
    }
}

/// A command is run under its name and with its arguments as the server gave
/// them. One without arguments is run with none, and one without a name is not
/// run.
pub proof fn commands_run_with_their_arguments(command: JsonView)
    ensures
        ({
            let call = ts_ops::command_call(command);
            &&& call is Ok <==> command.text_at("command"@) is Some
            &&& call is Ok ==> call->Ok_0.text_at("command"@) == command.text_at("command"@)
            &&& call is Ok && command.get("arguments"@) is Some ==> call->Ok_0.get("arguments"@)
                == command.get("arguments"@)
            &&& call is Ok && command.get("arguments"@) is None ==> call->Ok_0.items_at(
                "arguments"@,
            ) == Some(Seq::<JsonView>::empty())
            &&& call is Ok ==> forall|k: Seq<char>|
                k != "command"@ && k != "arguments"@ ==> #[trigger] call->Ok_0.get(k) is None
        }),
{
    reveal_strlit("command");
    reveal_strlit("arguments");
    assert("command"@.len() == 7);
    assert("arguments"@.len() == 9);
}

/// An action that carries an edit ends with that edit. One without is carried
/// through by its command, and one with neither changes nothing.
pub proof fn actions_end_with_their_edit(action: JsonView, complaint: Seq<char>, next: ActionNext)
    requires
        ts_ops::carries_on(action, complaint, next),
    ensures
        ({
            let edits = action.get("edit"@) is Some && !(action.get("edit"@)->Some_0 is Null);
            let command = action.get("command"@);
            &&& edits && wire_edit::readable(action.get("edit"@)->Some_0) ==> next is Done
                && wire_edit::reads_as(action.get("edit"@)->Some_0, next->Done_0@)
            &&& edits && !wire_edit::readable(action.get("edit"@)->Some_0) ==> next is Failed
                && next->Failed_0@.detail == complaint
            &&& !edits && command is Some && command->Some_0.text_at("command"@) is Some ==> next
                is Execute && next->Execute_0@.text_at("command"@) == command->Some_0.text_at(
                "command"@,
            ) && (command->Some_0.get("arguments"@) is Some ==> next->Execute_0@.get("arguments"@)
                == command->Some_0.get("arguments"@))
            &&& !edits && command is Some && command->Some_0.text_at("command"@) is None ==> next
                is Failed
            &&& !edits && command is None ==> next is Done && next->Done_0@.files.len() == 0
                && next->Done_0@.file_ops.len() == 0
        }),
{
    if let Some(c) = action.get("command"@) {
        commands_run_with_their_arguments(c);
    }
}

/// An action that says neither what to edit nor what to run is resolved first;
/// any other is carried on with.
pub proof fn bare_actions_are_resolved_first(
    action: JsonView,
    complaint: Seq<char>,
    next: ActionNext,
)
    requires
        ts_ops::picked_leads_on(Ok(action), complaint, next),
    ensures
        action.get("edit"@) is None && action.get("command"@) is None ==> next is Resolve
            && next->Resolve_0@ == action,
        action.get("edit"@) is Some || action.get("command"@) is Some ==> ts_ops::carries_on(
            action,
            complaint,
            next,
        ),
{
}

} // verus!
