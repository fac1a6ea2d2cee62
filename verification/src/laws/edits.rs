//! Edits: what a language server asks to be changed is what is changed.

use crate::edit;
use crate::edit::FileEditView;
use crate::edit::FileOperationView;
use crate::edit::PositionEncoding;
use crate::edit::TextEditView;
use crate::edit::WorkspaceEditView;
use crate::json::JsonView;
use crate::laws::shapes;
use crate::path;
use crate::text;
use crate::uri;
use crate::wire;
use crate::wire_edit;
use vstd::prelude::*;

verus! {

/// A value that spells one replacement of text.
pub open spec fn is_text_edit(j: JsonView, e: TextEditView) -> bool {
    shapes::has_range(j, "range"@, e.range) && j.text_at("newText"@) == Some(e.new_text)
}

/// A value that spells replacements, one after the other.
pub open spec fn are_text_edits(j: JsonView, edits: Seq<TextEditView>) -> bool {
    &&& j is List
    &&& j->List_0.len() == edits.len()
    &&& forall|i: int| 0 <= i < edits.len() ==> is_text_edit(j->List_0[i], #[trigger] edits[i])
}

/// A value that spells the replacements in one document.
pub open spec fn is_document_edit(j: JsonView, uri: Seq<char>, edits: Seq<TextEditView>) -> bool {
    &&& j.get("textDocument"@) is Some
    &&& j.get("textDocument"@)->Some_0.text_at("uri"@) == Some(uri)
    &&& j.get("edits"@) is Some
    &&& are_text_edits(j.get("edits"@)->Some_0, edits)
}

/// A value that spells a change to a file as a whole.
pub open spec fn is_file_operation(j: JsonView, op: FileOperationView) -> bool {
    match op {
        FileOperationView::Create { path } => j.text_at("kind"@) == Some("create"@) && j.text_at(
            "uri"@,
        ) is Some && uri::path_of(j.text_at("uri"@)->Some_0) == path,
        FileOperationView::Delete { path } => j.text_at("kind"@) == Some("delete"@) && j.text_at(
            "uri"@,
        ) is Some && uri::path_of(j.text_at("uri"@)->Some_0) == path,
        FileOperationView::Rename { from, to } => j.text_at("kind"@) == Some("rename"@)
            && j.text_at("oldUri"@) is Some && uri::path_of(j.text_at("oldUri"@)->Some_0) == from
            && j.text_at("newUri"@) is Some && uri::path_of(j.text_at("newUri"@)->Some_0) == to,
    }
}

/// A field that is a text where it is there.
pub open spec fn is_text_or_left_out(j: JsonView, key: Seq<char>) -> bool {
    shapes::leaves_out(j, key) || j.text_at(key) is Some
}

/// Every replacement that a server lists is kept, with its range and its text,
/// in the order of the list.
pub proof fn every_text_edit_is_kept(j: JsonView, edits: Seq<TextEditView>)
    requires
        are_text_edits(j, edits),
    ensures
        wire_edit::text_edits_of(j) == Some(edits),
{
    let items = j->List_0;
    assert forall|i: int| 0 <= i < items.len() implies wire_edit::text_edit_of(#[trigger] items[i])
        == Some(edits[i]) by {
        assert(is_text_edit(items[i], edits[i]));
        shapes::ranges_are_read_by_name(items[i].get("range"@)->Some_0, edits[i].range);
    }
    let read = wire_edit::text_edits_of(j);
    assert(read is Some);
    assert(read->Some_0 =~= edits);
}

/// Whether files are those of some URIs, each once, in the order of the URIs, and
/// each with all the replacements that are listed for its URI.
pub open spec fn changes_files(
    files: Seq<FileEditView>,
    all: Map<Seq<char>, Seq<TextEditView>>,
    uris: Seq<Seq<char>>,
) -> bool {
    &&& uris.no_duplicates()
    &&& forall|i: int, j: int|
        0 <= i < j < uris.len() ==> text::before(#[trigger] uris[i], #[trigger] uris[j])
    &&& forall|u: Seq<char>| #[trigger] uris.contains(u) <==> all.contains_key(u)
    &&& files.len() == uris.len()
    &&& forall|i: int|
        0 <= i < uris.len() ==> (#[trigger] files[i]).path == uri::path_of(uris[i])
            && files[i].edits == all[uris[i]]
}

/// An edit that lists replacements by URI changes each of these files, and no
/// other: every replacement listed under a URI is made in the file of that URI.
pub proof fn listed_changes_reach_their_files(
    value: JsonView,
    changed: Map<Seq<char>, Seq<TextEditView>>,
    edit: WorkspaceEditView,
)
    requires
        value.get("changes"@) is Some,
        value.get("changes"@)->Some_0 is Object,
        shapes::leaves_out(value, "documentChanges"@),
        value.get("changes"@)->Some_0->Object_0.dom() == changed.dom(),
        forall|u: Seq<char>| #[trigger]
            changed.contains_key(u) ==> are_text_edits(
                value.get("changes"@)->Some_0->Object_0[u],
                changed[u],
            ),
        wire_edit::reads_as(value, edit),
    ensures
        wire_edit::readable(value),
        edit.encoding == PositionEncoding::Utf16,
        edit.file_ops.len() == 0,
        exists|uris: Seq<Seq<char>>| changes_files(edit.files, changed, uris),
{
    let m = value.get("changes"@)->Some_0->Object_0;
    assert forall|u: Seq<char>| #[trigger] m.contains_key(u) implies wire_edit::text_edits_of(m[u])
        == Some(changed[u]) by {
        assert(changed.contains_key(u));
        every_text_edit_is_kept(m[u], changed[u]);
    }
    let by_uri = wire_edit::edits_by_uri(value);
    assert(by_uri =~= changed) by {
        let listed = wire_edit::listed_edits(wire::field(value, "changes"@, 0));
        assert(listed =~= changed);
    }
    let none: Seq<JsonView> = Seq::empty();
    assert(wire_edit::document_changes(wire::field(value, "documentChanges"@, 1)) == none);
    assert(wire_edit::operations_of(none).len() == 0);
    let uris = choose|uris: Seq<Seq<char>>| wire_edit::files_listed(edit.files, by_uri, uris);
    assert(wire_edit::files_listed(edit.files, by_uri, uris));
    listed_once(uris);
    assert forall|u: Seq<char>| #[trigger] uris.contains(u) <==> changed.contains_key(u) by {
        assert(by_uri.contains_key(u) <==> uris.contains(u));
    }
    assert(changes_files(edit.files, changed, uris));
}

proof fn listed_once(uris: Seq<Seq<char>>)
    requires
        forall|i: int, j: int|
            0 <= i < j < uris.len() ==> text::before(#[trigger] uris[i], #[trigger] uris[j]),
    ensures
        uris.no_duplicates(),
{
    assert forall|i: int, j: int| 0 <= i < uris.len() && 0 <= j < uris.len() && i != j implies uris[i]
        != uris[j] by {
        text::before_irreflexive(uris[i]);
        if i < j {
            assert(text::before(uris[i], uris[j]));
        } else {
            assert(text::before(uris[j], uris[i]));
        }
    }
}

/// A document change is read where it spells the replacements in a document.
pub proof fn document_edits_are_read(change: JsonView, uri: Seq<char>, edits: Seq<TextEditView>)
    requires
        is_document_edit(change, uri, edits),
    ensures
        wire_edit::change_valid(change),
{
    every_text_edit_is_kept(change.get("edits"@)->Some_0, edits);
}

/// An edit is read where each part of it can be: the replacements under every
/// URI, and every document change.
pub proof fn edits_are_read_part_by_part(value: JsonView)
    requires
        value is Object,
    ensures
        wire_edit::readable(value) <==> {
            &&& shapes::leaves_out(value, "changes"@) || (value.get("changes"@)->Some_0 is Object
                && forall|u: Seq<char>| #[trigger]
                value.get("changes"@)->Some_0->Object_0.contains_key(u)
                    ==> wire_edit::text_edits_of(value.get("changes"@)->Some_0->Object_0[u]) is Some)
            &&& shapes::leaves_out(value, "documentChanges"@) || (value.items_at("documentChanges"@)
                is Some && forall|i: int|
                0 <= i < value.items_at("documentChanges"@)->Some_0.len()
                    ==> wire_edit::change_valid(
                    #[trigger] value.items_at("documentChanges"@)->Some_0[i],
                ))
        },
{
}

/// A replacement without a text or a range is never made up: the list it stands
/// in is refused.
pub proof fn half_an_edit_is_refused(j: JsonView, i: int)
    requires
        j is List,
        0 <= i < j->List_0.len(),
        j->List_0[i] is Object,
        j->List_0[i].text_at("newText"@) is None || j->List_0[i].get("range"@) is None,
    ensures
        wire_edit::text_edits_of(j) is None,
{
    assert(wire_edit::text_edit_of(j->List_0[i]) is None);
}

/// A value with one more change at the end of its list of document changes.
pub open spec fn with_one_more(value: JsonView, more: JsonView, change: JsonView) -> bool {
    &&& value is Object
    &&& more is Object
    &&& value.get("changes"@) == more.get("changes"@)
    &&& value.items_at("documentChanges"@) is Some
    &&& more.items_at("documentChanges"@) == Some(
        value.items_at("documentChanges"@)->Some_0.push(change),
    )
}

/// One more document change adds its replacements behind those that its
/// document had, and changes nothing else.
pub proof fn document_changes_add_up(
    value: JsonView,
    more: JsonView,
    change: JsonView,
    uri: Seq<char>,
    edits: Seq<TextEditView>,
)
    requires
        with_one_more(value, more, change),
        is_document_edit(change, uri, edits),
    ensures
        ({
            let before = wire_edit::edits_by_uri(value);
            let after = wire_edit::edits_by_uri(more);
            let had = if before.contains_key(uri) {
                before[uri]
            } else {
                Seq::empty()
            };
            &&& after.contains_key(uri)
            &&& after[uri] == had + edits
            &&& forall|u: Seq<char>|
                u != uri ==> (#[trigger] after.contains_key(u) <==> before.contains_key(u))
            &&& forall|u: Seq<char>|
                u != uri && #[trigger] before.contains_key(u) ==> after[u] == before[u]
        }),
        wire_edit::operations_of(more.items_at("documentChanges"@)->Some_0)
            == wire_edit::operations_of(value.items_at("documentChanges"@)->Some_0),
{
    every_text_edit_is_kept(change.get("edits"@)->Some_0, edits);
    let old_list = value.items_at("documentChanges"@)->Some_0;
    let new_list = more.items_at("documentChanges"@)->Some_0;
    let listed = wire_edit::listed_edits(value.get("changes"@));
    assert(wire_edit::document_edit_of(change) == Some((uri, edits)));
    same_changes(listed, old_list, new_list, old_list.len() as int);
    let before = wire_edit::edits_by_uri(value);
    let none: Seq<TextEditView> = Seq::empty();
    assert(none + edits =~= edits);
    assert(new_list[old_list.len() as int] == change);
    let was = Seq::new(old_list.len(), |i: int| wire_edit::change_operation(old_list[i]));
    let now = Seq::new(new_list.len(), |i: int| wire_edit::change_operation(new_list[i]));
    assert(now.drop_last() =~= was);
}

/// One more change to a file as a whole is made after those before it, and
/// leaves the replacements alone.
pub proof fn file_operations_follow_in_order(
    value: JsonView,
    more: JsonView,
    change: JsonView,
    op: FileOperationView,
)
    requires
        with_one_more(value, more, change),
        is_file_operation(change, op),
        is_text_or_left_out(change, "uri"@),
        is_text_or_left_out(change, "oldUri"@),
        is_text_or_left_out(change, "newUri"@),
        change.get("textDocument"@) is None || change.get("edits"@) is None,
    ensures
        wire_edit::change_valid(change),
        wire_edit::edits_by_uri(more) == wire_edit::edits_by_uri(value),
        wire_edit::operations_of(more.items_at("documentChanges"@)->Some_0)
            == wire_edit::operations_of(value.items_at("documentChanges"@)->Some_0).push(op),
{
    reveal_strlit("create");
    reveal_strlit("delete");
    reveal_strlit("rename");
    assert("create"@[0] == 'c');
    assert("delete"@[0] == 'd');
    assert("rename"@[0] == 'r');
    let old_list = value.items_at("documentChanges"@)->Some_0;
    let new_list = more.items_at("documentChanges"@)->Some_0;
    let listed = wire_edit::listed_edits(value.get("changes"@));
    assert(wire_edit::document_edit_of(change) is None);
    assert(wire_edit::change_operation(change) == Some(op));
    same_changes(listed, old_list, new_list, old_list.len() as int);
    assert(new_list[old_list.len() as int] == change);
    let was = Seq::new(old_list.len(), |i: int| wire_edit::change_operation(old_list[i]));
    let now = Seq::new(new_list.len(), |i: int| wire_edit::change_operation(new_list[i]));
    assert(now.drop_last() =~= was);
    assert(now.last() == Some(op));
}

proof fn same_changes(
    by_uri: Map<Seq<char>, Seq<TextEditView>>,
    a: Seq<JsonView>,
    b: Seq<JsonView>,
    n: int,
)
    requires
        n <= a.len(),
        n <= b.len(),
        forall|i: int| 0 <= i < n ==> a[i] == b[i],
    ensures
        wire_edit::with_changes(by_uri, a, n) == wire_edit::with_changes(by_uri, b, n),
    decreases n,
{
    if n > 0 {
        same_changes(by_uri, a, b, n - 1);
    }
}

/// What is edited is what was read: the files of an edit are those of the URIs
/// it names, each once and with all its replacements, in the order of the URIs;
/// its changes to files as a whole are those that were listed.
pub proof fn files_are_those_named(value: JsonView, edit: WorkspaceEditView)
    requires
        value is Object,
        wire_edit::reads_as(value, edit),
    ensures
        edit.encoding == PositionEncoding::Utf16,
        value.items_at("documentChanges"@) is Some ==> edit.file_ops == wire_edit::operations_of(
            value.items_at("documentChanges"@)->Some_0,
        ),
        shapes::leaves_out(value, "documentChanges"@) ==> edit.file_ops.len() == 0,
        exists|uris: Seq<Seq<char>>|
            changes_files(edit.files, wire_edit::edits_by_uri(value), uris),
{
    let all = wire_edit::edits_by_uri(value);
    let none: Seq<JsonView> = Seq::empty();
    assert(wire_edit::operations_of(none).len() == 0);
    let uris = choose|uris: Seq<Seq<char>>| wire_edit::files_listed(edit.files, all, uris);
    assert(wire_edit::files_listed(edit.files, all, uris));
    listed_once(uris);
    assert forall|u: Seq<char>| #[trigger] uris.contains(u) <==> all.contains_key(u) by {
        assert(all.contains_key(u) <==> uris.contains(u));
    }
    assert(changes_files(edit.files, all, uris));
}

/// A server that answers with nothing changes nothing.
pub proof fn no_answer_changes_nothing(edit: WorkspaceEditView)
    requires
        wire_edit::reads_as(JsonView::Null, edit),
    ensures
        edit.files.len() == 0,
        edit.file_ops.len() == 0,
        wire_edit::readable(JsonView::Null),
{
}

/// Where a path ends up when a tree is moved: in the same place under the new
/// root, or where it was if it lies elsewhere.
pub open spec fn ends_up(p: Seq<char>, from: Seq<char>, to: Seq<char>, at: Seq<char>) -> bool {
    &&& path::under(p, from) ==> path::components(at) == path::components(to) + path::components(
        p,
    ).skip(path::components(from).len() as int)
    &&& !path::under(p, from) ==> at == p
}

/// Moving an edit from one checkout to another keeps every replacement and every
/// change to a file, and only moves the paths.
pub proof fn moving_keeps_every_change(e: WorkspaceEditView, from: Seq<char>, to: Seq<char>)
    requires
        path::components(from).len() > 0,
    ensures
        ({
            let after = edit::edit_moved(e, from, to);
            &&& after.encoding == e.encoding
            &&& after.files.len() == e.files.len()
            &&& forall|i: int|
                0 <= i < e.files.len() ==> (#[trigger] after.files[i]).edits == e.files[i].edits
                    && ends_up(e.files[i].path, from, to, after.files[i].path)
            &&& after.file_ops.len() == e.file_ops.len()
            &&& forall|i: int|
                0 <= i < e.file_ops.len() ==> match (e.file_ops[i], #[trigger] after.file_ops[i]) {
                    (
                        FileOperationView::Create { path: p },
                        FileOperationView::Create { path: q },
                    ) => ends_up(p, from, to, q),
                    (
                        FileOperationView::Delete { path: p },
                        FileOperationView::Delete { path: q },
                    ) => ends_up(p, from, to, q),
                    (
                        FileOperationView::Rename { from: a, to: b },
                        FileOperationView::Rename { from: c, to: d },
                    ) => ends_up(a, from, to, c) && ends_up(b, from, to, d),
                    _ => false,
                }
        }),
{
    let after = edit::edit_moved(e, from, to);
    assert forall|i: int| 0 <= i < e.files.len() implies (#[trigger] after.files[i]).edits
        == e.files[i].edits && ends_up(e.files[i].path, from, to, after.files[i].path) by {
        path_ends_up(e.files[i].path, from, to);
    }
    assert forall|i: int| 0 <= i < e.file_ops.len() implies match (
        e.file_ops[i],
        #[trigger] after.file_ops[i],
    ) {
        (FileOperationView::Create { path: p }, FileOperationView::Create { path: q }) => ends_up(
            p,
            from,
            to,
            q,
        ),
        (FileOperationView::Delete { path: p }, FileOperationView::Delete { path: q }) => ends_up(
            p,
            from,
            to,
            q,
        ),
        (
            FileOperationView::Rename { from: a, to: b },
            FileOperationView::Rename { from: c, to: d },
        ) => ends_up(a, from, to, c) && ends_up(b, from, to, d),
        _ => false,
    } by {
        match e.file_ops[i] {
            FileOperationView::Create { path } => {
                path_ends_up(path, from, to);
            },
            FileOperationView::Delete { path } => {
                path_ends_up(path, from, to);
            },
            FileOperationView::Rename { from: a, to: b } => {
                path_ends_up(a, from, to);
                path_ends_up(b, from, to);
            },
        }
    }
}

proof fn path_ends_up(p: Seq<char>, from: Seq<char>, to: Seq<char>)
    requires
        path::components(from).len() > 0,
    ensures
        ends_up(p, from, to, edit::moved(p, from, to)),
{
    if path::under(p, from) {
        edit::moved_keeps_relative_components(p, from, to);
    }
}

/// A value that spells an edit by the replacements under each URI.
pub open spec fn lists_changes(
    value: JsonView,
    changed: Map<Seq<char>, Seq<TextEditView>>,
) -> bool {
    &&& value.get("changes"@) is Some
    &&& value.get("changes"@)->Some_0 is Object
    &&& shapes::leaves_out(value, "documentChanges"@)
    &&& value.get("changes"@)->Some_0->Object_0.dom() == changed.dom()
    &&& forall|u: Seq<char>| #[trigger]
        changed.contains_key(u) ==> are_text_edits(
            value.get("changes"@)->Some_0->Object_0[u],
            changed[u],
        )
}

/// Whatever replacements a server lists by URI, the edit makes all of them, and
/// no others.
pub open spec fn changes_made(value: JsonView, edit: Option<WorkspaceEditView>) -> bool {
    forall|changed: Map<Seq<char>, Seq<TextEditView>>| #[trigger]
        lists_changes(value, changed) ==> edit is Some && edit->Some_0.file_ops.len() == 0
            && exists|uris: Seq<Seq<char>>| changes_files(edit->Some_0.files, changed, uris)
}

/// An edit that is read makes the replacements that it lists, and one that lists
/// replacements is read.
pub proof fn listed_changes_are_made(value: JsonView)
    ensures
        !wire_edit::readable(value) ==> changes_made(value, None),
        forall|edit: WorkspaceEditView| #[trigger]
            wire_edit::reads_as(value, edit) ==> changes_made(value, Some(edit)),
{
    assert forall|edit: WorkspaceEditView| #[trigger] wire_edit::reads_as(value, edit) implies
        changes_made(value, Some(edit)) by {
        assert forall|changed: Map<Seq<char>, Seq<TextEditView>>| #[trigger]
            lists_changes(value, changed) implies edit.file_ops.len() == 0 && exists|
            uris: Seq<Seq<char>>,
        | changes_files(edit.files, changed, uris) by {
            listed_changes_reach_their_files(value, changed, edit);
        }
    }
    if !wire_edit::readable(value) {
        assert forall|changed: Map<Seq<char>, Seq<TextEditView>>| !(#[trigger] lists_changes(
            value,
            changed,
        )) by {
            if lists_changes(value, changed) {
                let m = value.get("changes"@)->Some_0->Object_0;
                assert forall|u: Seq<char>| #[trigger] m.contains_key(u) implies
                    wire_edit::text_edits_of(m[u]) is Some by {
                    assert(changed.contains_key(u));
                    every_text_edit_is_kept(m[u], changed[u]);
                }
            }
        }
    }
}

} // verus!
