//! The edits that language servers send.
//!
//! A server lists edits under the URIs of their files, or as a sequence of
//! changes, which may also create, rename and delete files.

use crate::edit::FileEdit;
use crate::edit::FileEditView;
use crate::edit::FileOperation;
use crate::edit::FileOperationView;
use crate::edit::PositionEncoding;
use crate::edit::TextEdit;
use crate::edit::TextEditView;
use crate::edit::WorkspaceEdit;
use crate::edit::WorkspaceEditView;
use crate::json;
use crate::json::Json;
use crate::json::JsonView;
use crate::text;
use crate::uri;
use crate::view;
use crate::wire;
use crate::wire::Malformed;
use vstd::prelude::*;

verus! {

// ---------------------------------------------------------------------------
// Replacements
// ---------------------------------------------------------------------------

/// A replacement.
pub open spec fn text_edit_of(j: JsonView) -> Option<TextEditView> {
    if wire::structure(j, 2) {
        match (
            wire::range_in(wire::field(j, "range"@, 0)),
            wire::text_of(wire::field(j, "newText"@, 1)),
        ) {
            (Some(range), Some(new_text)) => Some(TextEditView { range, new_text }),
            _ => None,
        }
    } else {
        None
    }
}

/// Whether every value is a replacement.
pub open spec fn all_text_edits(items: Seq<JsonView>) -> bool {
    forall|i: int| 0 <= i < items.len() ==> text_edit_of(#[trigger] items[i]) is Some
}

/// A list of replacements.
pub open spec fn text_edits_of(j: JsonView) -> Option<Seq<TextEditView>> {
    match j {
        JsonView::List(items) => if all_text_edits(items) {
            Some(Seq::new(items.len(), |i: int| text_edit_of(items[i])->Some_0))
        } else {
            None
        },
        _ => None,
    }
}

/// A replacement.
fn get_text_edit(j: &Json) -> (r: Option<TextEdit>)
    ensures
        view::maybe(r) == text_edit_of(j@),
{
    if !wire::is_structure(j, 2) {
        return None;
    }
    match (
        wire::get_range_in(wire::get_field(j, "range", 0)),
        wire::get_text(wire::get_field(j, "newText", 1)),
    ) {
        (Some(range), Some(new_text)) => Some(TextEdit { range, new_text }),
        _ => None,
    }
}

/// A list of replacements.
fn get_text_edits(j: &Json) -> (r: Option<Vec<TextEdit>>)
    ensures
        match r {
            Some(out) => text_edits_of(j@) == Some(view::each(out@)),
            None => text_edits_of(j@) is None,
        },
{
    let items = match j.as_array() {
        Some(items) => items,
        None => {
            return None;
        },
    };
    let ghost all = json::list_view(items@);
    let mut out: Vec<TextEdit> = Vec::new();
    let mut i: usize = 0;
    while i < items.len()
        invariant
            i <= items@.len(),
            all == json::list_view(items@),
            j@ == JsonView::List(all),
            out@.len() == i,
            forall|k: int|
                0 <= k < i ==> text_edit_of(#[trigger] all[k]) is Some && out@[k]@ == text_edit_of(
                    all[k],
                )->Some_0,
        decreases items@.len() - i,
    {
        assert(all[i as int] == items@[i as int]@);
        match get_text_edit(&items[i]) {
            Some(edit) => {
                out.push(edit);
            },
            None => {
                return None;
            },
        }
        i += 1;
    }
    let ghost wanted = Seq::new(all.len(), |k: int| text_edit_of(all[k])->Some_0);
    assert forall|k: int| 0 <= k < out@.len() implies view::each(out@)[k] == wanted[k] by {
        assert(text_edit_of(all[k]) is Some);
    }
    assert(view::each(out@) =~= wanted);
    Some(out)
}

// ---------------------------------------------------------------------------
// Changes
// ---------------------------------------------------------------------------

/// A change that replaces text in one document.
pub open spec fn document_edit_of(j: JsonView) -> Option<(Seq<char>, Seq<TextEditView>)> {
    match (j.get("textDocument"@), j.get("edits"@)) {
        (Some(document), Some(edits)) => if wire::structure(document, 1) {
            match (wire::text_of(wire::field(document, "uri"@, 0)), text_edits_of(edits)) {
                (Some(uri), Some(edits)) => Some((uri, edits)),
                _ => None,
            }
        } else {
            None
        },
        _ => None,
    }
}

/// Whether a value can be a change to a file as a whole.
pub open spec fn resource_valid(j: JsonView) -> bool {
    &&& j is Object
    &&& j.text_at("kind"@) is Some
    &&& wire::maybe_text(j.get("uri"@)) is Some
    &&& wire::maybe_text(j.get("oldUri"@)) is Some
    &&& wire::maybe_text(j.get("newUri"@)) is Some
}

/// A change to a file as a whole; none where its kind is not known or a URI
/// that it needs is missing.
pub open spec fn resource_operation(
    kind: Seq<char>,
    uri: Option<Seq<char>>,
    old_uri: Option<Seq<char>>,
    new_uri: Option<Seq<char>>,
) -> Option<FileOperationView> {
    if kind == "create"@ {
        match uri {
            Some(uri) => Some(FileOperationView::Create { path: uri::path_of(uri) }),
            None => None,
        }
    } else if kind == "delete"@ {
        match uri {
            Some(uri) => Some(FileOperationView::Delete { path: uri::path_of(uri) }),
            None => None,
        }
    } else if kind == "rename"@ {
        match (old_uri, new_uri) {
            (Some(old_uri), Some(new_uri)) => Some(
                FileOperationView::Rename {
                    from: uri::path_of(old_uri),
                    to: uri::path_of(new_uri),
                },
            ),
            _ => None,
        }
    } else {
        None
    }
}

/// A change to a file as a whole.
pub fn resource_op(
    kind: &str,
    uri: Option<String>,
    old_uri: Option<String>,
    new_uri: Option<String>,
) -> (r: Option<FileOperation>)
    ensures
        view::maybe(r) == resource_operation(
            kind@,
            view::maybe(uri),
            view::maybe(old_uri),
            view::maybe(new_uri),
        ),
{
    if text::same(kind, "create") {
        match uri {
            Some(uri) => Some(FileOperation::Create { path: uri::uri_to_path(uri.as_str()) }),
            None => None,
        }
    } else if text::same(kind, "delete") {
        match uri {
            Some(uri) => Some(FileOperation::Delete { path: uri::uri_to_path(uri.as_str()) }),
            None => None,
        }
    } else if text::same(kind, "rename") {
        match (old_uri, new_uri) {
            (Some(old_uri), Some(new_uri)) => Some(
                FileOperation::Rename {
                    from: uri::uri_to_path(old_uri.as_str()),
                    to: uri::uri_to_path(new_uri.as_str()),
                },
            ),
            _ => None,
        }
    } else {
        None
    }
}

/// Whether a value is a change.
pub open spec fn change_valid(j: JsonView) -> bool {
    document_edit_of(j) is Some || resource_valid(j)
}

/// The operation on a file that a change is, if it is one.
pub open spec fn change_operation(j: JsonView) -> Option<FileOperationView> {
    if document_edit_of(j) is Some {
        None
    } else {
        resource_operation(
            j.text_at("kind"@)->Some_0,
            wire::maybe_text(j.get("uri"@))->Some_0,
            wire::maybe_text(j.get("oldUri"@))->Some_0,
            wire::maybe_text(j.get("newUri"@))->Some_0,
        )
    }
}

/// One change, read.
enum Change {
    /// Replacements in a document.
    Edits(String, Vec<TextEdit>),
    /// An operation on a file, if it is one that is known.
    Resource(Option<FileOperation>),
}

/// One change.
fn get_change(j: &Json) -> (r: Option<Change>)
    ensures
        match r {
            Some(Change::Edits(uri, edits)) => document_edit_of(j@) == Some(
                (uri@, view::each(edits@)),
            ),
            Some(Change::Resource(op)) => document_edit_of(j@) is None && resource_valid(j@)
                && view::maybe(op) == change_operation(j@),
            None => !change_valid(j@),
        },
{
    if let (Some(document), Some(edits)) = (j.get("textDocument"), j.get("edits")) {
        if wire::is_structure(document, 1) {
            if let (Some(uri), Some(edits)) = (
                wire::get_text(wire::get_field(document, "uri", 0)),
                get_text_edits(edits),
            ) {
                return Some(Change::Edits(uri, edits));
            }
        }
    }
    if !j.is_object() {
        return None;
    }
    match (
        j.str_at("kind"),
        wire::get_maybe_text(j.get("uri")),
        wire::get_maybe_text(j.get("oldUri")),
        wire::get_maybe_text(j.get("newUri")),
    ) {
        (Some(kind), Some(uri), Some(old_uri), Some(new_uri)) => Some(
            Change::Resource(resource_op(kind, uri, old_uri, new_uri)),
        ),
        _ => None,
    }
}

// ---------------------------------------------------------------------------
// Edits by file
// ---------------------------------------------------------------------------

/// Edits with more at the end of those for a URI.
pub open spec fn with_edits(
    by_uri: Map<Seq<char>, Seq<TextEditView>>,
    uri: Seq<char>,
    edits: Seq<TextEditView>,
) -> Map<Seq<char>, Seq<TextEditView>> {
    if by_uri.contains_key(uri) {
        by_uri.insert(uri, by_uri[uri] + edits)
    } else {
        by_uri.insert(uri, edits)
    }
}

/// The edits that the first `n` changes add to others.
pub open spec fn with_changes(
    by_uri: Map<Seq<char>, Seq<TextEditView>>,
    changes: Seq<JsonView>,
    n: int,
) -> Map<Seq<char>, Seq<TextEditView>>
    decreases n,
{
    if n <= 0 {
        by_uri
    } else {
        let before = with_changes(by_uri, changes, n - 1);
        match document_edit_of(changes[n - 1]) {
            Some((uri, edits)) => with_edits(before, uri, edits),
            None => before,
        }
    }
}

/// The operations on files that some changes are, in order.
pub open spec fn operations_of(changes: Seq<JsonView>) -> Seq<FileOperationView> {
    view::kept(Seq::new(changes.len(), |i: int| change_operation(changes[i])))
}

/// Edits by URI, kept in the order of the URIs.
type Groups = Vec<(String, Vec<TextEdit>)>;

/// The URIs stand in order, none twice.
spec fn ordered(groups: Seq<(String, Vec<TextEdit>)>) -> bool {
    forall|i: int, j: int|
        0 <= i < j < groups.len() ==> text::before(
            (#[trigger] groups[i]).0@,
            (#[trigger] groups[j]).0@,
        )
}

/// What the groups map their URIs to.
spec fn grouped(groups: Seq<(String, Vec<TextEdit>)>) -> Map<Seq<char>, Seq<TextEditView>> {
    Map::new(
        |u: Seq<char>| exists|i: int| 0 <= i < groups.len() && (#[trigger] groups[i]).0@ == u,
        |u: Seq<char>|
            view::each(
                groups[choose|i: int| 0 <= i < groups.len() && (#[trigger] groups[i]).0@ == u].1@,
            ),
    )
}

proof fn group_is_mapped(groups: Seq<(String, Vec<TextEdit>)>, i: int)
    requires
        ordered(groups),
        0 <= i < groups.len(),
    ensures
        grouped(groups).contains_key(groups[i].0@),
        grouped(groups)[groups[i].0@] == view::each(groups[i].1@),
{
    let u = groups[i].0@;
    let c = choose|c: int| 0 <= c < groups.len() && (#[trigger] groups[c]).0@ == u;
    assert(groups[c].0@ == u);
    text::before_irreflexive(u);
    assert(c == i);
}

/// Adds edits for a URI.
fn add_edits(groups: &mut Groups, uri: String, edits: Vec<TextEdit>)
    requires
        ordered(old(groups)@),
    ensures
        ordered(final(groups)@),
        grouped(final(groups)@) == with_edits(
            grouped(old(groups)@),
            uri@,
            view::each(edits@),
        ),
{
    let ghost before = groups@;
    let ghost u = uri@;
    let ghost added = view::each(edits@);
    let mut i: usize = 0;
    while i < groups.len() && text::is_before(groups[i].0.as_str(), uri.as_str())
        invariant
            i <= groups@.len(),
            groups@ == before,
            u == uri@,
            forall|k: int| 0 <= k < i ==> text::before((#[trigger] before[k]).0@, u),
        decreases groups@.len() - i,
    {
        i += 1;
    }
    if i < groups.len() && text::same(groups[i].0.as_str(), uri.as_str()) {
        let mut more = edits;
        let ghost had = groups@[i as int].1@;
        groups[i].1.append(&mut more);
        assert(view::each(groups@[i as int].1@) =~= view::each(had) + added);
        assert(forall|k: int| 0 <= k < before.len() ==> (#[trigger] groups@[k]).0 == before[k].0);
        assert(ordered(groups@)) by {
            assert forall|a: int, b: int| 0 <= a < b < groups@.len() implies text::before(
                (#[trigger] groups@[a]).0@,
                (#[trigger] groups@[b]).0@,
            ) by {
                assert(text::before(before[a].0@, before[b].0@));
            }
        }
        let ghost after = groups@;
        proof {
            group_is_mapped(before, i as int);
            let want = with_edits(grouped(before), u, added);
            assert forall|k: Seq<char>| grouped(after).contains_key(k) == want.contains_key(k) by {
                if grouped(after).contains_key(k) {
                    let c = choose|c: int| 0 <= c < after.len() && (#[trigger] after[c]).0@ == k;
                    group_is_mapped(before, c);
                }
                if grouped(before).contains_key(k) {
                    let c = choose|c: int| 0 <= c < before.len() && (#[trigger] before[c]).0@ == k;
                    group_is_mapped(after, c);
                }
            }
            assert forall|k: Seq<char>| grouped(after).contains_key(k) implies grouped(after)[k]
                == want[k] by {
                let c = choose|c: int| 0 <= c < after.len() && (#[trigger] after[c]).0@ == k;
                group_is_mapped(before, c);
                group_is_mapped(after, c);
                if c != i {
                    assert(before[c].0@ != u) by {
                        text::before_irreflexive(u);
                    }
                }
            }
            assert(grouped(after) =~= want);
        }
    } else {
        groups.insert(i, (uri, edits));
        let ghost after = groups@;
        proof {
            assert forall|k: int| i <= k < before.len() implies text::before(
                u,
                (#[trigger] before[k]).0@,
            ) by {
                text::before_total(before[i as int].0@, u);
                if k > i {
                    assert(text::before(before[i as int].0@, before[k].0@));
                    text::before_transitive(u, before[i as int].0@, before[k].0@);
                }
            }
            text::before_irreflexive(u);
            assert(forall|k: int| 0 <= k < i ==> #[trigger] after[k] == before[k]);
            assert(forall|k: int| i < k < after.len() ==> #[trigger] after[k] == before[k - 1]);
            assert(ordered(after));
            assert forall|c: int| 0 <= c < before.len() implies (#[trigger] before[c]).0@ != u by {
                if c < i {
                    assert(text::before(before[c].0@, u));
                } else {
                    assert(text::before(u, before[c].0@));
                }
            }
            let want = with_edits(grouped(before), u, added);
            assert forall|k: Seq<char>| grouped(after).contains_key(k) == want.contains_key(k) by {
                if grouped(after).contains_key(k) {
                    let c = choose|c: int| 0 <= c < after.len() && (#[trigger] after[c]).0@ == k;
                    if c < i {
                        group_is_mapped(before, c);
                    } else if c > i {
                        group_is_mapped(before, c - 1);
                    }
                }
                if k == u {
                    group_is_mapped(after, i as int);
                } else if grouped(before).contains_key(k) {
                    let c = choose|c: int| 0 <= c < before.len() && (#[trigger] before[c]).0@ == k;
                    if c < i {
                        group_is_mapped(after, c);
                    } else {
                        assert(after[c + 1] == before[c]);
                        group_is_mapped(after, c + 1);
                    }
                }
            }
            assert forall|k: Seq<char>| grouped(after).contains_key(k) implies grouped(after)[k]
                == want[k] by {
                let c = choose|c: int| 0 <= c < after.len() && (#[trigger] after[c]).0@ == k;
                group_is_mapped(after, c);
                if c < i {
                    group_is_mapped(before, c);
                } else if c > i {
                    group_is_mapped(before, c - 1);
                }
            }
            assert(grouped(after) =~= want);
        }
    }
}

// ---------------------------------------------------------------------------
// The whole edit
// ---------------------------------------------------------------------------

/// Whether the edits listed under URIs can be read.
pub open spec fn changes_valid(f: Option<JsonView>) -> bool {
    wire::absent(f) || match f->Some_0 {
        JsonView::Object(m) => forall|u: Seq<char>| #[trigger]
            m.contains_key(u) ==> text_edits_of(m[u]) is Some,
        _ => false,
    }
}

/// The edits listed under URIs.
pub open spec fn listed_edits(f: Option<JsonView>) -> Map<Seq<char>, Seq<TextEditView>> {
    match f {
        Some(JsonView::Object(m)) => Map::new(
            |u: Seq<char>| m.contains_key(u),
            |u: Seq<char>| text_edits_of(m[u])->Some_0,
        ),
        _ => Map::empty(),
    }
}

/// Whether the sequence of changes can be read.
pub open spec fn document_changes_valid(f: Option<JsonView>) -> bool {
    wire::absent(f) || match f->Some_0 {
        JsonView::List(items) => all_changes(items),
        _ => false,
    }
}

/// Whether every value is a change.
pub open spec fn all_changes(items: Seq<JsonView>) -> bool {
    forall|i: int| 0 <= i < items.len() ==> change_valid(#[trigger] items[i])
}

/// The sequence of changes.
pub open spec fn document_changes(f: Option<JsonView>) -> Seq<JsonView> {
    match f {
        Some(JsonView::List(items)) => items,
        _ => Seq::empty(),
    }
}

/// Whether a value can be read as an edit.
pub open spec fn edit_valid(value: JsonView) -> bool {
    &&& wire::structure(value, 2)
    &&& changes_valid(wire::field(value, "changes"@, 0))
    &&& document_changes_valid(wire::field(value, "documentChanges"@, 1))
}

/// The replacements of an edit by the URIs of their files: those listed, then
/// those of the changes in their order.
pub open spec fn edits_by_uri(value: JsonView) -> Map<Seq<char>, Seq<TextEditView>> {
    let changes = document_changes(wire::field(value, "documentChanges"@, 1));
    with_changes(
        listed_edits(wire::field(value, "changes"@, 0)),
        changes,
        changes.len() as int,
    )
}

/// Whether files are those of some edits, in the order of their URIs.
pub open spec fn files_listed(
    files: Seq<FileEditView>,
    by_uri: Map<Seq<char>, Seq<TextEditView>>,
    uris: Seq<Seq<char>>,
) -> bool {
    &&& forall|i: int, j: int|
        0 <= i < j < uris.len() ==> text::before(#[trigger] uris[i], #[trigger] uris[j])
    &&& forall|u: Seq<char>| #[trigger] by_uri.contains_key(u) <==> uris.contains(u)
    &&& files.len() == uris.len()
    &&& forall|i: int|
        0 <= i < files.len() ==> #[trigger] files[i] == (FileEditView {
            path: uri::path_of(uris[i]),
            edits: by_uri[uris[i]],
        })
}

/// Reads the edits listed under URIs.
fn read_listed(f: Option<&Json>) -> (r: Option<Groups>)
    ensures
        match r {
            Some(groups) => changes_valid(view::maybe(f)) && ordered(groups@) && grouped(groups@)
                == listed_edits(view::maybe(f)),
            None => !changes_valid(view::maybe(f)),
        },
{
    let mut groups: Groups = Vec::new();
    assert(grouped(groups@) =~= Map::empty());
    if wire::is_absent(f) {
        return Some(groups);
    }
    let o = match f {
        Some(Json::Object(o)) => o,
        _ => {
            return None;
        },
    };
    let ghost m = o@;
    let keys = o.keys();
    let mut i: usize = 0;
    while i < keys.len()
        invariant
            i <= keys@.len(),
            m == o@,
            ordered(groups@),
            forall|a: int, b: int|
                0 <= a < b < keys@.len() ==> (#[trigger] keys@[a])@ != (#[trigger] keys@[b])@,
            forall|k: Seq<char>| #[trigger]
                m.contains_key(k) <==> exists|a: int|
                    0 <= a < keys@.len() && (#[trigger] keys@[a])@ == k,
            forall|k: Seq<char>| #[trigger]
                grouped(groups@).contains_key(k) <==> exists|a: int|
                    0 <= a < i && (#[trigger] keys@[a])@ == k,
            forall|a: int|
                0 <= a < i ==> {
                    &&& text_edits_of(m[(#[trigger] keys@[a])@]) is Some
                    &&& grouped(groups@)[keys@[a]@] == text_edits_of(m[keys@[a]@])->Some_0
                },
            view::maybe(f) == Some(JsonView::Object(m)),
        decreases keys@.len() - i,
    {
        let ghost key = keys@[i as int]@;
        assert(m.contains_key(key));
        let value = match o.get(keys[i].as_str()) {
            Some(value) => value,
            None => {
                return None;
            },
        };
        let edits = match get_text_edits(value) {
            Some(edits) => edits,
            None => {
                return None;
            },
        };
        let ghost before = grouped(groups@);
        assert(!before.contains_key(key));
        add_edits(&mut groups, keys[i].clone(), edits);
        let ghost after = grouped(groups@);
        proof {
            assert forall|k: Seq<char>| #[trigger] after.contains_key(k) <==> exists|a: int|
                0 <= a < i + 1 && (#[trigger] keys@[a])@ == k by {
                if k == key {
                    assert(keys@[i as int]@ == k);
                } else {
                    assert(after.contains_key(k) == before.contains_key(k));
                    if exists|a: int| 0 <= a < i + 1 && (#[trigger] keys@[a])@ == k {
                        let a = choose|a: int| 0 <= a < i + 1 && (#[trigger] keys@[a])@ == k;
                        assert(a < i);
                    }
                }
            }
            assert forall|a: int| 0 <= a < i + 1 implies {
                &&& text_edits_of(m[(#[trigger] keys@[a])@]) is Some
                &&& after[keys@[a]@] == text_edits_of(m[keys@[a]@])->Some_0
            } by {
                if a < i {
                    assert(keys@[a]@ != keys@[i as int]@);
                }
            }
        }
        i += 1;
    }
    let ghost want = listed_edits(view::maybe(f));
    proof {
        assert forall|k: Seq<char>| grouped(groups@).contains_key(k) == want.contains_key(k) by {
            assert(m.contains_key(k) == grouped(groups@).contains_key(k));
        }
        assert forall|k: Seq<char>| grouped(groups@).contains_key(k) implies grouped(groups@)[k]
            == want[k] by {
            let a = choose|a: int| 0 <= a < keys@.len() && (#[trigger] keys@[a])@ == k;
            assert(grouped(groups@)[keys@[a]@] == text_edits_of(m[keys@[a]@])->Some_0);
        }
        assert(grouped(groups@) =~= want);
        assert forall|u: Seq<char>| #[trigger] m.contains_key(u) implies text_edits_of(
            m[u],
        ) is Some by {
            let a = choose|a: int| 0 <= a < keys@.len() && (#[trigger] keys@[a])@ == u;
            assert(text_edits_of(m[keys@[a]@]) is Some);
        }
    }
    Some(groups)
}

/// The files of the groups.
fn files_of(groups: Groups) -> (r: Vec<FileEdit>)
    requires
        ordered(groups@),
    ensures
        exists|uris: Seq<Seq<char>>|
            files_listed(view::each(r@), grouped(groups@), uris),
{
    let ghost all = groups@;
    let ghost uris = Seq::new(all.len(), |i: int| all[i].0@);
    let mut out: Vec<FileEdit> = Vec::new();
    for group in it: groups
        invariant
            it.seq() == all,
            ordered(all),
            out@.len() == it.index(),
            forall|k: int|
                0 <= k < out@.len() ==> (#[trigger] out@[k])@ == (FileEditView {
                    path: uri::path_of(all[k].0@),
                    edits: view::each(all[k].1@),
                }),
    {
        let (uri, edits) = group;
        out.push(FileEdit { path: uri::uri_to_path(uri.as_str()), edits });
    }
    let ghost files = view::each(out@);
    proof {
        let by_uri = grouped(all);
        assert forall|i: int| 0 <= i < files.len() implies #[trigger] files[i] == (FileEditView {
            path: uri::path_of(uris[i]),
            edits: by_uri[uris[i]],
        }) by {
            group_is_mapped(all, i);
            assert(out@[i]@ == files[i]);
        }
        assert forall|u: Seq<char>| #[trigger] by_uri.contains_key(u) <==> uris.contains(u) by {
            if by_uri.contains_key(u) {
                let c = choose|c: int| 0 <= c < all.len() && (#[trigger] all[c]).0@ == u;
                assert(uris[c] == u);
            }
            if uris.contains(u) {
                let c = choose|c: int| 0 <= c < uris.len() && uris[c] == u;
                group_is_mapped(all, c);
            }
        }
        assert forall|i: int, j: int| 0 <= i < j < uris.len() implies text::before(
            #[trigger] uris[i],
            #[trigger] uris[j],
        ) by {
            assert(text::before(all[i].0@, all[j].0@));
        }
        assert(files_listed(files, by_uri, uris));
    }
    out
}

/// Whether a value is an edit; `null` is one that changes nothing.
pub open spec fn readable(value: JsonView) -> bool {
    value is Null || edit_valid(value)
}

/// Whether edits to files are those that a value stands for. Positions count
/// characters in units of sixteen bits.
pub open spec fn reads_as(value: JsonView, edit: WorkspaceEditView) -> bool {
    if value is Null {
        edit == (WorkspaceEditView {
            encoding: PositionEncoding::Utf16,
            files: Seq::empty(),
            file_ops: Seq::empty(),
        })
    } else {
        &&& edit.encoding == PositionEncoding::Utf16
        &&& edit.file_ops == operations_of(
            document_changes(wire::field(value, "documentChanges"@, 1)),
        )
        &&& exists|uris: Seq<Seq<char>>| files_listed(edit.files, edits_by_uri(value), uris)
    }
}

/// Turns an edit as a server sends it into edits to files.
pub fn to_core_workspace_edit(value: &Json) -> (r: Result<WorkspaceEdit, Malformed>)
    ensures
        match r {
            Ok(edit) => readable(value@) && reads_as(value@, edit@),
            Err(_) => !readable(value@),
        },
        crate::laws::edits::changes_made(value@, view::gained(r)),
{
    proof {
        crate::laws::edits::listed_changes_are_made(value@);
    }
    if value.is_null() {
        return Ok(WorkspaceEdit::empty());
    }
    if !wire::is_structure(value, 2) {
        return Err(Malformed);
    }
    let mut groups = match read_listed(wire::get_field(value, "changes", 0)) {
        Some(groups) => groups,
        None => {
            return Err(Malformed);
        },
    };
    let f = wire::get_field(value, "documentChanges", 1);
    let ghost listed = grouped(groups@);
    let mut ops: Vec<FileOperation> = Vec::new();
    assert(view::each(ops@) =~= Seq::empty());
    if wire::is_absent(f) {
        let ghost none = document_changes(wire::field(value@, "documentChanges"@, 1));
        assert(none.len() == 0);
        assert(operations_of(none) =~= Seq::empty());
        assert(listed == edits_by_uri(value@));
        let files = files_of(groups);
        let edit = WorkspaceEdit { encoding: PositionEncoding::Utf16, files, file_ops: ops };
        assert(edit@.files == view::each(files@));
        assert(reads_as(value@, edit@));
        return Ok(edit);
    }
    let items = match f {
        Some(Json::List(items)) => items,
        _ => {
            return Err(Malformed);
        },
    };
    let ghost all = json::list_view(items@);
    let ghost wanted = Seq::new(all.len(), |k: int| change_operation(all[k]));
    let mut i: usize = 0;
    assert(view::each(ops@) =~= view::kept(wanted.take(0)));
    while i < items.len()
        invariant
            i <= items@.len(),
            all == json::list_view(items@),
            wanted == Seq::new(all.len(), |k: int| change_operation(all[k])),
            view::maybe(f) == Some(JsonView::List(all)),
            wire::field(value@, "documentChanges"@, 1) == view::maybe(f),
            !(value@ is Null),
            forall|k: int| 0 <= k < i ==> change_valid(#[trigger] all[k]),
            ordered(groups@),
            grouped(groups@) == with_changes(listed, all, i as int),
            view::each(ops@) == view::kept(wanted.take(i as int)),
        decreases items@.len() - i,
    {
        assert(all[i as int] == items@[i as int]@);
        proof {
            view::kept_step(wanted, i as int);
        }
        match get_change(&items[i]) {
            Some(Change::Edits(uri, edits)) => {
                add_edits(&mut groups, uri, edits);
            },
            Some(Change::Resource(Some(op))) => {
                let ghost done = ops@;
                let ghost next = op;
                ops.push(op);
                assert(view::each(ops@) =~= view::each(done).push(next@));
            },
            Some(Change::Resource(None)) => {},
            None => {
                assert(!change_valid(all[i as int]));
                return Err(Malformed);
            },
        }
        i += 1;
    }
    assert(wanted.take(all.len() as int) =~= wanted);
    let ghost gathered = grouped(groups@);
    assert(gathered == edits_by_uri(value@));
    assert(edit_valid(value@));
    let files = files_of(groups);
    let edit = WorkspaceEdit { encoding: PositionEncoding::Utf16, files, file_ops: ops };
    assert(edit@.files == view::each(files@));
    Ok(edit)
}

/// Two lists of the files of the same edits are the same list.
pub proof fn files_listed_once(
    by_uri: Map<Seq<char>, Seq<TextEditView>>,
    a: Seq<Seq<char>>,
    b: Seq<Seq<char>>,
    x: Seq<FileEditView>,
    y: Seq<FileEditView>,
)
    requires
        files_listed(x, by_uri, a),
        files_listed(y, by_uri, b),
    ensures
        a == b,
        x == y,
{
    ordered_lists_agree(a, b, by_uri, 0);
    ordered_lists_agree(b, a, by_uri, 0);
    assert(a =~= b);
    assert(x =~= y);
}

/// From the `n`th on, each element of one list of the keys is in the same place
/// in another.
proof fn ordered_lists_agree(
    a: Seq<Seq<char>>,
    b: Seq<Seq<char>>,
    by_uri: Map<Seq<char>, Seq<TextEditView>>,
    n: int,
)
    requires
        0 <= n <= a.len(),
        n <= b.len(),
        forall|i: int| 0 <= i < n ==> a[i] == b[i],
        forall|i: int, j: int|
            0 <= i < j < a.len() ==> text::before(#[trigger] a[i], #[trigger] a[j]),
        forall|i: int, j: int|
            0 <= i < j < b.len() ==> text::before(#[trigger] b[i], #[trigger] b[j]),
        forall|u: Seq<char>| #[trigger] by_uri.contains_key(u) <==> a.contains(u),
        forall|u: Seq<char>| #[trigger] by_uri.contains_key(u) <==> b.contains(u),
    ensures
        a.len() <= b.len(),
        forall|i: int| 0 <= i < a.len() ==> a[i] == b[i],
    decreases a.len() - n,
{
    if n < a.len() {
        assert(a.contains(a[n]));
        assert(by_uri.contains_key(a[n]));
        assert(b.contains(a[n]));
        let k = choose|k: int| 0 <= k < b.len() && b[k] == a[n];
        if k < n {
            assert(a[k] == b[k]);
            assert(text::before(a[k], a[n]));
            text::before_irreflexive(a[n]);
        }
        assert(b.contains(b[n]));
        assert(by_uri.contains_key(b[n]));
        assert(a.contains(b[n]));
        let m = choose|m: int| 0 <= m < a.len() && a[m] == b[n];
        if m < n {
            assert(b[m] == a[m]);
            assert(text::before(b[m], b[n]));
            text::before_irreflexive(b[n]);
        }
        if k > n && m > n {
            assert(text::before(b[n], b[k]));
            assert(text::before(a[n], a[m]));
            text::before_transitive(a[n], b[n], a[n]);
            text::before_irreflexive(a[n]);
        }
        assert(a[n] == b[n]);
        ordered_lists_agree(a, b, by_uri, n + 1);
    }
}

} // verus!
