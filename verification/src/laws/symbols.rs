//! Symbols and calls: what is declared, what matches a name, and who calls whom.

use crate::convert;
use crate::edit::Range;
use crate::json::JsonView;
use crate::laws::reports;
use crate::laws::shapes;
use crate::source::SourceView;
use crate::view;
use crate::wire;
use crate::wire::LocationView;
use vstd::prelude::*;

verus! {

// ---------------------------------------------------------------------------
// Kinds
// ---------------------------------------------------------------------------

/// The kinds of symbols are numbered as the language-server protocol numbers
/// them.
pub proof fn kinds_are_numbered_as_in_the_protocol(kind: u32)
    ensures
        kind == 1 <==> convert::kind_name(kind) == "file"@,
        kind == 2 <==> convert::kind_name(kind) == "module"@,
        kind == 3 <==> convert::kind_name(kind) == "namespace"@,
        kind == 4 <==> convert::kind_name(kind) == "package"@,
        kind == 5 <==> convert::kind_name(kind) == "class"@,
        kind == 6 <==> convert::kind_name(kind) == "method"@,
        kind == 7 <==> convert::kind_name(kind) == "property"@,
        kind == 8 <==> convert::kind_name(kind) == "field"@,
        kind == 9 <==> convert::kind_name(kind) == "constructor"@,
        kind == 10 <==> convert::kind_name(kind) == "enum"@,
        kind == 11 <==> convert::kind_name(kind) == "interface"@,
        kind == 12 <==> convert::kind_name(kind) == "function"@,
        kind == 13 <==> convert::kind_name(kind) == "variable"@,
        kind == 14 <==> convert::kind_name(kind) == "constant"@,
        kind == 15 <==> convert::kind_name(kind) == "string"@,
        kind == 16 <==> convert::kind_name(kind) == "number"@,
        kind == 17 <==> convert::kind_name(kind) == "boolean"@,
        kind == 18 <==> convert::kind_name(kind) == "array"@,
        kind == 19 <==> convert::kind_name(kind) == "object"@,
        kind == 20 <==> convert::kind_name(kind) == "key"@,
        kind == 21 <==> convert::kind_name(kind) == "null"@,
        kind == 22 <==> convert::kind_name(kind) == "enum_member"@,
        kind == 23 <==> convert::kind_name(kind) == "struct"@,
        kind == 24 <==> convert::kind_name(kind) == "event"@,
        kind == 25 <==> convert::kind_name(kind) == "operator"@,
        kind == 26 <==> convert::kind_name(kind) == "type_parameter"@,
{
    convert::kinds_have_names_of_their_own(1, kind);
    convert::kinds_have_names_of_their_own(2, kind);
    convert::kinds_have_names_of_their_own(3, kind);
    convert::kinds_have_names_of_their_own(4, kind);
    convert::kinds_have_names_of_their_own(5, kind);
    convert::kinds_have_names_of_their_own(6, kind);
    convert::kinds_have_names_of_their_own(7, kind);
    convert::kinds_have_names_of_their_own(8, kind);
    convert::kinds_have_names_of_their_own(9, kind);
    convert::kinds_have_names_of_their_own(10, kind);
    convert::kinds_have_names_of_their_own(11, kind);
    convert::kinds_have_names_of_their_own(12, kind);
    convert::kinds_have_names_of_their_own(13, kind);
    convert::kinds_have_names_of_their_own(14, kind);
    convert::kinds_have_names_of_their_own(15, kind);
    convert::kinds_have_names_of_their_own(16, kind);
    convert::kinds_have_names_of_their_own(17, kind);
    convert::kinds_have_names_of_their_own(18, kind);
    convert::kinds_have_names_of_their_own(19, kind);
    convert::kinds_have_names_of_their_own(20, kind);
    convert::kinds_have_names_of_their_own(21, kind);
    convert::kinds_have_names_of_their_own(22, kind);
    convert::kinds_have_names_of_their_own(23, kind);
    convert::kinds_have_names_of_their_own(24, kind);
    convert::kinds_have_names_of_their_own(25, kind);
    convert::kinds_have_names_of_their_own(26, kind);
}

// ---------------------------------------------------------------------------
// Searching by name
// ---------------------------------------------------------------------------

/// A symbol that a server found.
pub struct Found {
    /// Its name.
    pub name: Seq<char>,
    /// The number of its kind.
    pub kind: u32,
    /// The URI of its file.
    pub uri: Seq<char>,
    /// Where it is.
    pub range: Range,
    /// What it is in.
    pub container: Option<Seq<char>>,
}

/// An optional text, spelled under a key or left out.
pub open spec fn has_text(j: JsonView, key: Seq<char>, t: Option<Seq<char>>) -> bool {
    match t {
        Some(t) => j.text_at(key) == Some(t),
        None => shapes::leaves_out(j, key),
    }
}

/// An optional text, told under a key or not at all.
pub open spec fn tells_text(entry: JsonView, key: Seq<char>, t: Option<Seq<char>>) -> bool {
    match t {
        Some(t) => entry.text_at(key) == Some(t),
        None => entry.get(key) is None,
    }
}

/// A value that spells a symbol that was found.
pub open spec fn is_found(j: JsonView, f: Found) -> bool {
    &&& j.text_at("name"@) == Some(f.name)
    &&& j.count_at("kind"@) == Some(f.kind as u64)
    &&& j.get("location"@) is Some
    &&& shapes::is_location(j.get("location"@)->Some_0, f.uri, f.range)
    &&& has_text(j, "containerName"@, f.container)
}

/// An entry that tells a symbol that was found.
pub open spec fn tells_found(entry: JsonView, f: Found, s: SourceView) -> bool {
    &&& entry.text_at("name"@) == Some(f.name)
    &&& entry.text_at("kind"@) == Some(convert::kind_name(f.kind))
    &&& entry.text_at("file"@) == Some(s.reported(f.uri))
    &&& shapes::points_at(entry, f.range)
    &&& tells_text(entry, "container_name"@, f.container)
}

proof fn found_is_read(j: JsonView, f: Found)
    requires
        is_found(j, f),
    ensures
        wire::symbol_info_of(j) == Some(
            wire::SymbolInfoView {
                name: f.name,
                kind: f.kind,
                uri: f.uri,
                range: Some(f.range),
                container_name: f.container,
            },
        ),
{
    let at = j.get("location"@)->Some_0;
    shapes::ranges_are_read_by_name(at.get("range"@)->Some_0, f.range);
}

/// A search tells the symbols that were found, in order, up to the limit: each
/// with its name, its kind, its file and its range as the server sent them. It
/// counts all of them.
pub proof fn every_match_is_told(
    items: Seq<JsonView>,
    found: Seq<Found>,
    s: SourceView,
    limit: int,
)
    requires
        items.len() == found.len(),
        items.len() <= u64::MAX,
        0 <= limit,
        forall|i: int| 0 <= i < items.len() ==> is_found(#[trigger] items[i], found[i]),
    ensures
        ({
            let told = convert::search_result(JsonView::List(items), s, limit);
            let shown = if limit < items.len() {
                limit
            } else {
                items.len() as int
            };
            &&& told is Some
            &&& told->Some_0.count_at("count"@) == Some(items.len() as u64)
            &&& told->Some_0.items_at("symbols"@) is Some
            &&& told->Some_0.items_at("symbols"@)->Some_0.len() == shown
            &&& told->Some_0.flag_at("truncated"@) == (if limit < items.len() {
                Some(true)
            } else {
                None
            })
            &&& forall|i: int|
                0 <= i < shown ==> tells_found(
                    #[trigger] reports::entry(told, "symbols"@, i),
                    found[i],
                    s,
                )
        }),
{
    reveal_strlit("count");
    reveal_strlit("symbols");
    reveal_strlit("truncated");
    assert("count"@.len() == 5);
    assert("symbols"@.len() == 7);
    assert("truncated"@.len() == 9);
    let read = Seq::new(
        items.len(),
        |i: int|
            wire::SymbolInfoView {
                name: found[i].name,
                kind: found[i].kind,
                uri: found[i].uri,
                range: Some(found[i].range),
                container_name: found[i].container,
            },
    );
    assert forall|i: int| 0 <= i < items.len() implies wire::symbol_info_of(#[trigger] items[i])
        == Some(read[i]) by {
        found_is_read(items[i], found[i]);
    }
    reports::all_are_kept(Seq::new(items.len(), |i: int| convert::ranged_match(items[i])), read);
    assert(convert::ranged_matches(items) == read);
    let told = convert::search_result(JsonView::List(items), s, limit);
    assert forall|i: int|
        0 <= i < items.len() && i < limit implies tells_found(
        #[trigger] reports::entry(told, "symbols"@, i),
        found[i],
        s,
    ) by {
        shapes::report_keys();
        assert(reports::entry(told, "symbols"@, i) == convert::match_entry(read[i], s));
    }
}

/// A symbol whose place has no range yet is left out, as if it had not been
/// found.
pub proof fn matches_without_a_range_are_left_out(
    items: Seq<JsonView>,
    more: JsonView,
    s: SourceView,
    limit: int,
)
    requires
        more.text_at("name"@) is Some,
        more.count_at("kind"@) is Some,
        more.count_at("kind"@)->Some_0 <= u32::MAX,
        more.get("location"@) is Some,
        more.get("location"@)->Some_0.text_at("uri"@) is Some,
        shapes::leaves_out(more.get("location"@)->Some_0, "range"@),
        shapes::leaves_out(more, "containerName"@) || more.text_at("containerName"@) is Some,
    ensures
        convert::search_result(JsonView::List(items.push(more)), s, limit)
            == convert::search_result(JsonView::List(items), s, limit),
{
    let all = items.push(more);
    assert(wire::symbol_info_of(more) is Some);
    assert(convert::ranged_match(more) is None);
    assert(all[items.len() as int] == more);
    assert(convert::all_matches(all) == convert::all_matches(items)) by {
        if convert::all_matches(items) {
            assert forall|i: int| 0 <= i < all.len() implies wire::symbol_info_of(#[trigger] all[i])
                is Some by {
                if i < items.len() {
                    assert(all[i] == items[i]);
                }
            }
        }
        if convert::all_matches(all) {
            assert forall|i: int|
                0 <= i < items.len() implies wire::symbol_info_of(#[trigger] items[i]) is Some by {
                assert(all[i] == items[i]);
            }
        }
    }
    let a = Seq::new(items.len(), |i: int| convert::ranged_match(items[i]));
    let b = Seq::new(all.len(), |i: int| convert::ranged_match(all[i]));
    assert(b.drop_last() =~= a);
}

// ---------------------------------------------------------------------------
// The outline of a file
// ---------------------------------------------------------------------------

/// A symbol that is declared in a file.
pub struct Declared {
    /// Its name.
    pub name: Seq<char>,
    /// The number of its kind.
    pub kind: u32,
    /// More about it.
    pub detail: Option<Seq<char>>,
    /// What it is in.
    pub container: Option<Seq<char>>,
    /// The extent of its declaration.
    pub body: Range,
    /// Where its name is.
    pub at: Range,
}

/// A value that spells a symbol of a file: with the ranges of its declaration
/// and its name, or flat, with a place that stands for both.
pub open spec fn is_declared(j: JsonView, d: Declared) -> bool {
    &&& j.text_at("name"@) == Some(d.name)
    &&& j.count_at("kind"@) == Some(d.kind as u64)
    &&& has_text(j, "detail"@, d.detail)
    &&& has_text(j, "containerName"@, d.container)
    &&& {
        ||| shapes::has_range(j, "range"@, d.body) && shapes::has_range(j, "selectionRange"@, d.at)
            && shapes::leaves_out(j, "location"@)
        ||| shapes::leaves_out(j, "range"@) && shapes::leaves_out(j, "selectionRange"@)
            && j.get("location"@) is Some && j.get("location"@)->Some_0.text_at("uri"@) is Some
            && shapes::has_range(j.get("location"@)->Some_0, "range"@, d.body) && d.at == d.body
    }
}

/// The parts of a symbol, in order; none where it lists none.
pub open spec fn parts(j: JsonView) -> Seq<JsonView> {
    match j.items_at("children"@) {
        Some(s) => s,
        None => Seq::empty(),
    }
}

/// An entry that tells a symbol of a file.
pub open spec fn tells_declared(entry: JsonView, d: Declared) -> bool {
    &&& entry.text_at("name"@) == Some(d.name)
    &&& entry.text_at("kind"@) == Some(convert::kind_name(d.kind))
    &&& shapes::points_at(entry, d.at)
    &&& entry.count_at("body_start_line"@) == Some(d.body.start.line as u64)
    &&& entry.count_at("body_end_line"@) == Some(d.body.end.line as u64)
    &&& tells_text(entry, "detail"@, d.detail)
    &&& tells_text(entry, "container_name"@, d.container)
}

/// A symbol of a file is told with its name, its kind and its ranges as the
/// server sent them, and with what its parts are told as, in order.
pub proof fn declarations_are_told(
    j: JsonView,
    d: Declared,
    s: SourceView,
    uri: Seq<char>,
)
    requires
        is_declared(j, d),
        shapes::leaves_out(j, "children"@) || j.items_at("children"@) is Some,
    ensures
        convert::symbol_valid(j) <==> forall|i: int|
            0 <= i < parts(j).len() ==> convert::symbol_valid(#[trigger] parts(j)[i]),
        convert::outline_entry_of(j, s, uri) is Some,
        tells_declared(convert::outline_entry_of(j, s, uri)->Some_0, d),
        convert::outline_entry_of(j, s, uri)->Some_0.items_at("children"@) == Some(
            view::kept(
                Seq::new(parts(j).len(), |i: int| convert::outline_entry_of(parts(j)[i], s, uri)),
            ),
        ),
{
    shapes::report_keys();
    if j.get("range"@) is Some {
        shapes::ranges_are_read_by_name(j.get("range"@)->Some_0, d.body);
    }
    if j.get("selectionRange"@) is Some {
        shapes::ranges_are_read_by_name(j.get("selectionRange"@)->Some_0, d.at);
    }
    if j.get("location"@) is Some && !(j.get("location"@)->Some_0 is Null) {
        let at = j.get("location"@)->Some_0;
        shapes::ranges_are_read_by_name(at.get("range"@)->Some_0, d.body);
        assert(wire::location_of(at) is Some);
    }
    let inner = Seq::new(
        parts(j).len(),
        |i: int| convert::outline_entry_of(parts(j)[i], s, uri),
    );
    assert(view::kept(inner) == if j.items_at("children"@) is Some {
        view::kept(convert::outline_entries(parts(j), s, uri))
    } else {
        Seq::empty()
    }) by {
        if j.items_at("children"@) is Some {
            assert(inner =~= convert::outline_entries(parts(j), s, uri));
        } else {
            assert(view::kept(inner) =~= Seq::empty());
        }
    }
}

/// The outline of a file tells every symbol that a server lists, in order.
pub proof fn every_declaration_is_told(
    items: Seq<JsonView>,
    declared: Seq<Declared>,
    s: SourceView,
    uri: Seq<char>,
)
    requires
        items.len() == declared.len(),
        items.len() <= u64::MAX,
        forall|i: int|
            0 <= i < items.len() ==> is_declared(#[trigger] items[i], declared[i])
                && convert::symbol_valid(items[i]) && (shapes::leaves_out(items[i], "children"@)
                || items[i].items_at("children"@) is Some),
    ensures
        ({
            let told = convert::outline_result(JsonView::List(items), s, uri);
            &&& reports::tells(told, "symbols"@, items.len() as int)
            &&& forall|i: int|
                0 <= i < items.len() ==> tells_declared(
                    #[trigger] reports::entry(told, "symbols"@, i),
                    declared[i],
                )
        }),
{
    reveal_strlit("count");
    reveal_strlit("symbols");
    assert("count"@.len() == 5);
    assert("symbols"@.len() == 7);
    let all = Seq::new(
        items.len(),
        |i: int| convert::outline_entry_of(items[i], s, uri)->Some_0,
    );
    assert forall|i: int| 0 <= i < items.len() implies #[trigger] convert::outline_entries(
        items,
        s,
        uri,
    )[i] == Some(all[i]) by {
        declarations_are_told(items[i], declared[i], s, uri);
    }
    reports::all_are_kept(convert::outline_entries(items, s, uri), all);
    let told = convert::outline_result(JsonView::List(items), s, uri);
    assert forall|i: int| 0 <= i < items.len() implies tells_declared(
        #[trigger] reports::entry(told, "symbols"@, i),
        declared[i],
    ) by {
        declarations_are_told(items[i], declared[i], s, uri);
        assert(reports::entry(told, "symbols"@, i) == all[i]);
    }
}

// ---------------------------------------------------------------------------
// Calls
// ---------------------------------------------------------------------------

/// What a server says of something that is called or that calls.
pub struct Handle {
    /// Its name.
    pub name: Seq<char>,
    /// The number of its kind.
    pub kind: u32,
    /// More about it.
    pub detail: Option<Seq<char>>,
    /// The URI of its file.
    pub uri: Seq<char>,
    /// The extent of its declaration.
    pub body: Range,
    /// Where its name is.
    pub at: Range,
}

/// A value that spells a handle.
pub open spec fn is_handle(j: JsonView, h: Handle) -> bool {
    &&& j.text_at("name"@) == Some(h.name)
    &&& j.count_at("kind"@) == Some(h.kind as u64)
    &&& has_text(j, "detail"@, h.detail)
    &&& j.text_at("uri"@) == Some(h.uri)
    &&& shapes::has_range(j, "range"@, h.body)
    &&& shapes::has_range(j, "selectionRange"@, h.at)
}

/// An entry that tells a handle, and holds it as the server gave it out.
pub open spec fn tells_handle(entry: JsonView, j: JsonView, h: Handle, s: SourceView) -> bool {
    &&& entry.text_at("name"@) == Some(h.name)
    &&& entry.text_at("kind"@) == Some(convert::kind_name(h.kind))
    &&& entry.text_at("file"@) == Some(s.reported(h.uri))
    &&& shapes::points_at(entry, h.at)
    &&& entry.count_at("body_start_line"@) == Some(h.body.start.line as u64)
    &&& entry.count_at("body_end_line"@) == Some(h.body.end.line as u64)
    &&& tells_text(entry, "detail"@, h.detail)
    &&& entry.get("item"@) == Some(j)
}

/// A handle is told by its name, with the extent of its declaration, and passed
/// on as it is.
pub proof fn handles_are_told(j: JsonView, h: Handle, s: SourceView)
    requires
        is_handle(j, h),
    ensures
        convert::call_entry(j, s) is Some,
        tells_handle(convert::call_entry(j, s)->Some_0, j, h, s),
{
    shapes::report_keys();
    shapes::ranges_are_read_by_name(j.get("range"@)->Some_0, h.body);
    shapes::ranges_are_read_by_name(j.get("selectionRange"@)->Some_0, h.at);
}

/// Every handle that a server gives out is told, in order.
pub proof fn every_handle_is_told(items: Seq<JsonView>, handles: Seq<Handle>, s: SourceView)
    requires
        items.len() == handles.len(),
        items.len() <= u64::MAX,
        forall|i: int| 0 <= i < items.len() ==> is_handle(#[trigger] items[i], handles[i]),
    ensures
        ({
            let told = convert::call_items_result(JsonView::List(items), s);
            &&& reports::tells(told, "items"@, items.len() as int)
            &&& forall|i: int|
                0 <= i < items.len() ==> tells_handle(
                    #[trigger] reports::entry(told, "items"@, i),
                    items[i],
                    handles[i],
                    s,
                )
        }),
{
    reveal_strlit("count");
    reveal_strlit("items");
    assert("count"@[0] == 'c');
    assert("items"@[0] == 'i');
    let all = Seq::new(items.len(), |i: int| convert::call_entry(items[i], s)->Some_0);
    assert forall|i: int| 0 <= i < items.len() implies #[trigger] convert::call_entries(
        items,
        s,
    )[i] == Some(all[i]) by {
        handles_are_told(items[i], handles[i], s);
    }
    reports::all_are_kept(convert::call_entries(items, s), all);
    let told = convert::call_items_result(JsonView::List(items), s);
    assert forall|i: int| 0 <= i < items.len() implies tells_handle(
        #[trigger] reports::entry(told, "items"@, i),
        items[i],
        handles[i],
        s,
    ) by {
        handles_are_told(items[i], handles[i], s);
        assert(reports::entry(told, "items"@, i) == all[i]);
    }
}

/// A value that spells a call: its other end under a direction, and the places
/// it is made at.
pub open spec fn is_call(j: JsonView, direction: Seq<char>, h: Handle, sites: Seq<Range>) -> bool {
    &&& j.get(direction) is Some
    &&& is_handle(j.get(direction)->Some_0, h)
    &&& j.items_at("fromRanges"@) is Some
    &&& j.items_at("fromRanges"@)->Some_0.len() == sites.len()
    &&& forall|i: int|
        0 <= i < sites.len() ==> shapes::is_range(
            j.items_at("fromRanges"@)->Some_0[i],
            #[trigger] sites[i],
        )
}

/// An entry that tells a call, with the places it is made at in a file.
pub open spec fn tells_call(
    entry: JsonView,
    direction: Seq<char>,
    other: JsonView,
    h: Handle,
    sites: Seq<Range>,
    file: Seq<char>,
    s: SourceView,
) -> bool {
    &&& entry.get(direction) is Some
    &&& tells_handle(entry.get(direction)->Some_0, other, h, s)
    &&& entry.items_at("ranges"@) is Some
    &&& entry.items_at("ranges"@)->Some_0.len() == sites.len()
    &&& forall|i: int|
        0 <= i < sites.len() ==> shapes::points_at(
            #[trigger] entry.items_at("ranges"@)->Some_0[i],
            sites[i],
        ) && entry.items_at("ranges"@)->Some_0[i].text_at("file"@) == Some(file)
}

/// A call is told with its other end and with every place it is made at. The
/// places are in the file that is asked about, where one is, else in that of the
/// other end.
pub proof fn calls_are_told(
    j: JsonView,
    direction: Seq<char>,
    h: Handle,
    sites: Seq<Range>,
    sites_in: Option<Seq<char>>,
    s: SourceView,
)
    requires
        is_call(j, direction, h, sites),
        direction != "ranges"@,
    ensures
        ({
            let told = convert::call_pair(j, s, direction, sites_in);
            let file = match sites_in {
                Some(uri) => s.reported(uri),
                None => s.reported(h.uri),
            };
            &&& told is Some
            &&& tells_call(told->Some_0, direction, j.get(direction)->Some_0, h, sites, file, s)
        }),
{
    let other = j.get(direction)->Some_0;
    handles_are_told(other, h, s);
    let ranges = j.items_at("fromRanges"@)->Some_0;
    let uri = convert::sites_uri(other, sites_in);
    let all = Seq::new(
        sites.len(),
        |i: int| convert::place_entry(s, LocationView { uri, range: sites[i] }),
    );
    assert forall|i: int| 0 <= i < ranges.len() implies #[trigger] convert::site_entries(
        ranges,
        s,
        uri,
    )[i] == Some(all[i]) by {
        assert(shapes::is_range(ranges[i], sites[i]));
        shapes::ranges_are_read_by_name(ranges[i], sites[i]);
    }
    reports::all_are_kept(convert::site_entries(ranges, s, uri), all);
    let told = convert::call_pair(j, s, direction, sites_in)->Some_0;
    assert(told.items_at("ranges"@) == Some(all));
    assert forall|i: int| 0 <= i < sites.len() implies shapes::points_at(
        #[trigger] told.items_at("ranges"@)->Some_0[i],
        sites[i],
    ) && told.items_at("ranges"@)->Some_0[i].text_at("file"@) == Some(s.reported(uri)) by {
        reports::entries_tell_their_place(s, LocationView { uri, range: sites[i] });
    }
}

/// Every call that a server lists is told, in order.
pub proof fn every_call_is_told(
    items: Seq<JsonView>,
    direction: Seq<char>,
    handles: Seq<Handle>,
    sites: Seq<Seq<Range>>,
    sites_in: Option<Seq<char>>,
    s: SourceView,
)
    requires
        items.len() == handles.len() == sites.len(),
        items.len() <= u64::MAX,
        direction != "ranges"@,
        forall|i: int|
            0 <= i < items.len() ==> is_call(#[trigger] items[i], direction, handles[i], sites[i]),
    ensures
        ({
            let told = convert::calls_result(JsonView::List(items), s, direction, sites_in);
            &&& reports::tells(told, "calls"@, items.len() as int)
            &&& forall|i: int|
                0 <= i < items.len() ==> tells_call(
                    #[trigger] reports::entry(told, "calls"@, i),
                    direction,
                    items[i].get(direction)->Some_0,
                    handles[i],
                    sites[i],
                    match sites_in {
                        Some(uri) => s.reported(uri),
                        None => s.reported(handles[i].uri),
                    },
                    s,
                )
        }),
{
    reveal_strlit("count");
    reveal_strlit("calls");
    assert("count"@[1] == 'o');
    assert("calls"@[1] == 'a');
    let all = Seq::new(
        items.len(),
        |i: int| convert::call_pair(items[i], s, direction, sites_in)->Some_0,
    );
    assert forall|i: int| 0 <= i < items.len() implies #[trigger] convert::call_pairs(
        items,
        s,
        direction,
        sites_in,
    )[i] == Some(all[i]) by {
        calls_are_told(items[i], direction, handles[i], sites[i], sites_in, s);
    }
    reports::all_are_kept(convert::call_pairs(items, s, direction, sites_in), all);
    let told = convert::calls_result(JsonView::List(items), s, direction, sites_in);
    assert forall|i: int| 0 <= i < items.len() implies tells_call(
        #[trigger] reports::entry(told, "calls"@, i),
        direction,
        items[i].get(direction)->Some_0,
        handles[i],
        sites[i],
        match sites_in {
            Some(uri) => s.reported(uri),
            None => s.reported(handles[i].uri),
        },
        s,
    ) by {
        calls_are_told(items[i], direction, handles[i], sites[i], sites_in, s);
        assert(reports::entry(told, "calls"@, i) == all[i]);
    }
}

// ---------------------------------------------------------------------------
// Whole answers
// ---------------------------------------------------------------------------

/// A value that spells a list of symbols that were found.
pub open spec fn are_found(value: JsonView, found: Seq<Found>) -> bool {
    &&& value is List
    &&& value->List_0.len() == found.len()
    &&& value->List_0.len() <= u64::MAX
    &&& forall|i: int| 0 <= i < found.len() ==> is_found(#[trigger] value->List_0[i], found[i])
}

/// A report that tells symbols that were found, in order and up to a limit.
pub open spec fn tells_all_found(
    told: Option<JsonView>,
    found: Seq<Found>,
    s: SourceView,
    limit: int,
) -> bool {
    let shown = if limit < found.len() {
        limit
    } else {
        found.len() as int
    };
    &&& told is Some
    &&& told->Some_0.count_at("count"@) == Some(found.len() as u64)
    &&& told->Some_0.items_at("symbols"@) is Some
    &&& told->Some_0.items_at("symbols"@)->Some_0.len() == shown
    &&& told->Some_0.flag_at("truncated"@) == (if limit < found.len() {
        Some(true)
    } else {
        None
    })
    &&& forall|i: int|
        0 <= i < shown ==> tells_found(
            #[trigger] reports::entry(told, "symbols"@, i),
            found[i],
            s,
        )
}

/// Whatever symbols a server found, a report of them tells each up to the limit.
pub open spec fn searches_answered(
    value: JsonView,
    s: SourceView,
    limit: int,
    told: Option<JsonView>,
) -> bool {
    forall|found: Seq<Found>| #[trigger]
        are_found(value, found) ==> tells_all_found(told, found, s, limit)
}

/// The report of a search tells every symbol that a server found.
pub proof fn searches_are_answered(value: JsonView, s: SourceView, limit: int)
    requires
        0 <= limit,
    ensures
        searches_answered(value, s, limit, convert::search_result(value, s, limit)),
{
    assert forall|found: Seq<Found>| #[trigger] are_found(value, found) implies tells_all_found(
        convert::search_result(value, s, limit),
        found,
        s,
        limit,
    ) by {
        every_match_is_told(value->List_0, found, s, limit);
    }
}

/// A value that spells a list of symbols of a file, none with parts.
pub open spec fn are_declared(value: JsonView, declared: Seq<Declared>) -> bool {
    &&& value is List
    &&& value->List_0.len() == declared.len()
    &&& value->List_0.len() <= u64::MAX
    &&& forall|i: int|
        0 <= i < declared.len() ==> is_declared(#[trigger] value->List_0[i], declared[i])
            && shapes::leaves_out(value->List_0[i], "children"@)
}

/// Whatever symbols a server lists for a file, the outline tells each.
pub open spec fn outlines_answered(value: JsonView, told: Option<JsonView>) -> bool {
    forall|declared: Seq<Declared>| #[trigger]
        are_declared(value, declared) ==> reports::tells(
            told,
            "symbols"@,
            declared.len() as int,
        ) && forall|i: int|
            0 <= i < declared.len() ==> tells_declared(
                #[trigger] reports::entry(told, "symbols"@, i),
                declared[i],
            )
}

/// The outline of a file tells every symbol that a server lists.
pub proof fn outlines_are_answered(value: JsonView, s: SourceView, uri: Seq<char>)
    ensures
        outlines_answered(value, convert::outline_result(value, s, uri)),
{
    assert forall|declared: Seq<Declared>| #[trigger] are_declared(value, declared) implies ({
        let told = convert::outline_result(value, s, uri);
        reports::tells(told, "symbols"@, declared.len() as int) && forall|i: int|
            0 <= i < declared.len() ==> tells_declared(
                #[trigger] reports::entry(told, "symbols"@, i),
                declared[i],
            )
    }) by {
        let items = value->List_0;
        assert forall|i: int| 0 <= i < items.len() implies is_declared(
            #[trigger] items[i],
            declared[i],
        ) && convert::symbol_valid(items[i]) && (shapes::leaves_out(items[i], "children"@)
            || items[i].items_at("children"@) is Some) by {
            declarations_are_told(items[i], declared[i], s, uri);
        }
        every_declaration_is_told(items, declared, s, uri);
    }
}

/// A value that spells a list of handles.
pub open spec fn are_handles(value: JsonView, handles: Seq<Handle>) -> bool {
    &&& value is List
    &&& value->List_0.len() == handles.len()
    &&& value->List_0.len() <= u64::MAX
    &&& forall|i: int| 0 <= i < handles.len() ==> is_handle(#[trigger] value->List_0[i], handles[i])
}

/// Whatever handles a server gives out, a report of them tells each.
pub open spec fn handles_answered(value: JsonView, s: SourceView, told: Option<JsonView>) -> bool {
    forall|handles: Seq<Handle>| #[trigger]
        are_handles(value, handles) ==> reports::tells(
            told,
            "items"@,
            handles.len() as int,
        ) && forall|i: int|
            0 <= i < handles.len() ==> tells_handle(
                #[trigger] reports::entry(told, "items"@, i),
                value->List_0[i],
                handles[i],
                s,
            )
}

/// The report of handles tells every one that a server gives out.
pub proof fn handles_are_answered(value: JsonView, s: SourceView)
    ensures
        handles_answered(value, s, convert::call_items_result(value, s)),
{
    assert forall|handles: Seq<Handle>| #[trigger] are_handles(value, handles) implies ({
        let told = convert::call_items_result(value, s);
        reports::tells(told, "items"@, handles.len() as int) && forall|i: int|
            0 <= i < handles.len() ==> tells_handle(
                #[trigger] reports::entry(told, "items"@, i),
                value->List_0[i],
                handles[i],
                s,
            )
    }) by {
        every_handle_is_told(value->List_0, handles, s);
    }
}

/// A value that spells a list of calls.
pub open spec fn are_calls(
    value: JsonView,
    direction: Seq<char>,
    handles: Seq<Handle>,
    sites: Seq<Seq<Range>>,
) -> bool {
    &&& value is List
    &&& value->List_0.len() == handles.len() == sites.len()
    &&& value->List_0.len() <= u64::MAX
    &&& forall|i: int|
        0 <= i < handles.len() ==> is_call(
            #[trigger] value->List_0[i],
            direction,
            handles[i],
            sites[i],
        )
}

/// Whatever calls a server lists, a report of them tells each.
pub open spec fn calls_answered(
    value: JsonView,
    s: SourceView,
    direction: Seq<char>,
    sites_in: Option<Seq<char>>,
    told: Option<JsonView>,
) -> bool {
    direction != "ranges"@ ==> forall|handles: Seq<Handle>, sites: Seq<Seq<Range>>| #[trigger]
        are_calls(value, direction, handles, sites) ==> reports::tells(
            told,
            "calls"@,
            handles.len() as int,
        ) && forall|i: int|
            0 <= i < handles.len() ==> tells_call(
                #[trigger] reports::entry(told, "calls"@, i),
                direction,
                value->List_0[i].get(direction)->Some_0,
                handles[i],
                sites[i],
                match sites_in {
                    Some(uri) => s.reported(uri),
                    None => s.reported(handles[i].uri),
                },
                s,
            )
}

/// The report of calls tells every one that a server lists.
pub proof fn calls_are_answered(
    value: JsonView,
    s: SourceView,
    direction: Seq<char>,
    sites_in: Option<Seq<char>>,
)
    ensures
        calls_answered(
            value,
            s,
            direction,
            sites_in,
            convert::calls_result(value, s, direction, sites_in),
        ),
{
    if direction != "ranges"@ {
        assert forall|handles: Seq<Handle>, sites: Seq<Seq<Range>>| #[trigger]
            are_calls(value, direction, handles, sites) implies ({
            let told = convert::calls_result(value, s, direction, sites_in);
            reports::tells(told, "calls"@, handles.len() as int) && forall|i: int|
                0 <= i < handles.len() ==> tells_call(
                    #[trigger] reports::entry(told, "calls"@, i),
                    direction,
                    value->List_0[i].get(direction)->Some_0,
                    handles[i],
                    sites[i],
                    match sites_in {
                        Some(uri) => s.reported(uri),
                        None => s.reported(handles[i].uri),
                    },
                    s,
                )
        }) by {
            every_call_is_told(value->List_0, direction, handles, sites, sites_in, s);
        }
    }
}

} // verus!
