//! How values are spelled: positions, ranges and places, by their fields.

use crate::edit::Position;
use crate::edit::Range;
use crate::json::JsonView;
use crate::wire;
use vstd::prelude::*;

verus! {

/// A value that spells a position.
pub open spec fn is_position(j: JsonView, p: Position) -> bool {
    &&& j.count_at("line"@) == Some(p.line as u64)
    &&& j.count_at("character"@) == Some(p.character as u64)
}

/// A value that spells a range.
pub open spec fn is_range(j: JsonView, r: Range) -> bool {
    &&& j.get("start"@) is Some
    &&& is_position(j.get("start"@)->Some_0, r.start)
    &&& j.get("end"@) is Some
    &&& is_position(j.get("end"@)->Some_0, r.end)
}

/// An object that spells a range under a key.
pub open spec fn has_range(j: JsonView, key: Seq<char>, r: Range) -> bool {
    j.get(key) is Some && is_range(j.get(key)->Some_0, r)
}

/// A value that spells a place in a file.
pub open spec fn is_location(j: JsonView, uri: Seq<char>, r: Range) -> bool {
    j.text_at("uri"@) == Some(uri) && has_range(j, "range"@, r)
}

/// An entry of a report that points at a range.
pub open spec fn points_at(entry: JsonView, r: Range) -> bool {
    &&& entry.count_at("start_line"@) == Some(r.start.line as u64)
    &&& entry.count_at("start_character"@) == Some(r.start.character as u64)
    &&& entry.count_at("end_line"@) == Some(r.end.line as u64)
    &&& entry.count_at("end_character"@) == Some(r.end.character as u64)
}

/// A key that an object leaves out, or leaves empty.
pub open spec fn leaves_out(j: JsonView, key: Seq<char>) -> bool {
    j.get(key) is None || j.get(key) == Some(JsonView::Null)
}

/// A position is read by the names of its two numbers, or by their order, and
/// in no other way.
pub proof fn positions_are_read_by_name(j: JsonView, p: Position)
    ensures
        j is Object ==> (wire::position_of(j) == Some(p) <==> is_position(j, p)),
        j is List ==> (wire::position_of(j) == Some(p) <==> j->List_0.len() == 2
            && j->List_0[0].count() == Some(p.line as u64) && j->List_0[1].count() == Some(
            p.character as u64,
        )),
        !(j is Object || j is List) ==> wire::position_of(j) is None,
{
}

/// A range is read by the names of its two ends, or by their order.
pub proof fn ranges_are_read_by_name(j: JsonView, r: Range)
    ensures
        is_range(j, r) ==> wire::range_of(j) == Some(r),
        wire::range_of(j) == Some(r) && j is Object && j.get("start"@)->Some_0 is Object && j.get(
            "end"@,
        )->Some_0 is Object ==> is_range(j, r),
        j is List && wire::range_of(j) == Some(r) ==> j->List_0.len() == 2 && wire::position_of(
            j->List_0[0],
        ) == Some(r.start) && wire::position_of(j->List_0[1]) == Some(r.end),
        !(j is Object || j is List) ==> wire::range_of(j) is None,
{
    if is_range(j, r) {
        positions_are_read_by_name(j.get("start"@)->Some_0, r.start);
        positions_are_read_by_name(j.get("end"@)->Some_0, r.end);
    }
    if j is Object && j.get("start"@) is Some && j.get("end"@) is Some {
        positions_are_read_by_name(j.get("start"@)->Some_0, r.start);
        positions_are_read_by_name(j.get("end"@)->Some_0, r.end);
    }
}

/// A place is read by its URI and its range.
pub proof fn locations_are_read_by_name(j: JsonView, uri: Seq<char>, r: Range)
    requires
        is_location(j, uri, r),
    ensures
        wire::location_of(j) == Some(wire::LocationView { uri, range: r }),
{
    ranges_are_read_by_name(j.get("range"@)->Some_0, r);
}

/// The fields of reports are told apart.
pub proof fn report_keys()
    ensures
        "name"@.len() == 4,
        "name"@[0] == 'n',
        "kind"@.len() == 4,
        "kind"@[0] == 'k',
        "file"@.len() == 4,
        "file"@[0] == 'f',
        "item"@.len() == 4,
        "item"@[0] == 'i',
        "text"@.len() == 4,
        "text"@[0] == 't',
        "start_line"@.len() == 10,
        "start_character"@.len() == 15,
        "start_character"@[0] == 's',
        "end_line"@.len() == 8,
        "end_line"@[0] == 'e',
        "end_character"@.len() == 13,
        "end_character"@[0] == 'e',
        "body_start_line"@.len() == 15,
        "body_start_line"@[0] == 'b',
        "body_end_line"@.len() == 13,
        "body_end_line"@[0] == 'b',
        "detail"@.len() == 6,
        "container_name"@.len() == 14,
        "context"@.len() == 7,
        "context_start_line"@.len() == 18,
        "children"@.len() == 8,
        "children"@[0] == 'c',
{
    reveal_strlit("name");
    reveal_strlit("kind");
    reveal_strlit("file");
    reveal_strlit("item");
    reveal_strlit("text");
    reveal_strlit("start_line");
    reveal_strlit("start_character");
    reveal_strlit("end_line");
    reveal_strlit("end_character");
    reveal_strlit("body_start_line");
    reveal_strlit("body_end_line");
    reveal_strlit("detail");
    reveal_strlit("container_name");
    reveal_strlit("context");
    reveal_strlit("context_start_line");
    reveal_strlit("children");
}

} // verus!
