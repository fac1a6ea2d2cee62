//! The shapes of the values that language servers send.
//!
//! A structure arrives as an object with its fields under their names, or as
//! an array with its fields in order. Fields that a structure does not know
//! are passed over. An optional field may be missing or `null`.

use crate::edit::Position;
use crate::edit::Range;
use crate::json;
use crate::json::Json;
use crate::json::JsonView;
use crate::view;
use vstd::prelude::*;

verus! {

/// A value that does not have the shape it should have.
#[derive(Debug, PartialEq, Eq)]
pub struct Malformed;

// ---------------------------------------------------------------------------
// Fields
// ---------------------------------------------------------------------------

/// Whether a value can be a structure of so many fields.
pub open spec fn structure(j: JsonView, fields: int) -> bool {
    match j {
        JsonView::Object(_) => true,
        JsonView::List(s) => s.len() <= fields,
        _ => false,
    }
}

/// A field of a structure, by its name or by its place.
pub open spec fn field(j: JsonView, name: Seq<char>, at: int) -> Option<JsonView> {
    match j {
        JsonView::Object(m) => if m.contains_key(name) {
            Some(m[name])
        } else {
            None
        },
        JsonView::List(s) => if 0 <= at < s.len() {
            Some(s[at])
        } else {
            None
        },
        _ => None,
    }
}

/// A text that has to be there.
pub open spec fn text_of(f: Option<JsonView>) -> Option<Seq<char>> {
    match f {
        Some(JsonView::Text(t)) => Some(t),
        _ => None,
    }
}

/// A number that has to be there and to fit.
pub open spec fn number_of(f: Option<JsonView>) -> Option<u32> {
    match f {
        Some(v) => match v.count() {
            Some(n) => if n <= u32::MAX {
                Some(n as u32)
            } else {
                None
            },
            None => None,
        },
        None => None,
    }
}

/// Whether an optional field was left out.
pub open spec fn absent(f: Option<JsonView>) -> bool {
    f is None || f == Some(JsonView::Null)
}

/// An optional text: none at all where what is there is not a text.
pub open spec fn maybe_text(f: Option<JsonView>) -> Option<Option<Seq<char>>> {
    if absent(f) {
        Some(None)
    } else {
        match text_of(f) {
            Some(t) => Some(Some(t)),
            None => None,
        }
    }
}

/// A position.
pub open spec fn position_of(j: JsonView) -> Option<Position> {
    if structure(j, 2) {
        match (number_of(field(j, "line"@, 0)), number_of(field(j, "character"@, 1))) {
            (Some(line), Some(character)) => Some(Position { line, character }),
            _ => None,
        }
    } else {
        None
    }
}

/// A range.
pub open spec fn range_of(j: JsonView) -> Option<Range> {
    if structure(j, 2) {
        match (field(j, "start"@, 0), field(j, "end"@, 1)) {
            (Some(s), Some(e)) => match (position_of(s), position_of(e)) {
                (Some(start), Some(end)) => Some(Range { start, end }),
                _ => None,
            },
            _ => None,
        }
    } else {
        None
    }
}

/// A range that has to be there.
pub open spec fn range_in(f: Option<JsonView>) -> Option<Range> {
    match f {
        Some(v) => range_of(v),
        None => None,
    }
}

/// An optional range: none at all where what is there is not a range.
pub open spec fn maybe_range(f: Option<JsonView>) -> Option<Option<Range>> {
    if absent(f) {
        Some(None)
    } else {
        match range_in(f) {
            Some(r) => Some(Some(r)),
            None => None,
        }
    }
}

/// Whether a value can be a structure of so many fields.
pub fn is_structure(j: &Json, fields: usize) -> (r: bool)
    ensures
        r == structure(j@, fields as int),
{
    match j {
        Json::Object(_) => true,
        Json::List(v) => v.len() <= fields,
        _ => false,
    }
}

/// A field of a structure, by its name or by its place.
pub fn get_field<'a>(j: &'a Json, name: &str, at: usize) -> (r: Option<&'a Json>)
    ensures
        view::maybe(r) == field(j@, name@, at as int),
        r is Some ==> decreases_to!(j => r->Some_0),
{
    match j {
        Json::Object(o) => o.get(name),
        Json::List(v) => if at < v.len() {
            assert(decreases_to!(v@ => v@[at as int]));
            Some(&v[at])
        } else {
            None
        },
        _ => None,
    }
}

/// A text that has to be there.
pub fn get_text(f: Option<&Json>) -> (r: Option<String>)
    ensures
        view::maybe(r) == text_of(view::maybe(f)),
{
    match f {
        Some(Json::Text(t)) => Some(t.clone()),
        _ => None,
    }
}

/// A number that has to be there and to fit.
pub fn get_number(f: Option<&Json>) -> (r: Option<u32>)
    ensures
        r == number_of(view::maybe(f)),
{
    match f {
        Some(v) => match v.as_u64() {
            Some(n) => if n <= 0xffff_ffff {
                Some(n as u32)
            } else {
                None
            },
            None => None,
        },
        None => None,
    }
}

/// Whether an optional field was left out.
pub fn is_absent(f: Option<&Json>) -> (r: bool)
    ensures
        r == absent(view::maybe(f)),
{
    match f {
        Some(v) => v.is_null(),
        None => true,
    }
}

/// An optional text.
pub fn get_maybe_text(f: Option<&Json>) -> (r: Option<Option<String>>)
    ensures
        maybe_text(view::maybe(f)) == (match r {
            Some(t) => Some(view::maybe(t)),
            None => None,
        }),
{
    if is_absent(f) {
        Some(None)
    } else {
        match get_text(f) {
            Some(t) => Some(Some(t)),
            None => None,
        }
    }
}

/// A position.
pub fn get_position(j: &Json) -> (r: Option<Position>)
    ensures
        r == position_of(j@),
{
    if !is_structure(j, 2) {
        return None;
    }
    match (get_number(get_field(j, "line", 0)), get_number(get_field(j, "character", 1))) {
        (Some(line), Some(character)) => Some(Position { line, character }),
        _ => None,
    }
}

/// A range.
pub fn get_range(j: &Json) -> (r: Option<Range>)
    ensures
        r == range_of(j@),
{
    if !is_structure(j, 2) {
        return None;
    }
    match (get_field(j, "start", 0), get_field(j, "end", 1)) {
        (Some(s), Some(e)) => match (get_position(s), get_position(e)) {
            (Some(start), Some(end)) => Some(Range { start, end }),
            _ => None,
        },
        _ => None,
    }
}

/// A range that has to be there.
pub fn get_range_in(f: Option<&Json>) -> (r: Option<Range>)
    ensures
        r == range_in(view::maybe(f)),
{
    match f {
        Some(v) => get_range(v),
        None => None,
    }
}

/// An optional range.
pub fn get_maybe_range(f: Option<&Json>) -> (r: Option<Option<Range>>)
    ensures
        r == maybe_range(view::maybe(f)),
{
    if is_absent(f) {
        Some(None)
    } else {
        match get_range_in(f) {
            Some(r) => Some(Some(r)),
            None => None,
        }
    }
}

/// The texts of a list, if all its values are texts.
pub open spec fn texts_of(s: Seq<JsonView>) -> Option<Seq<Seq<char>>> {
    if forall|i: int| 0 <= i < s.len() ==> (#[trigger] s[i]) is Text {
        Some(Seq::new(s.len(), |i: int| s[i]->Text_0))
    } else {
        None
    }
}

/// The texts of a list, if all its values are texts.
pub fn get_texts(list: &Vec<Json>) -> (r: Option<Vec<String>>)
    ensures
        texts_of(json::list_view(list@)) == (match r {
            Some(v) => Some(view::each(v@)),
            None => None,
        }),
{
    let ghost all = json::list_view(list@);
    let mut out: Vec<String> = Vec::new();
    let mut i: usize = 0;
    while i < list.len()
        invariant
            i <= list@.len(),
            all == json::list_view(list@),
            out@.len() == i,
            forall|k: int|
                0 <= k < i ==> (#[trigger] all[k]) is Text && all[k]->Text_0 == out@[k]@,
        decreases list@.len() - i,
    {
        assert(all[i as int] == list@[i as int]@);
        match list[i].as_str() {
            Some(t) => out.push(t.to_owned()),
            None => {
                assert(!(all[i as int] is Text));
                return None;
            },
        }
        i += 1;
    }
    assert(view::each(out@) =~= texts_of(all)->Some_0);
    Some(out)
}

// ---------------------------------------------------------------------------
// Structures
// ---------------------------------------------------------------------------

/// A place: a URI and a range.
#[derive(Debug, PartialEq, Eq)]
pub struct Location {
    /// The URI.
    pub uri: String,
    /// The range.
    pub range: Range,
}

/// What a place is.
#[verifier::ext_equal]
pub struct LocationView {
    /// The URI.
    pub uri: Seq<char>,
    /// The range.
    pub range: Range,
}

impl View for Location {
    type V = LocationView;

    open spec fn view(&self) -> LocationView {
        LocationView { uri: self.uri@, range: self.range }
    }
}

/// A place.
pub open spec fn location_of(j: JsonView) -> Option<LocationView> {
    if structure(j, 2) {
        match (text_of(field(j, "uri"@, 0)), range_in(field(j, "range"@, 1))) {
            (Some(uri), Some(range)) => Some(LocationView { uri, range }),
            _ => None,
        }
    } else {
        None
    }
}

/// A place.
pub fn get_location(j: &Json) -> (r: Option<Location>)
    ensures
        view::maybe(r) == location_of(j@),
{
    if !is_structure(j, 2) {
        return None;
    }
    match (get_text(get_field(j, "uri", 0)), get_range_in(get_field(j, "range", 1))) {
        (Some(uri), Some(range)) => Some(Location { uri, range }),
        _ => None,
    }
}

/// One end of an answer to "where is this declared": a place, or a link whose
/// target has a range of its own and one of its name. Which of them arrives
/// depends on the server.
pub open spec fn goto_valid(j: JsonView) -> bool {
    &&& structure(j, 5)
    &&& maybe_text(field(j, "uri"@, 0)) is Some
    &&& maybe_range(field(j, "range"@, 1)) is Some
    &&& maybe_text(field(j, "targetUri"@, 2)) is Some
    &&& maybe_range(field(j, "targetRange"@, 3)) is Some
    &&& maybe_range(field(j, "targetSelectionRange"@, 4)) is Some
}

/// The first of two optional values that is there.
pub open spec fn either<T>(a: Option<T>, b: Option<T>) -> Option<T> {
    match a {
        Some(v) => Some(v),
        None => b,
    }
}

/// Where such an end points. Of a link, the range of the target's name counts
/// before that of the whole target.
pub open spec fn goto_place(j: JsonView) -> Option<LocationView> {
    let uri = either(
        maybe_text(field(j, "uri"@, 0))->Some_0,
        maybe_text(field(j, "targetUri"@, 2))->Some_0,
    );
    let range = either(
        either(
            maybe_range(field(j, "range"@, 1))->Some_0,
            maybe_range(field(j, "targetSelectionRange"@, 4))->Some_0,
        ),
        maybe_range(field(j, "targetRange"@, 3))->Some_0,
    );
    match (uri, range) {
        (Some(uri), Some(range)) => Some(LocationView { uri, range }),
        _ => None,
    }
}

/// Where one end of such an answer points, if it says so.
pub fn get_goto(j: &Json) -> (r: Result<Option<Location>, Malformed>)
    ensures
        match r {
            Ok(place) => goto_valid(j@) && view::maybe(place) == goto_place(j@),
            Err(_) => !goto_valid(j@),
        },
{
    if !is_structure(j, 5) {
        return Err(Malformed);
    }
    match (
        get_maybe_text(get_field(j, "uri", 0)),
        get_maybe_range(get_field(j, "range", 1)),
        get_maybe_text(get_field(j, "targetUri", 2)),
        get_maybe_range(get_field(j, "targetRange", 3)),
        get_maybe_range(get_field(j, "targetSelectionRange", 4)),
    ) {
        (Some(uri), Some(range), Some(target_uri), Some(target_range), Some(name_range)) => {
            let at = match uri {
                Some(u) => Some(u),
                None => target_uri,
            };
            let of = match range {
                Some(r) => Some(r),
                None => match name_range {
                    Some(r) => Some(r),
                    None => target_range,
                },
            };
            match (at, of) {
                (Some(uri), Some(range)) => Ok(Some(Location { uri, range })),
                _ => Ok(None),
            }
        },
        _ => Err(Malformed),
    }
}

/// A server's handle on one declaration.
#[derive(Debug)]
pub struct CallItem {
    /// The name.
    pub name: String,
    /// The number of the symbol's kind.
    pub kind: u32,
    /// More about it.
    pub detail: Option<String>,
    /// The URI of its file.
    pub uri: String,
    /// The range of the declaration.
    pub range: Range,
    /// The range of the name.
    pub selection_range: Range,
}

/// What such a handle is.
#[verifier::ext_equal]
pub struct CallItemView {
    /// The name.
    pub name: Seq<char>,
    /// The number of the symbol's kind.
    pub kind: u32,
    /// More about it.
    pub detail: Option<Seq<char>>,
    /// The URI of its file.
    pub uri: Seq<char>,
    /// The range of the declaration.
    pub range: Range,
    /// The range of the name.
    pub selection_range: Range,
}

impl View for CallItem {
    type V = CallItemView;

    open spec fn view(&self) -> CallItemView {
        CallItemView {
            name: self.name@,
            kind: self.kind,
            detail: view::maybe(self.detail),
            uri: self.uri@,
            range: self.range,
            selection_range: self.selection_range,
        }
    }
}

/// A server's handle on one declaration.
pub open spec fn call_item_of(j: JsonView) -> Option<CallItemView> {
    if structure(j, 6) {
        match (
            text_of(field(j, "name"@, 0)),
            number_of(field(j, "kind"@, 1)),
            maybe_text(field(j, "detail"@, 2)),
            text_of(field(j, "uri"@, 3)),
            range_in(field(j, "range"@, 4)),
            range_in(field(j, "selectionRange"@, 5)),
        ) {
            (Some(name), Some(kind), Some(detail), Some(uri), Some(range), Some(selection_range)) =>
                Some(CallItemView { name, kind, detail, uri, range, selection_range }),
            _ => None,
        }
    } else {
        None
    }
}

/// A server's handle on one declaration.
pub fn get_call_item(j: &Json) -> (r: Option<CallItem>)
    ensures
        view::maybe(r) == call_item_of(j@),
{
    if !is_structure(j, 6) {
        return None;
    }
    match (
        get_text(get_field(j, "name", 0)),
        get_number(get_field(j, "kind", 1)),
        get_maybe_text(get_field(j, "detail", 2)),
        get_text(get_field(j, "uri", 3)),
        get_range_in(get_field(j, "range", 4)),
        get_range_in(get_field(j, "selectionRange", 5)),
    ) {
        (Some(name), Some(kind), Some(detail), Some(uri), Some(range), Some(selection_range)) => Some(
            CallItem { name, kind, detail, uri, range, selection_range },
        ),
        _ => None,
    }
}

/// A match of a search for symbols. One that waits to be resolved has no range.
#[derive(Debug)]
pub struct SymbolInfo {
    /// The name.
    pub name: String,
    /// The number of the symbol's kind.
    pub kind: u32,
    /// The URI of its file.
    pub uri: String,
    /// Its range.
    pub range: Option<Range>,
    /// The name of what it is declared in.
    pub container_name: Option<String>,
}

/// What such a match is.
#[verifier::ext_equal]
pub struct SymbolInfoView {
    /// The name.
    pub name: Seq<char>,
    /// The number of the symbol's kind.
    pub kind: u32,
    /// The URI of its file.
    pub uri: Seq<char>,
    /// Its range.
    pub range: Option<Range>,
    /// The name of what it is declared in.
    pub container_name: Option<Seq<char>>,
}

impl View for SymbolInfo {
    type V = SymbolInfoView;

    open spec fn view(&self) -> SymbolInfoView {
        SymbolInfoView {
            name: self.name@,
            kind: self.kind,
            uri: self.uri@,
            range: self.range,
            container_name: view::maybe(self.container_name),
        }
    }
}

/// A match of a search for symbols.
pub open spec fn symbol_info_of(j: JsonView) -> Option<SymbolInfoView> {
    let at = field(j, "location"@, 2);
    if structure(j, 4) && at is Some && structure(at->Some_0, 2) {
        match (
            text_of(field(j, "name"@, 0)),
            number_of(field(j, "kind"@, 1)),
            text_of(field(at->Some_0, "uri"@, 0)),
            maybe_range(field(at->Some_0, "range"@, 1)),
            maybe_text(field(j, "containerName"@, 3)),
        ) {
            (Some(name), Some(kind), Some(uri), Some(range), Some(container_name)) => Some(
                SymbolInfoView { name, kind, uri, range, container_name },
            ),
            _ => None,
        }
    } else {
        None
    }
}

/// A match of a search for symbols.
pub fn get_symbol_info(j: &Json) -> (r: Option<SymbolInfo>)
    ensures
        view::maybe(r) == symbol_info_of(j@),
{
    if !is_structure(j, 4) {
        return None;
    }
    let at = match get_field(j, "location", 2) {
        Some(at) => at,
        None => {
            return None;
        },
    };
    if !is_structure(at, 2) {
        return None;
    }
    match (
        get_text(get_field(j, "name", 0)),
        get_number(get_field(j, "kind", 1)),
        get_text(get_field(at, "uri", 0)),
        get_maybe_range(get_field(at, "range", 1)),
        get_maybe_text(get_field(j, "containerName", 3)),
    ) {
        (Some(name), Some(kind), Some(uri), Some(range), Some(container_name)) => Some(
            SymbolInfo { name, kind, uri, range, container_name },
        ),
        _ => None,
    }
}

} // verus!
