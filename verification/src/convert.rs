//! From what language servers answer to what queries report.
//!
//! Every place a query reports carries the text that stands there, as a
//! [`Source`] quotes it.

use crate::edit::Range;
use crate::json;
use crate::json::Json;
use crate::json::JsonView;
use crate::json::Object;
use crate::language;
use crate::language::Language;
use crate::operation::LanguageRoute;
use crate::operation::LanguageRouteView;
use crate::source;
use crate::source::Source;
use crate::source::SourceView;
use crate::text;
use crate::uri;
use crate::view;
use crate::wire;
use crate::wire::LocationView;
use crate::wire::Malformed;
use vstd::prelude::*;

verus! {

/// A number of items, and the items under a key.
pub open spec fn counted(key: Seq<char>, items: Seq<JsonView>) -> JsonView {
    JsonView::Object(map!["count"@ => json::num(items.len() as int), key => JsonView::List(items)])
}

/// A number of items, and the items under a key.
fn count_items(key: &str, items: Vec<Json>) -> (r: Json)
    ensures
        r@ == counted(key@, json::list_view(items@)),
{
    let n: u64 = items.len() as u64;
    Json::Object(Object::new().with("count", Json::number(n)).with(key, Json::List(items)))
}

/// The fields that say where a place is.
pub open spec fn place(file: Seq<char>, range: Range) -> Map<Seq<char>, JsonView> {
    map![
        "file"@ => JsonView::Text(file),
        "start_line"@ => json::num(range.start.line as int),
        "start_character"@ => json::num(range.start.character as int),
        "end_line"@ => json::num(range.end.line as int),
        "end_character"@ => json::num(range.end.character as int)
    ]
}

/// A place with the text that stands there.
pub open spec fn place_entry(s: SourceView, at: LocationView) -> JsonView {
    JsonView::Object(
        source::annotated(
            place(s.reported(at.uri), at.range),
            s.content(at.uri),
            at.range,
            s.context_lines,
        ),
    )
}

/// A place with the text that stands there.
fn quote_place(source: &Source, uri: &str, range: &Range) -> (r: Json)
    ensures
        r@ == place_entry(source@, (LocationView { uri: uri@, range: *range })),
{
    let entry = Object::new().with("file", Json::Text(source.rel(uri))).with(
        "start_line",
        Json::number(range.start.line as u64),
    ).with("start_character", Json::number(range.start.character as u64)).with(
        "end_line",
        Json::number(range.end.line as u64),
    ).with("end_character", Json::number(range.end.character as u64));
    Json::Object(source.annotate(entry, uri, range))
}

// ---------------------------------------------------------------------------
// Usages
// ---------------------------------------------------------------------------

/// Whether every value is a place.
pub open spec fn all_places(items: Seq<JsonView>) -> bool {
    forall|i: int| 0 <= i < items.len() ==> wire::location_of(#[trigger] items[i]) is Some
}

/// What a list of places is reported as; nothing where it is not one.
pub open spec fn usages(value: JsonView, s: SourceView) -> Option<JsonView> {
    match value {
        JsonView::Null => Some(counted("usages"@, Seq::empty())),
        JsonView::List(items) => if all_places(items) {
            Some(
                counted(
                    "usages"@,
                    Seq::new(
                        items.len(),
                        |i: int| place_entry(s, wire::location_of(items[i])->Some_0),
                    ),
                ),
            )
        } else {
            None
        },
        _ => None,
    }
}

/// Reports a list of places, each with the line it points at.
pub fn locations_to_query(value: &Json, source: &Source) -> (r: Result<Json, Malformed>)
    ensures
        match r {
            Ok(out) => usages(value@, source@) == Some(out@),
            Err(_) => usages(value@, source@) is None,
        },
        crate::laws::reports::usages_answered(value@, source@, view::gained(r)),
{
    proof {
        crate::laws::reports::usages_are_answered(value@, source@);
    }
    if value.is_null() {
        return Ok(count_items("usages", json::no_values()));
    }
    let items = match value.as_array() {
        Some(items) => items,
        None => {
            return Err(Malformed);
        },
    };
    let ghost all = json::list_view(items@);
    let ghost entries = Seq::new(
        all.len(),
        |i: int| place_entry(source@, wire::location_of(all[i])->Some_0),
    );
    let mut out = json::no_values();
    let mut i: usize = 0;
    while i < items.len()
        invariant
            i <= items@.len(),
            all == json::list_view(items@),
            entries == Seq::new(
                all.len(),
                |i: int| place_entry(source@, wire::location_of(all[i])->Some_0),
            ),
            value@ == JsonView::List(all),
            forall|k: int| 0 <= k < i ==> wire::location_of(#[trigger] all[k]) is Some,
            json::list_view(out@) =~= entries.take(i as int),
        decreases items@.len() - i,
    {
        assert(all[i as int] == items@[i as int]@);
        match wire::get_location(&items[i]) {
            Some(at) => {
                out = json::listed(out, quote_place(source, at.uri.as_str(), &at.range));
                assert(entries.take(i + 1) =~= entries.take(i as int).push(entries[i as int]));
            },
            None => {
                return Err(Malformed);
            },
        }
        i += 1;
    }
    assert(entries.take(all.len() as int) =~= entries);
    Ok(count_items("usages", out))
}

// ---------------------------------------------------------------------------
// Definitions and their like
// ---------------------------------------------------------------------------

/// The ends of an answer to "where is this": a list of them, or one. Nothing
/// where the answer is neither.
pub open spec fn goto_ends(value: JsonView) -> Option<Seq<JsonView>> {
    if value is List && all_ends(value->List_0) {
        Some(value->List_0)
    } else if wire::goto_valid(value) {
        Some(seq![value])
    } else {
        None
    }
}

/// Whether every value is such an end.
pub open spec fn all_ends(items: Seq<JsonView>) -> bool {
    forall|i: int| 0 <= i < items.len() ==> wire::goto_valid(#[trigger] items[i])
}

/// The entry for one end, if it points somewhere.
pub open spec fn goto_entry(j: JsonView, s: SourceView) -> Option<JsonView> {
    match wire::goto_place(j) {
        Some(at) => Some(place_entry(s, at)),
        None => None,
    }
}

/// The entries for some ends.
pub open spec fn goto_entries(ends: Seq<JsonView>, s: SourceView) -> Seq<Option<JsonView>> {
    Seq::new(ends.len(), |i: int| goto_entry(ends[i], s))
}

/// What an answer to "where is this" is reported as: always a list, since a
/// declaration can be in several places.
pub open spec fn goto_result(value: JsonView, s: SourceView, key: Seq<char>) -> Option<JsonView> {
    if value is Null {
        Some(counted(key, Seq::empty()))
    } else {
        match goto_ends(value) {
            Some(ends) => Some(counted(key, view::kept(goto_entries(ends, s)))),
            None => None,
        }
    }
}

/// The entries for a list of ends, if each of them is one.
fn goto_list(items: &Vec<Json>, source: &Source) -> (r: Option<Vec<Json>>)
    ensures
        match r {
            Some(out) => all_ends(json::list_view(items@)) && json::list_view(out@) == view::kept(
                goto_entries(json::list_view(items@), source@),
            ),
            None => !all_ends(json::list_view(items@)),
        },
{
    let ghost all = json::list_view(items@);
    let ghost entries = goto_entries(all, source@);
    let mut out = json::no_values();
    let mut i: usize = 0;
    while i < items.len()
        invariant
            i <= items@.len(),
            all == json::list_view(items@),
            entries == goto_entries(all, source@),
            forall|k: int| 0 <= k < i ==> wire::goto_valid(#[trigger] all[k]),
            json::list_view(out@) == view::kept(entries.take(i as int)),
        decreases items@.len() - i,
    {
        assert(all[i as int] == items@[i as int]@);
        proof {
            view::kept_step(entries, i as int);
        }
        match wire::get_goto(&items[i]) {
            Ok(Some(at)) => {
                out = json::listed(out, quote_place(source, at.uri.as_str(), &at.range));
            },
            Ok(None) => {},
            Err(_) => {
                return None;
            },
        }
        i += 1;
    }
    assert(entries.take(all.len() as int) =~= entries);
    Some(out)
}

/// Reports an answer to "where is this" as a list under a key.
pub fn goto_to_query(value: &Json, source: &Source, key: &str) -> (r: Result<Json, Malformed>)
    ensures
        match r {
            Ok(out) => goto_result(value@, source@, key@) == Some(out@),
            Err(_) => goto_result(value@, source@, key@) is None,
        },
        crate::laws::reports::ends_answered(value@, source@, key@, view::gained(r)),
{
    proof {
        crate::laws::reports::ends_are_answered(value@, source@, key@);
    }
    if value.is_null() {
        return Ok(count_items(key, json::no_values()));
    }
    if let Some(items) = value.as_array() {
        if let Some(out) = goto_list(items, source) {
            return Ok(count_items(key, out));
        }
    }
    let ghost entries = goto_entries(seq![value@], source@);
    assert(entries.take(1) =~= entries);
    proof {
        view::kept_step(entries, 0);
    }
    match wire::get_goto(value) {
        Ok(Some(at)) => {
            let out = json::listed(
                json::no_values(),
                quote_place(source, at.uri.as_str(), &at.range),
            );
            Ok(count_items(key, out))
        },
        Ok(None) => Ok(count_items(key, json::no_values())),
        Err(_) => Err(Malformed),
    }
}

// ---------------------------------------------------------------------------
// Descriptions
// ---------------------------------------------------------------------------

/// Whether a value can be what a server says of a symbol: a text, an object
/// with a text in it, or a list of such.
pub open spec fn contents_valid(j: JsonView) -> bool
    decreases j,
{
    match j {
        JsonView::Text(_) => true,
        JsonView::Object(_) => j.text_at("value"@) is Some,
        JsonView::List(s) => all_contents(s),
        _ => false,
    }
}

/// Whether every value can be what a server says of a symbol.
pub open spec fn all_contents(s: Seq<JsonView>) -> bool
    decreases s,
{
    forall|i: int| 0 <= i < s.len() ==> contents_valid(#[trigger] s[i])
}

/// What a server says of a symbol as one text. A part in a language is fenced
/// as code; of a list the blank parts are left out.
pub open spec fn contents_text(j: JsonView) -> Seq<char>
    decreases j,
{
    match j {
        JsonView::Text(t) => t,
        JsonView::Object(_) => match (j.text_at("language"@), j.text_at("value"@)) {
            (Some(language), Some(value)) => "```"@ + language + "\n"@ + value + "\n```"@,
            (None, Some(value)) => value,
            _ => Seq::empty(),
        },
        JsonView::List(s) => text::joined(visible(part_texts(s)), "\n\n"@),
        _ => Seq::empty(),
    }
}

/// The texts that are not blank.
pub open spec fn visible(parts: Seq<Seq<char>>) -> Seq<Seq<char>> {
    parts.filter(|t: Seq<char>| !text::is_blank(t))
}

/// The texts of the parts of a list.
pub open spec fn part_texts(s: Seq<JsonView>) -> Seq<Seq<char>>
    decreases s,
{
    Seq::new(
        s.len(),
        |i: int|
            if 0 <= i < s.len() {
                contents_text(s[i])
            } else {
                Seq::empty()
            },
    )
}

/// What a server says of a symbol as one text.
fn hover_text(contents: &Json) -> (r: Option<String>)
    ensures
        match r {
            Some(t) => contents_valid(contents@) && t@ == contents_text(contents@),
            None => !contents_valid(contents@),
        },
    decreases contents,
{
    match contents {
        Json::Text(t) => Some(t.clone()),
        Json::Object(_) => {
            let value = match contents.str_at("value") {
                Some(value) => value,
                None => {
                    return None;
                },
            };
            match contents.str_at("language") {
                Some(language) => {
                    let head = text::cat3("```", language, "\n");
                    Some(text::cat3(head.as_str(), value, "\n```"))
                },
                None => Some(value.to_owned()),
            }
        },
        Json::List(parts) => match hover_parts(parts) {
            Some(shown) => Some(text::join(&shown, "\n\n")),
            None => None,
        },
        _ => None,
    }
}

/// The texts of the parts of a list that are not blank.
fn hover_parts(parts: &Vec<Json>) -> (r: Option<Vec<String>>)
    ensures
        match r {
            Some(shown) => all_contents(json::list_view(parts@)) && view::each(shown@) == visible(
                part_texts(json::list_view(parts@)),
            ),
            None => !all_contents(json::list_view(parts@)),
        },
    decreases parts,
{
    let ghost all = json::list_view(parts@);
    let ghost texts = part_texts(all);
    let ghost shows = |t: Seq<char>| !text::is_blank(t);
    let mut out: Vec<String> = Vec::new();
    let mut i: usize = 0;
    assert(texts.take(0).filter(shows) =~= Seq::empty()) by {
        reveal(Seq::filter);
    }
    assert(view::each(out@) =~= Seq::empty());
    while i < parts.len()
        invariant
            i <= parts@.len(),
            all == json::list_view(parts@),
            texts == part_texts(all),
            shows == (|t: Seq<char>| !text::is_blank(t)),
            forall|k: int| 0 <= k < i ==> contents_valid(#[trigger] all[k]),
            view::each(out@) == texts.take(i as int).filter(shows),
        decreases parts@.len() - i,
    {
        assert(all[i as int] == parts@[i as int]@);
        let shown = match hover_text(&parts[i]) {
            Some(shown) => shown,
            None => {
                assert(!contents_valid(all[i as int]));
                return None;
            },
        };
        assert(texts.take(i + 1).drop_last() =~= texts.take(i as int));
        assert(texts.take(i + 1).last() == shown@);
        reveal(Seq::filter);
        if !text::blank(shown.as_str()) {
            let ghost done = out@;
            let ghost next = shown;
            out.push(shown);
            assert(view::each(out@) =~= view::each(done).push(next@));
        }
        i += 1;
    }
    assert(texts.take(all.len() as int) =~= texts);
    Some(out)
}

/// A result with the range it is about.
pub open spec fn with_range(
    m: Map<Seq<char>, JsonView>,
    range: Option<Range>,
) -> Map<Seq<char>, JsonView> {
    match range {
        Some(range) => m.insert("start_line"@, json::num(range.start.line as int)).insert(
            "start_character"@,
            json::num(range.start.character as int),
        ).insert("end_line"@, json::num(range.end.line as int)).insert(
            "end_character"@,
            json::num(range.end.character as int),
        ),
        None => m,
    }
}

/// What a description of a symbol is reported as: one text, and the range it is
/// about where the server gives it.
pub open spec fn description(value: JsonView) -> Option<JsonView> {
    if value is Null {
        Some(JsonView::Object(map!["text"@ => JsonView::Text(""@)]))
    } else {
        match wire::field(value, "contents"@, 0) {
            Some(contents) => if wire::structure(value, 2) && contents_valid(contents)
                && wire::maybe_range(wire::field(value, "range"@, 1)) is Some {
                Some(
                    JsonView::Object(
                        with_range(
                            map!["text"@ => JsonView::Text(contents_text(contents))],
                            wire::maybe_range(wire::field(value, "range"@, 1))->Some_0,
                        ),
                    ),
                )
            } else {
                None
            },
            None => None,
        }
    }
}

/// Reports a description of a symbol.
pub fn hover_to_query(value: &Json) -> (r: Result<Json, Malformed>)
    ensures
        match r {
            Ok(out) => description(value@) == Some(out@),
            Err(_) => description(value@) is None,
        },
{
    if value.is_null() {
        return Ok(Json::Object(Object::new().with("text", Json::text(""))));
    }
    if !wire::is_structure(value, 2) {
        return Err(Malformed);
    }
    let contents = match wire::get_field(value, "contents", 0) {
        Some(contents) => contents,
        None => {
            return Err(Malformed);
        },
    };
    match (hover_text(contents), wire::get_maybe_range(wire::get_field(value, "range", 1))) {
        (Some(shown), Some(range)) => {
            let out = Object::new().with("text", Json::Text(shown));
            match range {
                Some(range) => Ok(
                    Json::Object(
                        out.with("start_line", Json::number(range.start.line as u64)).with(
                            "start_character",
                            Json::number(range.start.character as u64),
                        ).with("end_line", Json::number(range.end.line as u64)).with(
                            "end_character",
                            Json::number(range.end.character as u64),
                        ),
                    ),
                ),
                None => Ok(Json::Object(out)),
            }
        },
        _ => Err(Malformed),
    }
}

// ---------------------------------------------------------------------------
// Outlines
// ---------------------------------------------------------------------------

/// The name of a kind of symbol; the number itself where it has none.
pub open spec fn kind_name(kind: u32) -> Seq<char> {
    match kind {
        1 => "file"@,
        2 => "module"@,
        3 => "namespace"@,
        4 => "package"@,
        5 => "class"@,
        6 => "method"@,
        7 => "property"@,
        8 => "field"@,
        9 => "constructor"@,
        10 => "enum"@,
        11 => "interface"@,
        12 => "function"@,
        13 => "variable"@,
        14 => "constant"@,
        15 => "string"@,
        16 => "number"@,
        17 => "boolean"@,
        18 => "array"@,
        19 => "object"@,
        20 => "key"@,
        21 => "null"@,
        22 => "enum_member"@,
        23 => "struct"@,
        24 => "event"@,
        25 => "operator"@,
        26 => "type_parameter"@,
        _ => text::decimal(kind as nat),
    }
}

/// The name of a kind of symbol.
fn symbol_kind_name(kind: u32) -> (r: String)
    ensures
        r@ == kind_name(kind),
{
    let name = match kind {
        1 => "file",
        2 => "module",
        3 => "namespace",
        4 => "package",
        5 => "class",
        6 => "method",
        7 => "property",
        8 => "field",
        9 => "constructor",
        10 => "enum",
        11 => "interface",
        12 => "function",
        13 => "variable",
        14 => "constant",
        15 => "string",
        16 => "number",
        17 => "boolean",
        18 => "array",
        19 => "object",
        20 => "key",
        21 => "null",
        22 => "enum_member",
        23 => "struct",
        24 => "event",
        25 => "operator",
        26 => "type_parameter",
        _ => {
            return text::decimal_text(kind as u64);
        },
    };
    name.to_owned()
}

/// A text of small letters and underscores.
pub open spec fn is_word(name: Seq<char>) -> bool {
    name.len() > 0 && forall|i: int|
        0 <= i < name.len() ==> #[trigger] name[i] == '_' || ('a' <= name[i] && name[i] <= 'z')
}

/// The kind that a name belongs to, told by its length and a letter or two.
spec fn kind_named(s: Seq<char>) -> int {
    if s.len() == 3 {
        20
    } else if s.len() == 4 {
        if s[0] == 'f' {
            1
        } else if s[0] == 'e' {
            10
        } else {
            21
        }
    } else if s.len() == 5 {
        if s[0] == 'c' {
            5
        } else if s[0] == 'f' {
            8
        } else if s[0] == 'a' {
            18
        } else {
            24
        }
    } else if s.len() == 6 {
        if s[1] == 'o' {
            2
        } else if s[1] == 'e' {
            6
        } else if s[1] == 't' {
            if s[3] == 'i' {
                15
            } else {
                23
            }
        } else if s[1] == 'u' {
            16
        } else {
            19
        }
    } else if s.len() == 7 {
        if s[0] == 'p' {
            4
        } else {
            17
        }
    } else if s.len() == 8 {
        if s[0] == 'p' {
            7
        } else if s[0] == 'f' {
            12
        } else if s[0] == 'v' {
            13
        } else if s[0] == 'c' {
            14
        } else {
            25
        }
    } else if s.len() == 9 {
        if s[0] == 'n' {
            3
        } else {
            11
        }
    } else if s.len() == 11 {
        if s[0] == 'c' {
            9
        } else {
            22
        }
    } else if s.len() == 14 {
        26
    } else {
        0
    }
}

/// A kind that has a name is found again by it.
proof fn names_are_words(kind: u32)
    requires
        1 <= kind <= 26,
    ensures
        is_word(kind_name(kind)),
        kind_named(kind_name(kind)) == kind,
{
    if kind == 1 {
        reveal_strlit("file");
        assert("file"@ =~= seq!['f', 'i', 'l', 'e']);
    }
    if kind == 2 {
        reveal_strlit("module");
        assert("module"@ =~= seq!['m', 'o', 'd', 'u', 'l', 'e']);
    }
    if kind == 3 {
        reveal_strlit("namespace");
        assert("namespace"@ =~= seq!['n', 'a', 'm', 'e', 's', 'p', 'a', 'c', 'e']);
    }
    if kind == 4 {
        reveal_strlit("package");
        assert("package"@ =~= seq!['p', 'a', 'c', 'k', 'a', 'g', 'e']);
    }
    if kind == 5 {
        reveal_strlit("class");
        assert("class"@ =~= seq!['c', 'l', 'a', 's', 's']);
    }
    if kind == 6 {
        reveal_strlit("method");
        assert("method"@ =~= seq!['m', 'e', 't', 'h', 'o', 'd']);
    }
    if kind == 7 {
        reveal_strlit("property");
        assert("property"@ =~= seq!['p', 'r', 'o', 'p', 'e', 'r', 't', 'y']);
    }
    if kind == 8 {
        reveal_strlit("field");
        assert("field"@ =~= seq!['f', 'i', 'e', 'l', 'd']);
    }
    if kind == 9 {
        reveal_strlit("constructor");
        assert("constructor"@ =~= seq!['c', 'o', 'n', 's', 't', 'r', 'u', 'c', 't', 'o', 'r']);
    }
    if kind == 10 {
        reveal_strlit("enum");
        assert("enum"@ =~= seq!['e', 'n', 'u', 'm']);
    }
    if kind == 11 {
        reveal_strlit("interface");
        assert("interface"@ =~= seq!['i', 'n', 't', 'e', 'r', 'f', 'a', 'c', 'e']);
    }
    if kind == 12 {
        reveal_strlit("function");
        assert("function"@ =~= seq!['f', 'u', 'n', 'c', 't', 'i', 'o', 'n']);
    }
    if kind == 13 {
        reveal_strlit("variable");
        assert("variable"@ =~= seq!['v', 'a', 'r', 'i', 'a', 'b', 'l', 'e']);
    }
    if kind == 14 {
        reveal_strlit("constant");
        assert("constant"@ =~= seq!['c', 'o', 'n', 's', 't', 'a', 'n', 't']);
    }
    if kind == 15 {
        reveal_strlit("string");
        assert("string"@ =~= seq!['s', 't', 'r', 'i', 'n', 'g']);
    }
    if kind == 16 {
        reveal_strlit("number");
        assert("number"@ =~= seq!['n', 'u', 'm', 'b', 'e', 'r']);
    }
    if kind == 17 {
        reveal_strlit("boolean");
        assert("boolean"@ =~= seq!['b', 'o', 'o', 'l', 'e', 'a', 'n']);
    }
    if kind == 18 {
        reveal_strlit("array");
        assert("array"@ =~= seq!['a', 'r', 'r', 'a', 'y']);
    }
    if kind == 19 {
        reveal_strlit("object");
        assert("object"@ =~= seq!['o', 'b', 'j', 'e', 'c', 't']);
    }
    if kind == 20 {
        reveal_strlit("key");
        assert("key"@ =~= seq!['k', 'e', 'y']);
    }
    if kind == 21 {
        reveal_strlit("null");
        assert("null"@ =~= seq!['n', 'u', 'l', 'l']);
    }
    if kind == 22 {
        reveal_strlit("enum_member");
        assert("enum_member"@ =~= seq!['e', 'n', 'u', 'm', '_', 'm', 'e', 'm', 'b', 'e', 'r']);
    }
    if kind == 23 {
        reveal_strlit("struct");
        assert("struct"@ =~= seq!['s', 't', 'r', 'u', 'c', 't']);
    }
    if kind == 24 {
        reveal_strlit("event");
        assert("event"@ =~= seq!['e', 'v', 'e', 'n', 't']);
    }
    if kind == 25 {
        reveal_strlit("operator");
        assert("operator"@ =~= seq!['o', 'p', 'e', 'r', 'a', 't', 'o', 'r']);
    }
    if kind == 26 {
        reveal_strlit("type_parameter");
        assert("type_parameter"@ =~= seq!['t', 'y', 'p', 'e', '_', 'p', 'a', 'r', 'a', 'm', 'e', 't', 'e', 'r']);
    }
}

/// Every kind of symbol has a name of its own: a word for those that are known,
/// the number for any other.
pub proof fn kinds_have_names_of_their_own(a: u32, b: u32)
    ensures
        1 <= a <= 26 ==> is_word(kind_name(a)),
        !(1 <= a <= 26) ==> kind_name(a) == text::decimal(a as nat),
        a != b ==> kind_name(a) != kind_name(b),
{
    if 1 <= a <= 26 {
        names_are_words(a);
    } else {
        text::decimal_has_digits(a as nat);
    }
    if 1 <= b <= 26 {
        names_are_words(b);
    } else {
        text::decimal_has_digits(b as nat);
    }
    if a != b && !(1 <= a <= 26) && !(1 <= b <= 26) {
        text::decimals_differ(a as nat, b as nat);
    }
    if 1 <= a <= 26 && !(1 <= b <= 26) {
        assert(kind_name(b)[0] <= '9');
        assert(kind_name(a)[0] >= '_');
    }
    if 1 <= b <= 26 && !(1 <= a <= 26) {
        assert(kind_name(a)[0] <= '9');
        assert(kind_name(b)[0] >= '_');
    }
}

/// A field that is there only where it has a value.
pub open spec fn with_text(
    m: Map<Seq<char>, JsonView>,
    key: Seq<char>,
    value: Option<Seq<char>>,
) -> Map<Seq<char>, JsonView> {
    match value {
        Some(t) => m.insert(key, JsonView::Text(t)),
        None => m,
    }
}

/// Adds a field where it has a value.
fn add_text(o: Object, key: &str, value: Option<String>) -> (r: Object)
    ensures
        r@ == with_text(o@, key@, view::maybe(value)),
{
    match value {
        Some(t) => o.with(key, Json::Text(t)),
        None => o,
    }
}

/// Whether a value can be a symbol of a file: with its declaration's range and
/// its own parts, or flat, with a place and the name of what it is in.
pub open spec fn symbol_valid(j: JsonView) -> bool
    decreases j,
{
    &&& wire::structure(j, 8)
    &&& wire::text_of(wire::field(j, "name"@, 0)) is Some
    &&& wire::number_of(wire::field(j, "kind"@, 1)) is Some
    &&& wire::maybe_text(wire::field(j, "detail"@, 2)) is Some
    &&& wire::maybe_range(wire::field(j, "range"@, 3)) is Some
    &&& wire::maybe_range(wire::field(j, "selectionRange"@, 4)) is Some
    &&& match wire::field(j, "children"@, 5) {
        None => true,
        Some(JsonView::Null) => true,
        Some(JsonView::List(s)) => all_symbols(s),
        _ => false,
    }
    &&& wire::absent(wire::field(j, "location"@, 6)) || wire::location_of(
        wire::field(j, "location"@, 6)->Some_0,
    ) is Some
    &&& wire::maybe_text(wire::field(j, "containerName"@, 7)) is Some
}

/// The range of a symbol's declaration: its own, or that of its place.
pub open spec fn declared_range(j: JsonView) -> Option<Range> {
    match wire::maybe_range(wire::field(j, "range"@, 3))->Some_0 {
        Some(range) => Some(range),
        None => if wire::absent(wire::field(j, "location"@, 6)) {
            None
        } else {
            Some(wire::location_of(wire::field(j, "location"@, 6)->Some_0)->Some_0.range)
        },
    }
}

/// The range of a symbol's name; its declaration where the name has none.
pub open spec fn name_range(j: JsonView, declared: Range) -> Range {
    match wire::maybe_range(wire::field(j, "selectionRange"@, 4))->Some_0 {
        Some(range) => range,
        None => declared,
    }
}

/// The range that a symbol is quoted by: that of its name, or where its
/// declaration starts. The declaration itself would bring its body along.
pub open spec fn quoted_range(j: JsonView, declared: Range) -> Range {
    match wire::maybe_range(wire::field(j, "selectionRange"@, 4))->Some_0 {
        Some(range) => range,
        None => Range { start: declared.start, end: declared.start },
    }
}

/// The fields of a symbol of a file, but for its parts. It is found by its
/// name; the extent of its declaration is given in lines.
pub open spec fn symbol_fields(j: JsonView, declared: Range) -> Map<Seq<char>, JsonView> {
    let name = name_range(j, declared);
    with_text(
        with_text(
            map![
                "name"@ => JsonView::Text(wire::text_of(wire::field(j, "name"@, 0))->Some_0),
                "kind"@ => JsonView::Text(
                    kind_name(wire::number_of(wire::field(j, "kind"@, 1))->Some_0),
                ),
                "start_line"@ => json::num(name.start.line as int),
                "start_character"@ => json::num(name.start.character as int),
                "end_line"@ => json::num(name.end.line as int),
                "end_character"@ => json::num(name.end.character as int),
                "body_start_line"@ => json::num(declared.start.line as int),
                "body_end_line"@ => json::num(declared.end.line as int)
            ],
            "detail"@,
            wire::maybe_text(wire::field(j, "detail"@, 2))->Some_0,
        ),
        "container_name"@,
        wire::maybe_text(wire::field(j, "containerName"@, 7))->Some_0,
    )
}

/// The entry for a symbol of a file, with its parts under it. One without a
/// range has none.
pub open spec fn outline_entry_of(j: JsonView, s: SourceView, uri: Seq<char>) -> Option<JsonView>
    decreases j,
{
    match declared_range(j) {
        None => None,
        Some(declared) => {
            let children = match wire::field(j, "children"@, 5) {
                Some(JsonView::List(items)) => view::kept(outline_entries(items, s, uri)),
                _ => Seq::empty(),
            };
            Some(
                JsonView::Object(
                    source::annotated(
                        symbol_fields(j, declared),
                        s.content(uri),
                        quoted_range(j, declared),
                        s.context_lines,
                    ).insert("children"@, JsonView::List(children)),
                ),
            )
        },
    }
}

/// The entries for a list of symbols of a file.
pub open spec fn outline_entries(
    items: Seq<JsonView>,
    s: SourceView,
    uri: Seq<char>,
) -> Seq<Option<JsonView>>
    decreases items,
{
    Seq::new(
        items.len(),
        |i: int|
            if 0 <= i < items.len() {
                outline_entry_of(items[i], s, uri)
            } else {
                None
            },
    )
}

/// Whether every value is a symbol of a file.
pub open spec fn all_symbols(items: Seq<JsonView>) -> bool
    decreases items,
{
    forall|i: int| 0 <= i < items.len() ==> symbol_valid(#[trigger] items[i])
}

/// The entry for a symbol of a file.
fn outline_entry(item: &Json, source: &Source, uri: &str) -> (r: Result<Option<Json>, Malformed>)
    ensures
        match r {
            Ok(entry) => symbol_valid(item@) && view::maybe(entry) == outline_entry_of(
                item@,
                source@,
                uri@,
            ),
            Err(_) => !symbol_valid(item@),
        },
    decreases item,
{
    if !wire::is_structure(item, 8) {
        return Err(Malformed);
    }
    let at = wire::get_field(item, "location", 6);
    let place = if wire::is_absent(at) {
        None
    } else {
        match at {
            Some(at) => match wire::get_location(at) {
                Some(at) => Some(at.range),
                None => {
                    return Err(Malformed);
                },
            },
            None => None,
        }
    };
    let nested = wire::get_field(item, "children", 5);
    let children = match nested {
        None => json::no_values(),
        Some(Json::Null) => json::no_values(),
        Some(Json::List(items)) => {
            assert(decreases_to!(nested->Some_0 => items));
            match outline_list(items, source, uri) {
                Some(children) => children,
                None => {
                    return Err(Malformed);
                },
            }
        },
        _ => {
            return Err(Malformed);
        },
    };
    match (
        wire::get_text(wire::get_field(item, "name", 0)),
        wire::get_number(wire::get_field(item, "kind", 1)),
        wire::get_maybe_text(wire::get_field(item, "detail", 2)),
        wire::get_maybe_range(wire::get_field(item, "range", 3)),
        wire::get_maybe_range(wire::get_field(item, "selectionRange", 4)),
        wire::get_maybe_text(wire::get_field(item, "containerName", 7)),
    ) {
        (Some(name), Some(kind), Some(detail), Some(range), Some(selection), Some(container)) => {
            let declared = match range {
                Some(range) => range,
                None => match place {
                    Some(range) => range,
                    None => {
                        return Ok(None);
                    },
                },
            };
            let (named, quoted) = match selection {
                Some(range) => (range, range),
                None => (declared, Range { start: declared.start, end: declared.start }),
            };
            let entry = Object::new().with("name", Json::Text(name)).with(
                "kind",
                Json::Text(symbol_kind_name(kind)),
            ).with("start_line", Json::number(named.start.line as u64)).with(
                "start_character",
                Json::number(named.start.character as u64),
            ).with("end_line", Json::number(named.end.line as u64)).with(
                "end_character",
                Json::number(named.end.character as u64),
            ).with("body_start_line", Json::number(declared.start.line as u64)).with(
                "body_end_line",
                Json::number(declared.end.line as u64),
            );
            let entry = add_text(entry, "detail", detail);
            let entry = add_text(entry, "container_name", container);
            assert(entry@ == symbol_fields(item@, declared));
            let entry = source.annotate(entry, uri, &quoted);
            Ok(Some(Json::Object(entry.with("children", Json::List(children)))))
        },
        _ => Err(Malformed),
    }
}

/// The entries for a list of symbols of a file.
fn outline_list(items: &Vec<Json>, source: &Source, uri: &str) -> (r: Option<Vec<Json>>)
    ensures
        match r {
            Some(out) => all_symbols(json::list_view(items@)) && json::list_view(out@)
                == view::kept(outline_entries(json::list_view(items@), source@, uri@)),
            None => !all_symbols(json::list_view(items@)),
        },
    decreases items,
{
    let ghost all = json::list_view(items@);
    let ghost entries = outline_entries(all, source@, uri@);
    let mut out = json::no_values();
    let mut i: usize = 0;
    while i < items.len()
        invariant
            i <= items@.len(),
            all == json::list_view(items@),
            entries == outline_entries(all, source@, uri@),
            forall|k: int| 0 <= k < i ==> symbol_valid(#[trigger] all[k]),
            json::list_view(out@) == view::kept(entries.take(i as int)),
        decreases items@.len() - i,
    {
        assert(all[i as int] == items@[i as int]@);
        proof {
            view::kept_step(entries, i as int);
        }
        match outline_entry(&items[i], source, uri) {
            Ok(Some(entry)) => {
                out = json::listed(out, entry);
            },
            Ok(None) => {},
            Err(_) => {
                return None;
            },
        }
        i += 1;
    }
    assert(entries.take(all.len() as int) =~= entries);
    Some(out)
}

/// What the symbols of a file are reported as. Only the outermost are counted.
pub open spec fn outline_result(value: JsonView, s: SourceView, uri: Seq<char>) -> Option<
    JsonView,
> {
    match value {
        JsonView::Null => Some(counted("symbols"@, Seq::empty())),
        JsonView::List(items) => if all_symbols(items) {
            Some(counted("symbols"@, view::kept(outline_entries(items, s, uri))))
        } else {
            None
        },
        _ => None,
    }
}

/// Reports the symbols of a file, nested as they are in it, each with the line
/// that declares it.
pub fn document_symbols_to_query(value: &Json, source: &Source, uri: &str) -> (r: Result<
    Json,
    Malformed,
>)
    ensures
        match r {
            Ok(out) => outline_result(value@, source@, uri@) == Some(out@),
            Err(_) => outline_result(value@, source@, uri@) is None,
        },
        crate::laws::symbols::outlines_answered(value@, view::gained(r)),
{
    proof {
        crate::laws::symbols::outlines_are_answered(value@, source@, uri@);
    }
    if value.is_null() {
        return Ok(count_items("symbols", json::no_values()));
    }
    match value.as_array() {
        Some(items) => match outline_list(items, source, uri) {
            Some(out) => Ok(count_items("symbols", out)),
            None => Err(Malformed),
        },
        None => Err(Malformed),
    }
}

// ---------------------------------------------------------------------------
// Call hierarchies
// ---------------------------------------------------------------------------

/// The entry for a server's handle on a declaration: what there is to read,
/// and the handle itself as the server gave it. The server wants it back
/// unchanged, with what it added for its own use.
pub open spec fn call_entry(raw: JsonView, s: SourceView) -> Option<JsonView> {
    match wire::call_item_of(raw) {
        Some(item) => {
            let name = item.selection_range;
            Some(
                JsonView::Object(
                    source::annotated(
                        with_text(
                            map![
                                "name"@ => JsonView::Text(item.name),
                                "kind"@ => JsonView::Text(kind_name(item.kind)),
                                "file"@ => JsonView::Text(s.reported(item.uri)),
                                "start_line"@ => json::num(name.start.line as int),
                                "start_character"@ => json::num(name.start.character as int),
                                "end_line"@ => json::num(name.end.line as int),
                                "end_character"@ => json::num(name.end.character as int),
                                "body_start_line"@ => json::num(item.range.start.line as int),
                                "body_end_line"@ => json::num(item.range.end.line as int),
                                "item"@ => raw
                            ],
                            "detail"@,
                            item.detail,
                        ),
                        s.content(item.uri),
                        name,
                        s.context_lines,
                    ),
                ),
            )
        },
        None => None,
    }
}

/// The entry for a server's handle on a declaration.
fn call_item(raw: &Json, source: &Source) -> (r: Option<Json>)
    ensures
        view::maybe(r) == call_entry(raw@, source@),
{
    let item = match wire::get_call_item(raw) {
        Some(item) => item,
        None => {
            return None;
        },
    };
    let name = item.selection_range;
    let entry = Object::new().with("name", Json::Text(item.name)).with(
        "kind",
        Json::Text(symbol_kind_name(item.kind)),
    ).with("file", Json::Text(source.rel(item.uri.as_str()))).with(
        "start_line",
        Json::number(name.start.line as u64),
    ).with("start_character", Json::number(name.start.character as u64)).with(
        "end_line",
        Json::number(name.end.line as u64),
    ).with("end_character", Json::number(name.end.character as u64)).with(
        "body_start_line",
        Json::number(item.range.start.line as u64),
    ).with("body_end_line", Json::number(item.range.end.line as u64)).with("item", raw.clone());
    let entry = add_text(entry, "detail", item.detail);
    Some(Json::Object(source.annotate(entry, item.uri.as_str(), &name)))
}

/// The entries for some handles.
pub open spec fn call_entries(items: Seq<JsonView>, s: SourceView) -> Seq<Option<JsonView>> {
    Seq::new(items.len(), |i: int| call_entry(items[i], s))
}

/// What the handles at a position are reported as. One that cannot be read is
/// left out.
pub open spec fn call_items_result(value: JsonView, s: SourceView) -> Option<JsonView> {
    match value {
        JsonView::Null => Some(counted("items"@, Seq::empty())),
        JsonView::List(items) => Some(counted("items"@, view::kept(call_entries(items, s)))),
        _ => None,
    }
}

/// Reports the handles at a position, each with the line that declares it.
pub fn call_hierarchy_items_to_query(value: &Json, source: &Source) -> (r: Result<
    Json,
    Malformed,
>)
    ensures
        match r {
            Ok(out) => call_items_result(value@, source@) == Some(out@),
            Err(_) => call_items_result(value@, source@) is None,
        },
        crate::laws::symbols::handles_answered(value@, source@, view::gained(r)),
{
    proof {
        crate::laws::symbols::handles_are_answered(value@, source@);
    }
    if value.is_null() {
        return Ok(count_items("items", json::no_values()));
    }
    let items = match value.as_array() {
        Some(items) => items,
        None => {
            return Err(Malformed);
        },
    };
    let ghost all = json::list_view(items@);
    let ghost entries = call_entries(all, source@);
    let mut out = json::no_values();
    let mut i: usize = 0;
    while i < items.len()
        invariant
            i <= items@.len(),
            all == json::list_view(items@),
            entries == call_entries(all, source@),
            json::list_view(out@) == view::kept(entries.take(i as int)),
        decreases items@.len() - i,
    {
        assert(all[i as int] == items@[i as int]@);
        proof {
            view::kept_step(entries, i as int);
        }
        if let Some(entry) = call_item(&items[i], source) {
            out = json::listed(out, entry);
        }
        i += 1;
    }
    assert(entries.take(all.len() as int) =~= entries);
    Ok(count_items("items", out))
}

/// The entry for one call site, if it can be read.
pub open spec fn site_entry(j: JsonView, s: SourceView, uri: Seq<char>) -> Option<JsonView> {
    match wire::range_of(j) {
        Some(range) => Some(place_entry(s, LocationView { uri, range })),
        None => None,
    }
}

/// The entries for some call sites in a file.
pub open spec fn site_entries(
    ranges: Seq<JsonView>,
    s: SourceView,
    uri: Seq<char>,
) -> Seq<Option<JsonView>> {
    Seq::new(ranges.len(), |i: int| site_entry(ranges[i], s, uri))
}

/// The call sites in a file, each with the line the call is written on.
fn call_sites(ranges: &Vec<Json>, source: &Source, uri: &str) -> (r: Vec<Json>)
    ensures
        json::list_view(r@) == view::kept(site_entries(json::list_view(ranges@), source@, uri@)),
{
    let ghost all = json::list_view(ranges@);
    let ghost entries = site_entries(all, source@, uri@);
    let mut out = json::no_values();
    let mut i: usize = 0;
    while i < ranges.len()
        invariant
            i <= ranges@.len(),
            all == json::list_view(ranges@),
            entries == site_entries(all, source@, uri@),
            json::list_view(out@) == view::kept(entries.take(i as int)),
        decreases ranges@.len() - i,
    {
        assert(all[i as int] == ranges@[i as int]@);
        proof {
            view::kept_step(entries, i as int);
        }
        if let Some(range) = wire::get_range(&ranges[i]) {
            out = json::listed(out, quote_place(source, uri, &range));
        }
        i += 1;
    }
    assert(entries.take(all.len() as int) =~= entries);
    out
}

/// The file that the sites of a call are in: the one given, or that of the
/// other end of the call.
pub open spec fn sites_uri(other: JsonView, sites_in: Option<Seq<char>>) -> Seq<char> {
    match sites_in {
        Some(uri) => uri,
        None => match other.text_at("uri"@) {
            Some(uri) => uri,
            None => Seq::empty(),
        },
    }
}

/// The entry for a call: its other end, under the name of the direction, and
/// its sites. A call whose other end cannot be read has none.
pub open spec fn call_pair(
    entry: JsonView,
    s: SourceView,
    direction: Seq<char>,
    sites_in: Option<Seq<char>>,
) -> Option<JsonView> {
    match entry.get(direction) {
        None => None,
        Some(other) => match call_entry(other, s) {
            None => None,
            Some(end) => {
                let sites = match entry.items_at("fromRanges"@) {
                    Some(ranges) => view::kept(
                        site_entries(ranges, s, sites_uri(other, sites_in)),
                    ),
                    None => Seq::empty(),
                };
                Some(JsonView::Object(map![direction => end, "ranges"@ => JsonView::List(sites)]))
            },
        },
    }
}

/// The entry for a call.
fn pair_call(entry: &Json, source: &Source, direction: &str, sites_in: Option<&str>) -> (r: Option<
    Json,
>)
    ensures
        view::maybe(r) == call_pair(entry@, source@, direction@, view::maybe(sites_in)),
{
    let other = match entry.get(direction) {
        Some(other) => other,
        None => {
            return None;
        },
    };
    let end = match call_item(other, source) {
        Some(end) => end,
        None => {
            return None;
        },
    };
    let own = other.str_at("uri");
    let at: String = match sites_in {
        Some(uri) => uri.to_owned(),
        None => match own {
            Some(uri) => uri.to_owned(),
            None => {
                let none = String::new();
                assert(none@ =~= Seq::empty());
                none
            },
        },
    };
    let sites = match entry.array_at("fromRanges") {
        Some(ranges) => call_sites(ranges, source, at.as_str()),
        None => json::no_values(),
    };
    Some(Json::Object(Object::new().with(direction, end).with("ranges", Json::List(sites))))
}

/// The entries for some calls.
pub open spec fn call_pairs(
    items: Seq<JsonView>,
    s: SourceView,
    direction: Seq<char>,
    sites_in: Option<Seq<char>>,
) -> Seq<Option<JsonView>> {
    Seq::new(items.len(), |i: int| call_pair(items[i], s, direction, sites_in))
}

/// What a list of calls is reported as.
pub open spec fn calls_result(
    value: JsonView,
    s: SourceView,
    direction: Seq<char>,
    sites_in: Option<Seq<char>>,
) -> Option<JsonView> {
    match value {
        JsonView::Null => Some(counted("calls"@, Seq::empty())),
        JsonView::List(items) => Some(
            counted("calls"@, view::kept(call_pairs(items, s, direction, sites_in))),
        ),
        _ => None,
    }
}

/// Reports a list of calls in one direction.
fn calls_to_query(value: &Json, source: &Source, direction: &str, sites_in: Option<&str>) -> (r:
    Result<Json, Malformed>)
    ensures
        match r {
            Ok(out) => calls_result(value@, source@, direction@, view::maybe(sites_in)) == Some(
                out@,
            ),
            Err(_) => calls_result(value@, source@, direction@, view::maybe(sites_in)) is None,
        },
{
    if value.is_null() {
        return Ok(count_items("calls", json::no_values()));
    }
    let items = match value.as_array() {
        Some(items) => items,
        None => {
            return Err(Malformed);
        },
    };
    let ghost all = json::list_view(items@);
    let ghost entries = call_pairs(all, source@, direction@, view::maybe(sites_in));
    let mut out = json::no_values();
    let mut i: usize = 0;
    while i < items.len()
        invariant
            i <= items@.len(),
            all == json::list_view(items@),
            entries == call_pairs(all, source@, direction@, view::maybe(sites_in)),
            json::list_view(out@) == view::kept(entries.take(i as int)),
        decreases items@.len() - i,
    {
        assert(all[i as int] == items@[i as int]@);
        proof {
            view::kept_step(entries, i as int);
        }
        if let Some(entry) = pair_call(&items[i], source, direction, sites_in) {
            out = json::listed(out, entry);
        }
        i += 1;
    }
    assert(entries.take(all.len() as int) =~= entries);
    Ok(count_items("calls", out))
}

/// Reports the callers of a declaration: each with its handle, so that the walk
/// can go on, and the call sites in its own file.
pub fn incoming_calls_to_query(value: &Json, source: &Source) -> (r: Result<Json, Malformed>)
    ensures
        match r {
            Ok(out) => calls_result(value@, source@, "from"@, None) == Some(out@),
            Err(_) => calls_result(value@, source@, "from"@, None) is None,
        },
        crate::laws::symbols::calls_answered(value@, source@, "from"@, None, view::gained(r)),
{
    proof {
        crate::laws::symbols::calls_are_answered(value@, source@, "from"@, None);
    }
    calls_to_query(value, source, "from", None)
}

/// Reports what a declaration calls: each with its handle, and the call sites,
/// which are in the file of the declaration that was asked about.
pub fn outgoing_calls_to_query(value: &Json, source: &Source, called_from: &str) -> (r: Result<
    Json,
    Malformed,
>)
    ensures
        match r {
            Ok(out) => calls_result(value@, source@, "to"@, Some(called_from@)) == Some(out@),
            Err(_) => calls_result(value@, source@, "to"@, Some(called_from@)) is None,
        },
        crate::laws::symbols::calls_answered(
            value@,
            source@,
            "to"@,
            Some(called_from@),
            view::gained(r),
        ),
{
    proof {
        crate::laws::symbols::calls_are_answered(value@, source@, "to"@, Some(called_from@));
    }
    calls_to_query(value, source, "to", Some(called_from))
}

// ---------------------------------------------------------------------------
// Searches for symbols
// ---------------------------------------------------------------------------

/// The most matches a search reports where it is not told how many.
pub const DEFAULT_SYMBOL_SEARCH_LIMIT: usize = 200;

/// Whether every value is a match.
pub open spec fn all_matches(items: Seq<JsonView>) -> bool {
    forall|i: int| 0 <= i < items.len() ==> wire::symbol_info_of(#[trigger] items[i]) is Some
}

/// A match that has a range.
pub open spec fn ranged_match(j: JsonView) -> Option<wire::SymbolInfoView> {
    match wire::symbol_info_of(j) {
        Some(info) => if info.range is Some {
            Some(info)
        } else {
            None
        },
        None => None,
    }
}

/// The matches that have a range, in order. One without waits to be resolved,
/// which is not done, so it is left out.
pub open spec fn ranged_matches(items: Seq<JsonView>) -> Seq<wire::SymbolInfoView> {
    view::kept(Seq::new(items.len(), |i: int| ranged_match(items[i])))
}

/// The entry for a match.
pub open spec fn match_entry(info: wire::SymbolInfoView, s: SourceView) -> JsonView {
    let range = info.range->Some_0;
    JsonView::Object(
        source::annotated(
            with_text(
                map![
                    "name"@ => JsonView::Text(info.name),
                    "kind"@ => JsonView::Text(kind_name(info.kind)),
                    "file"@ => JsonView::Text(s.reported(info.uri)),
                    "start_line"@ => json::num(range.start.line as int),
                    "start_character"@ => json::num(range.start.character as int),
                    "end_line"@ => json::num(range.end.line as int),
                    "end_character"@ => json::num(range.end.character as int)
                ],
                "container_name"@,
                info.container_name,
            ),
            s.content(info.uri),
            range,
            s.context_lines,
        ),
    )
}

/// What some matches are reported as: their number, and the first of them up to
/// a limit. A list that was cut says so.
pub open spec fn matches_report(
    found: Seq<wire::SymbolInfoView>,
    s: SourceView,
    limit: int,
) -> JsonView {
    let shown = Seq::new(
        source::least(limit, found.len() as int) as nat,
        |i: int| match_entry(found[i], s),
    );
    let report = map![
        "count"@ => json::num(found.len() as int),
        "symbols"@ => JsonView::List(shown)
    ];
    if found.len() > limit {
        JsonView::Object(report.insert("truncated"@, JsonView::Bool(true)))
    } else {
        JsonView::Object(report)
    }
}

/// What a search for symbols is reported as.
pub open spec fn search_result(value: JsonView, s: SourceView, limit: int) -> Option<JsonView> {
    match value {
        JsonView::Null => Some(counted("symbols"@, Seq::empty())),
        JsonView::List(items) => if all_matches(items) {
            Some(matches_report(ranged_matches(items), s, limit))
        } else {
            None
        },
        _ => None,
    }
}

/// The matches that have a range, if every value is a match.
fn collect_matches(items: &Vec<Json>) -> (r: Option<Vec<wire::SymbolInfo>>)
    ensures
        match r {
            Some(found) => all_matches(json::list_view(items@)) && view::each(found@)
                == ranged_matches(json::list_view(items@)),
            None => !all_matches(json::list_view(items@)),
        },
{
    let ghost all = json::list_view(items@);
    let ghost wanted = Seq::new(all.len(), |i: int| ranged_match(all[i]));
    let mut out: Vec<wire::SymbolInfo> = Vec::new();
    let mut i: usize = 0;
    assert(view::each(out@) =~= view::kept(wanted.take(0)));
    while i < items.len()
        invariant
            i <= items@.len(),
            all == json::list_view(items@),
            wanted == Seq::new(all.len(), |i: int| ranged_match(all[i])),
            forall|k: int| 0 <= k < i ==> wire::symbol_info_of(#[trigger] all[k]) is Some,
            view::each(out@) == view::kept(wanted.take(i as int)),
        decreases items@.len() - i,
    {
        assert(all[i as int] == items@[i as int]@);
        proof {
            view::kept_step(wanted, i as int);
        }
        match wire::get_symbol_info(&items[i]) {
            Some(info) => if info.range.is_some() {
                let ghost done = out@;
                let ghost next = info;
                out.push(info);
                assert(view::each(out@) =~= view::each(done).push(next@));
            },
            None => {
                return None;
            },
        }
        i += 1;
    }
    assert(wanted.take(all.len() as int) =~= wanted);
    Some(out)
}

/// The entry for a match.
fn quote_match(info: &wire::SymbolInfo, range: &Range, source: &Source) -> (r: Json)
    requires
        info.range == Some(*range),
    ensures
        r@ == match_entry(info@, source@),
{
    let entry = Object::new().with("name", Json::text(info.name.as_str())).with(
        "kind",
        Json::Text(symbol_kind_name(info.kind)),
    ).with("file", Json::Text(source.rel(info.uri.as_str()))).with(
        "start_line",
        Json::number(range.start.line as u64),
    ).with("start_character", Json::number(range.start.character as u64)).with(
        "end_line",
        Json::number(range.end.line as u64),
    ).with("end_character", Json::number(range.end.character as u64));
    let entry = match &info.container_name {
        Some(t) => entry.with("container_name", Json::text(t.as_str())),
        None => entry,
    };
    Json::Object(source.annotate(entry, info.uri.as_str(), range))
}

/// Reports a search for symbols, each match with the line that declares it. The
/// number of matches is always that of all of them.
pub fn symbols_to_query(value: &Json, source: &Source, limit: usize) -> (r: Result<
    Json,
    Malformed,
>)
    ensures
        match r {
            Ok(out) => search_result(value@, source@, limit as int) == Some(out@),
            Err(_) => search_result(value@, source@, limit as int) is None,
        },
        crate::laws::symbols::searches_answered(
            value@,
            source@,
            limit as int,
            view::gained(r),
        ),
{
    proof {
        crate::laws::symbols::searches_are_answered(value@, source@, limit as int);
    }
    if value.is_null() {
        return Ok(count_items("symbols", json::no_values()));
    }
    let items = match value.as_array() {
        Some(items) => items,
        None => {
            return Err(Malformed);
        },
    };
    let found = match collect_matches(items) {
        Some(found) => found,
        None => {
            return Err(Malformed);
        },
    };
    let ghost all = view::each(found@);
    proof {
        ranged_matches_have_ranges(json::list_view(items@));
    }
    let shown = if limit < found.len() {
        limit
    } else {
        found.len()
    };
    let ghost entries = Seq::new(shown as nat, |i: int| match_entry(all[i], source@));
    let mut out = json::no_values();
    let mut i: usize = 0;
    while i < shown
        invariant
            i <= shown <= found@.len(),
            all == view::each(found@),
            forall|k: int| 0 <= k < all.len() ==> (#[trigger] all[k]).range is Some,
            entries == Seq::new(shown as nat, |i: int| match_entry(all[i], source@)),
            json::list_view(out@) =~= entries.take(i as int),
        decreases shown - i,
    {
        assert(all[i as int] == found@[i as int]@);
        if let Some(range) = &found[i].range {
            out = json::listed(out, quote_match(&found[i], range, source));
            assert(entries.take(i + 1) =~= entries.take(i as int).push(entries[i as int]));
        }
        i += 1;
    }
    assert(entries.take(shown as int) =~= entries);
    let report = Object::new().with("count", Json::number(found.len() as u64)).with(
        "symbols",
        Json::List(out),
    );
    if found.len() > limit {
        Ok(Json::Object(report.with("truncated", Json::Bool(true))))
    } else {
        Ok(Json::Object(report))
    }
}

proof fn kept_of_ranged(s: Seq<Option<wire::SymbolInfoView>>)
    requires
        forall|i: int| 0 <= i < s.len() && (#[trigger] s[i]) is Some ==> s[i]->Some_0.range is Some,
    ensures
        forall|k: int| 0 <= k < view::kept(s).len() ==> (#[trigger] view::kept(s)[k]).range is Some,
        view::kept(s).len() <= s.len(),
    decreases s.len(),
{
    if s.len() > 0 {
        kept_of_ranged(s.drop_last());
    }
}

/// Every match that counts has a range, and there are no more of them than
/// matches that arrived.
pub proof fn ranged_matches_have_ranges(items: Seq<JsonView>)
    ensures
        forall|k: int|
            0 <= k < ranged_matches(items).len() ==> (#[trigger] ranged_matches(
                items,
            )[k]).range is Some,
        ranged_matches(items).len() <= items.len(),
{
    kept_of_ranged(Seq::new(items.len(), |i: int| ranged_match(items[i])));
}

// ---------------------------------------------------------------------------
// Parameters
// ---------------------------------------------------------------------------

/// What the parameter for the lines around a place says of itself.
pub const CONTEXT_LINES_DESCRIPTION: &'static str = "Extra source lines to include on either side of each result location. Each result already carries the line it points at; raise this only when the surrounding lines matter.";

/// The schema of the parameter for the lines around a place.
pub open spec fn context_lines_schema() -> JsonView {
    JsonView::Object(
        map![
            "type"@ => json::txt("integer"),
            "minimum"@ => json::num(0),
            "maximum"@ => json::num(source::MAX_CONTEXT_LINES as int),
            "default"@ => json::num(0),
            "description"@ => json::txt(CONTEXT_LINES_DESCRIPTION)
        ],
    )
}

/// The schema of the parameter for the lines around a place, which every query
/// that reports places takes.
pub fn context_lines_param() -> (r: Json)
    ensures
        r@ == context_lines_schema(),
{
    Json::Object(
        Object::new().with("type", Json::text("integer")).with("minimum", Json::number(0)).with(
            "maximum",
            Json::number(source::MAX_CONTEXT_LINES as u64),
        ).with("default", Json::number(0)).with(
            "description",
            Json::text(CONTEXT_LINES_DESCRIPTION),
        ),
    )
}

/// The URI of the handle that parameters carry.
pub open spec fn item_uri(params: JsonView) -> Option<Seq<char>> {
    match params.get("item"@) {
        Some(item) => item.text_at("uri"@),
        None => None,
    }
}

/// Where a request about a handle belongs: with the language of the handle's
/// file, read from the path of its URI alone.
pub open spec fn item_route(params: JsonView) -> LanguageRouteView {
    match item_uri(params) {
        None => LanguageRouteView::Unspecified,
        Some(u) => match language::language_of(uri::path_of(u.take(uri::path_end(u, 0)))) {
            Some(l) => LanguageRouteView::Language(l),
            None => LanguageRouteView::Unplaceable(u),
        },
    }
}

/// Where a request about a handle belongs. A handle is of one file, and only
/// the server that read that file can tell more of it. Servers have URIs of
/// their own for files outside the working copy, with the file's name in the
/// path and more behind it. A handle that cannot be placed is reported as such.
pub fn call_hierarchy_item_route(params: &Json) -> (r: LanguageRoute)
    ensures
        r@ == item_route(params@),
{
    let item = match params.get("item") {
        Some(item) => item,
        None => {
            return LanguageRoute::Unspecified;
        },
    };
    let u = match item.str_at("uri") {
        Some(u) => u,
        None => {
            return LanguageRoute::Unspecified;
        },
    };
    let only_path = uri::uri_path(u);
    let file = uri::uri_to_path(only_path.as_str());
    match Language::from_path(file.as_str()) {
        Some(l) => LanguageRoute::Language(l),
        None => LanguageRoute::Unplaceable(u.to_owned()),
    }
}

// ---------------------------------------------------------------------------
// Which files a report quotes
// ---------------------------------------------------------------------------

/// The URIs of a list of places.
pub open spec fn location_uris_of(value: JsonView) -> Seq<Seq<char>> {
    match value {
        JsonView::List(items) => if all_places(items) {
            Seq::new(items.len(), |i: int| wire::location_of(items[i])->Some_0.uri)
        } else {
            Seq::empty()
        },
        _ => Seq::empty(),
    }
}

/// The URIs whose text the report of a list of places quotes.
pub fn location_uris(value: &Json) -> (r: Vec<String>)
    ensures
        view::each(r@) == location_uris_of(value@),
{
    let mut out: Vec<String> = Vec::new();
    assert(view::each(out@) =~= Seq::empty());
    let items = match value.as_array() {
        Some(items) => items,
        None => {
            return out;
        },
    };
    let ghost all = json::list_view(items@);
    let mut i: usize = 0;
    while i < items.len()
        invariant
            i <= items@.len(),
            all == json::list_view(items@),
            value@ == JsonView::List(all),
            out@.len() == i,
            forall|k: int|
                0 <= k < i ==> wire::location_of(#[trigger] all[k]) is Some && out@[k]@
                    == wire::location_of(all[k])->Some_0.uri,
        decreases items@.len() - i,
    {
        assert(all[i as int] == items@[i as int]@);
        match wire::get_location(&items[i]) {
            Some(at) => {
                out.push(at.uri);
            },
            None => {
                let none: Vec<String> = Vec::new();
                assert(view::each(none@) =~= Seq::empty());
                return none;
            },
        }
        i += 1;
    }
    assert forall|k: int| 0 <= k < out@.len() implies view::each(out@)[k] == location_uris_of(
        value@,
    )[k] by {
        assert(wire::location_of(all[k]) is Some);
    }
    assert(view::each(out@) =~= location_uris_of(value@));
    out
}

/// Whether two sources report the same paths and hold the same text for some
/// URIs.
pub open spec fn agree_on(a: SourceView, b: SourceView, uris: Seq<Seq<char>>) -> bool {
    &&& a.root == b.root
    &&& a.context_lines == b.context_lines
    &&& forall|i: int| 0 <= i < uris.len() ==> a.content(#[trigger] uris[i]) == b.content(uris[i])
}

/// The report of a list of places depends on the text of its own URIs only.
pub proof fn usages_quote_their_own_files(value: JsonView, a: SourceView, b: SourceView)
    requires
        agree_on(a, b, location_uris_of(value)),
    ensures
        usages(value, a) == usages(value, b),
{
    if let JsonView::List(items) = value {
        if all_places(items) {
            let x = Seq::new(
                items.len(),
                |i: int| place_entry(a, wire::location_of(items[i])->Some_0),
            );
            let y = Seq::new(
                items.len(),
                |i: int| place_entry(b, wire::location_of(items[i])->Some_0),
            );
            assert forall|i: int| 0 <= i < items.len() implies x[i] == y[i] by {
                let u = location_uris_of(value)[i];
                assert(wire::location_of(items[i])->Some_0.uri == u);
                assert(a.content(u) == b.content(u));
            }
            assert(x =~= y);
        }
    }
}

/// The URI one end of an answer to "where is this" points at.
pub open spec fn goto_uri(j: JsonView) -> Option<Seq<char>> {
    match wire::goto_place(j) {
        Some(at) => Some(at.uri),
        None => None,
    }
}

/// The URIs some ends point at.
pub open spec fn end_uris(ends: Seq<JsonView>) -> Seq<Option<Seq<char>>> {
    Seq::new(ends.len(), |i: int| goto_uri(ends[i]))
}

/// The URIs an answer to "where is this" points at.
pub open spec fn goto_uris_of(value: JsonView) -> Seq<Seq<char>> {
    match goto_ends(value) {
        Some(ends) => view::kept(end_uris(ends)),
        None => Seq::empty(),
    }
}

/// The URIs a list of ends points at, if each of them is one.
fn list_end_uris(items: &Vec<Json>) -> (r: Option<Vec<String>>)
    ensures
        match r {
            Some(out) => all_ends(json::list_view(items@)) && view::each(out@) == view::kept(
                end_uris(json::list_view(items@)),
            ),
            None => !all_ends(json::list_view(items@)),
        },
{
    let ghost all = json::list_view(items@);
    let ghost wanted = end_uris(all);
    let mut out: Vec<String> = Vec::new();
    let mut i: usize = 0;
    assert(view::each(out@) =~= view::kept(wanted.take(0)));
    while i < items.len()
        invariant
            i <= items@.len(),
            all == json::list_view(items@),
            wanted == end_uris(all),
            forall|k: int| 0 <= k < i ==> wire::goto_valid(#[trigger] all[k]),
            view::each(out@) == view::kept(wanted.take(i as int)),
        decreases items@.len() - i,
    {
        broadcast use view::each_push;

        assert(all[i as int] == items@[i as int]@);
        proof {
            view::kept_step(wanted, i as int);
        }
        match wire::get_goto(&items[i]) {
            Ok(Some(at)) => {
                out.push(at.uri);
            },
            Ok(None) => {},
            Err(_) => {
                return None;
            },
        }
        i += 1;
    }
    assert(wanted.take(all.len() as int) =~= wanted);
    Some(out)
}

/// The URIs whose text the report of an answer to "where is this" quotes.
pub fn goto_uris(value: &Json) -> (r: Vec<String>)
    ensures
        view::each(r@) == goto_uris_of(value@),
{
    if let Some(items) = value.as_array() {
        if let Some(out) = list_end_uris(items) {
            return out;
        }
    }
    let ghost wanted = end_uris(seq![value@]);
    assert(wanted.take(1) =~= wanted);
    proof {
        view::kept_step(wanted, 0);
    }
    let mut out: Vec<String> = Vec::new();
    assert(view::each(out@) =~= Seq::empty());
    if let Ok(Some(at)) = wire::get_goto(value) {
        let ghost u = at.uri;
        out.push(at.uri);
        assert(view::each(out@) =~= seq![u@]);
        assert(Seq::<Seq<char>>::empty().push(u@) =~= seq![u@]);
    }
    out
}

/// The report of an answer to "where is this" depends on the text of the URIs
/// it points at only.
pub proof fn goto_quotes_its_own_files(
    value: JsonView,
    a: SourceView,
    b: SourceView,
    key: Seq<char>,
)
    requires
        agree_on(a, b, goto_uris_of(value)),
    ensures
        goto_result(value, a, key) == goto_result(value, b, key),
{
    if let Some(ends) = goto_ends(value) {
        let x = goto_entries(ends, a);
        let y = goto_entries(ends, b);
        assert forall|i: int| 0 <= i < ends.len() implies x[i] == y[i] by {
            if wire::goto_place(ends[i]) is Some {
                let u = end_uris(ends)[i]->Some_0;
                view::kept_contains(end_uris(ends), i);
                let k = choose|k: int|
                    0 <= k < goto_uris_of(value).len() && goto_uris_of(value)[k] == u;
                assert(a.content(goto_uris_of(value)[k]) == b.content(u));
            }
        }
        assert(x =~= y);
    }
}

/// The URI of a handle that can be read.
pub open spec fn handle_uri(raw: JsonView) -> Option<Seq<char>> {
    match wire::call_item_of(raw) {
        Some(item) => Some(item.uri),
        None => None,
    }
}

/// The URIs of some handles.
pub open spec fn handle_uris(items: Seq<JsonView>) -> Seq<Option<Seq<char>>> {
    Seq::new(items.len(), |i: int| handle_uri(items[i]))
}

/// The URIs of a list of handles.
pub open spec fn call_item_uris_of(value: JsonView) -> Seq<Seq<char>> {
    match value {
        JsonView::List(items) => view::kept(handle_uris(items)),
        _ => Seq::empty(),
    }
}

/// The URIs whose text the report of a list of handles quotes.
pub fn call_item_uris(value: &Json) -> (r: Vec<String>)
    ensures
        view::each(r@) == call_item_uris_of(value@),
{
    let mut out: Vec<String> = Vec::new();
    assert(view::each(out@) =~= Seq::empty());
    let items = match value.as_array() {
        Some(items) => items,
        None => {
            return out;
        },
    };
    let ghost all = json::list_view(items@);
    let ghost wanted = handle_uris(all);
    let mut i: usize = 0;
    assert(view::each(out@) =~= view::kept(wanted.take(0)));
    while i < items.len()
        invariant
            i <= items@.len(),
            all == json::list_view(items@),
            wanted == handle_uris(all),
            view::each(out@) == view::kept(wanted.take(i as int)),
        decreases items@.len() - i,
    {
        broadcast use view::each_push;

        assert(all[i as int] == items@[i as int]@);
        proof {
            view::kept_step(wanted, i as int);
        }
        if let Some(item) = wire::get_call_item(&items[i]) {
            out.push(item.uri);
        }
        i += 1;
    }
    assert(wanted.take(all.len() as int) =~= wanted);
    out
}

/// The report of a list of handles depends on the text of their own files only.
pub proof fn call_items_quote_their_own_files(value: JsonView, a: SourceView, b: SourceView)
    requires
        agree_on(a, b, call_item_uris_of(value)),
    ensures
        call_items_result(value, a) == call_items_result(value, b),
{
    if let JsonView::List(items) = value {
        let x = call_entries(items, a);
        let y = call_entries(items, b);
        assert forall|i: int| 0 <= i < items.len() implies x[i] == y[i] by {
            if wire::call_item_of(items[i]) is Some {
                let u = handle_uris(items)[i]->Some_0;
                view::kept_contains(handle_uris(items), i);
                let k = choose|k: int|
                    0 <= k < call_item_uris_of(value).len() && call_item_uris_of(value)[k] == u;
                assert(a.content(call_item_uris_of(value)[k]) == b.content(u));
            }
        }
        assert(x =~= y);
    }
}

/// The URIs a call is quoted from: that of its other end, and that of its
/// sites.
pub open spec fn pair_uris(
    entry: JsonView,
    direction: Seq<char>,
    sites_in: Option<Seq<char>>,
) -> Option<(Seq<char>, Seq<char>)> {
    match entry.get(direction) {
        Some(other) => match wire::call_item_of(other) {
            Some(item) => Some((item.uri, sites_uri(other, sites_in))),
            None => None,
        },
        None => None,
    }
}

/// The URIs a list of calls is quoted from, call by call.
pub open spec fn call_uris_of(
    value: JsonView,
    direction: Seq<char>,
    sites_in: Option<Seq<char>>,
) -> Seq<Seq<char>> {
    match value {
        JsonView::List(items) => call_uris_upto(items, direction, sites_in, items.len() as int),
        _ => Seq::empty(),
    }
}

/// The URIs the first `n` calls are quoted from.
pub open spec fn call_uris_upto(
    items: Seq<JsonView>,
    direction: Seq<char>,
    sites_in: Option<Seq<char>>,
    n: int,
) -> Seq<Seq<char>>
    decreases n,
{
    if n <= 0 {
        Seq::empty()
    } else {
        let before = call_uris_upto(items, direction, sites_in, n - 1);
        match pair_uris(items[n - 1], direction, sites_in) {
            Some((end, sites)) => before.push(end).push(sites),
            None => before,
        }
    }
}

/// The URIs whose text the report of a list of calls quotes.
pub fn call_uris(value: &Json, direction: &str, sites_in: Option<&str>) -> (r: Vec<String>)
    ensures
        view::each(r@) == call_uris_of(value@, direction@, view::maybe(sites_in)),
{
    let mut out: Vec<String> = Vec::new();
    assert(view::each(out@) =~= Seq::empty());
    let items = match value.as_array() {
        Some(items) => items,
        None => {
            return out;
        },
    };
    let ghost all = json::list_view(items@);
    let mut i: usize = 0;
    while i < items.len()
        invariant
            i <= items@.len(),
            all == json::list_view(items@),
            view::each(out@) == call_uris_upto(
                all,
                direction@,
                view::maybe(sites_in),
                i as int,
            ),
        decreases items@.len() - i,
    {
        broadcast use view::each_push;

        assert(all[i as int] == items@[i as int]@);
        if let Some(other) = items[i].get(direction) {
            if let Some(item) = wire::get_call_item(other) {
                let own = other.str_at("uri");
                let at: String = match sites_in {
                    Some(u) => u.to_owned(),
                    None => match own {
                        Some(u) => u.to_owned(),
                        None => {
                            let none = String::new();
                            assert(none@ =~= Seq::empty());
                            none
                        },
                    },
                };
                out.push(item.uri);
                out.push(at);
            }
        }
        i += 1;
    }
    out
}

proof fn call_uris_hold_pair(
    items: Seq<JsonView>,
    direction: Seq<char>,
    sites_in: Option<Seq<char>>,
    n: int,
    i: int,
)
    requires
        0 <= i < n <= items.len(),
        pair_uris(items[i], direction, sites_in) is Some,
    ensures
        call_uris_upto(items, direction, sites_in, n).contains(
            pair_uris(items[i], direction, sites_in)->Some_0.0,
        ),
        call_uris_upto(items, direction, sites_in, n).contains(
            pair_uris(items[i], direction, sites_in)->Some_0.1,
        ),
    decreases n,
{
    let all = call_uris_upto(items, direction, sites_in, n);
    let (end, sites) = pair_uris(items[i], direction, sites_in)->Some_0;
    if i == n - 1 {
        assert(all[all.len() - 2] == end);
        assert(all[all.len() - 1] == sites);
    } else {
        let before = call_uris_upto(items, direction, sites_in, n - 1);
        call_uris_hold_pair(items, direction, sites_in, n - 1, i);
        let j = choose|j: int| 0 <= j < before.len() && before[j] == end;
        let k = choose|k: int| 0 <= k < before.len() && before[k] == sites;
        assert(all[j] == end);
        assert(all[k] == sites);
    }
}

/// The report of a list of calls depends on the text of the files of their
/// other ends and of their sites only.
pub proof fn calls_quote_their_own_files(
    value: JsonView,
    a: SourceView,
    b: SourceView,
    direction: Seq<char>,
    sites_in: Option<Seq<char>>,
)
    requires
        agree_on(a, b, call_uris_of(value, direction, sites_in)),
    ensures
        calls_result(value, a, direction, sites_in) == calls_result(value, b, direction, sites_in),
{
    if let JsonView::List(items) = value {
        let x = call_pairs(items, a, direction, sites_in);
        let y = call_pairs(items, b, direction, sites_in);
        let uris = call_uris_of(value, direction, sites_in);
        assert forall|i: int| 0 <= i < items.len() implies x[i] == y[i] by {
            let entry = items[i];
            if pair_uris(entry, direction, sites_in) is Some {
                let (end, sites) = pair_uris(entry, direction, sites_in)->Some_0;
                call_uris_hold_pair(items, direction, sites_in, items.len() as int, i);
                let j = choose|j: int| 0 <= j < uris.len() && uris[j] == end;
                let k = choose|k: int| 0 <= k < uris.len() && uris[k] == sites;
                assert(a.content(uris[j]) == b.content(uris[j]));
                assert(a.content(uris[k]) == b.content(uris[k]));
                if let Some(ranges) = entry.items_at("fromRanges"@) {
                    assert(site_entries(ranges, a, sites) =~= site_entries(ranges, b, sites));
                }
            }
        }
        assert(x =~= y);
    }
}

/// The URIs of the first matches of a search, up to a limit.
pub open spec fn match_uris_of(value: JsonView, limit: int) -> Seq<Seq<char>> {
    match value {
        JsonView::List(items) => if all_matches(items) {
            let found = ranged_matches(items);
            Seq::new(source::least(limit, found.len() as int) as nat, |i: int| found[i].uri)
        } else {
            Seq::empty()
        },
        _ => Seq::empty(),
    }
}

/// The URIs whose text the report of a search for symbols quotes. Matches past
/// the limit are not reported, so theirs are not among them.
pub fn match_uris(value: &Json, limit: usize) -> (r: Vec<String>)
    ensures
        view::each(r@) == match_uris_of(value@, limit as int),
{
    let mut out: Vec<String> = Vec::new();
    assert(view::each(out@) =~= Seq::empty());
    let items = match value.as_array() {
        Some(items) => items,
        None => {
            return out;
        },
    };
    let found = match collect_matches(items) {
        Some(found) => found,
        None => {
            return out;
        },
    };
    let ghost all = view::each(found@);
    let shown = if limit < found.len() {
        limit
    } else {
        found.len()
    };
    let mut i: usize = 0;
    while i < shown
        invariant
            i <= shown <= found@.len(),
            all == view::each(found@),
            out@.len() == i,
            forall|k: int| 0 <= k < i ==> (#[trigger] out@[k])@ == all[k].uri,
        decreases shown - i,
    {
        out.push(found[i].uri.clone());
        i += 1;
    }
    assert(view::each(out@) =~= match_uris_of(value@, limit as int));
    out
}

/// The report of a search for symbols depends on the text of the files of the
/// matches it shows only.
pub proof fn search_quotes_its_own_files(
    value: JsonView,
    a: SourceView,
    b: SourceView,
    limit: int,
)
    requires
        0 <= limit,
        agree_on(a, b, match_uris_of(value, limit)),
    ensures
        search_result(value, a, limit) == search_result(value, b, limit),
{
    if let JsonView::List(items) = value {
        if all_matches(items) {
            let found = ranged_matches(items);
            let n = source::least(limit, found.len() as int) as nat;
            let x = Seq::new(n, |i: int| match_entry(found[i], a));
            let y = Seq::new(n, |i: int| match_entry(found[i], b));
            assert forall|i: int| 0 <= i < n implies x[i] == y[i] by {
                let u = match_uris_of(value, limit)[i];
                assert(u == found[i].uri);
                assert(a.content(u) == b.content(u));
            }
            assert(x =~= y);
        }
    }
}

/// A symbol whose name has no range is quoted by the line its declaration
/// starts on, never by the body.
pub proof fn bodies_are_not_quoted(j: JsonView, s: SourceView, uri: Seq<char>)
    requires
        symbol_valid(j),
        wire::absent(wire::field(j, "selectionRange"@, 4)),
        declared_range(j) is Some,
        s.content(uri) is Some,
        declared_range(j)->Some_0.start.line < text::lines_of(s.content(uri)->Some_0).len(),
    ensures
        ({
            let lines = text::lines_of(s.content(uri)->Some_0);
            let first = declared_range(j)->Some_0.start.line as int;
            &&& outline_entry_of(j, s, uri) is Some
            &&& outline_entry_of(j, s, uri)->Some_0.text_at("text"@) == Some(
                source::quoted(lines, first, first),
            )
        }),
{
    reveal_strlit("text");
    reveal_strlit("context");
    reveal_strlit("context_start_line");
    reveal_strlit("children");
    assert("text"@.len() == 4);
    assert("context"@.len() == 7);
    assert("context_start_line"@.len() == 18);
    assert("children"@.len() == 8);
}

/// The outline of a file depends on the text of that file only.
pub proof fn outline_quotes_its_own_file(
    value: JsonView,
    a: SourceView,
    b: SourceView,
    uri: Seq<char>,
)
    requires
        agree_on(a, b, seq![uri]),
    ensures
        outline_result(value, a, uri) == outline_result(value, b, uri),
{
    assert(a.content(seq![uri][0]) == b.content(uri));
    if let JsonView::List(items) = value {
        outline_entries_quote_one_file(items, a, b, uri);
    }
}

proof fn outline_entries_quote_one_file(
    items: Seq<JsonView>,
    a: SourceView,
    b: SourceView,
    uri: Seq<char>,
)
    requires
        a.content(uri) == b.content(uri),
        a.context_lines == b.context_lines,
    ensures
        outline_entries(items, a, uri) == outline_entries(items, b, uri),
    decreases items,
{
    let x = outline_entries(items, a, uri);
    let y = outline_entries(items, b, uri);
    assert forall|i: int| 0 <= i < items.len() implies x[i] == y[i] by {
        outline_entry_quotes_one_file(items[i], a, b, uri);
    }
    assert(x =~= y);
}

proof fn outline_entry_quotes_one_file(
    j: JsonView,
    a: SourceView,
    b: SourceView,
    uri: Seq<char>,
)
    requires
        a.content(uri) == b.content(uri),
        a.context_lines == b.context_lines,
    ensures
        outline_entry_of(j, a, uri) == outline_entry_of(j, b, uri),
    decreases j,
{
    if let Some(JsonView::List(items)) = wire::field(j, "children"@, 5) {
        outline_entries_quote_one_file(items, a, b, uri);
    }
}

/// A search tells how many matches there were in all, shows no more than the
/// limit, and says so where it shows fewer than there were.
pub proof fn searches_say_what_they_leave_out(items: Seq<JsonView>, s: SourceView, limit: int)
    requires
        all_matches(items),
        0 <= limit,
        ranged_matches(items).len() <= u64::MAX,
    ensures
        ({
            let told = search_result(JsonView::List(items), s, limit)->Some_0;
            let found = ranged_matches(items).len();
            &&& search_result(JsonView::List(items), s, limit) is Some
            &&& told.count_at("count"@) == Some(found as u64)
            &&& told.items_at("symbols"@) is Some
            &&& told.items_at("symbols"@)->Some_0.len() == source::least(limit, found as int)
            &&& told.flag_at("truncated"@) == (if found > limit {
                Some(true)
            } else {
                None
            })
        }),
{
    reveal_strlit("count");
    reveal_strlit("symbols");
    reveal_strlit("truncated");
    assert("count"@.len() == 5);
    assert("symbols"@.len() == 7);
    assert("truncated"@.len() == 9);
}

/// Where a server found nothing, that is an answer: none of what was asked for.
pub proof fn nothing_found_is_an_answer(s: SourceView, key: Seq<char>, limit: int)
    ensures
        usages(JsonView::Null, s) == Some(counted("usages"@, Seq::empty())),
        goto_result(JsonView::Null, s, key) == Some(counted(key, Seq::empty())),
        outline_result(JsonView::Null, s, key) == Some(counted("symbols"@, Seq::empty())),
        call_items_result(JsonView::Null, s) == Some(counted("items"@, Seq::empty())),
        calls_result(JsonView::Null, s, key, None) == Some(counted("calls"@, Seq::empty())),
        search_result(JsonView::Null, s, limit) == Some(counted("symbols"@, Seq::empty())),
{
}

/// A handle that a server gave out is passed on as it is, so that the server
/// knows it again.
pub proof fn handles_are_passed_on_unchanged(raw: JsonView, s: SourceView)
    requires
        call_entry(raw, s) is Some,
    ensures
        call_entry(raw, s)->Some_0.get("item"@) == Some(raw),
{
    reveal_strlit("item");
    reveal_strlit("detail");
    reveal_strlit("text");
    reveal_strlit("context");
    reveal_strlit("context_start_line");
    assert("item"@[0] == 'i');
    assert("text"@[0] == 't');
    assert("detail"@.len() == 6);
    assert("context"@.len() == 7);
    assert("context_start_line"@.len() == 18);
    assert("item"@.len() == 4);
}

} // verus!
