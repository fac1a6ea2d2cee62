//! Between the messages of an editor and operations.
//!
//! A request of an editor becomes the target of an operation, and what the
//! operation reports becomes the response that the editor waits for. The text
//! that an entry quotes goes along in fields of its own, so that a reader of
//! the response sees the code and not a bare place.

use crate::edit::Position;
use crate::json;
use crate::json::Json;
use crate::json::JsonView;
use crate::json::Object;
use crate::operation::Target;
use crate::operation::TargetView;
use crate::path;
use crate::text;
use crate::uri;
use crate::view;
use vstd::prelude::*;

verus! {

// ---------------------------------------------------------------------------
// Requests
// ---------------------------------------------------------------------------

/// What a folder of an editor stands for: a project, and a working copy of it
/// where the folder is not the project's own checkout.
#[derive(Debug, PartialEq, Eq)]
pub struct Identity {
    /// The id of the project: the folder's name up to the first dot.
    pub project_id: String,
    /// The folder, as the editor names it.
    pub folder: String,
    /// The working copy, where the folder's name has a dot.
    pub workspace: Option<String>,
}

/// What such an identity is.
#[verifier::ext_equal]
pub struct IdentityView {
    /// The id of the project.
    pub project_id: Seq<char>,
    /// The folder.
    pub folder: Seq<char>,
    /// The working copy.
    pub workspace: Option<Seq<char>>,
}

impl View for Identity {
    type V = IdentityView;

    open spec fn view(&self) -> IdentityView {
        IdentityView {
            project_id: self.project_id@,
            folder: self.folder@,
            workspace: view::maybe(self.workspace),
        }
    }
}

/// The URI of the first of the folders that an editor opens.
pub open spec fn first_folder_uri(params: JsonView) -> Option<Seq<char>> {
    match params.items_at("workspaceFolders"@) {
        Some(folders) => if folders.len() > 0 {
            folders[0].text_at("uri"@)
        } else {
            None
        },
        None => None,
    }
}

/// The folder that an editor opens: the first of its folders, or else the root
/// that it names by a URI or by a path.
pub open spec fn folder_of(params: JsonView) -> Option<Seq<char>> {
    match first_folder_uri(params) {
        Some(u) => Some(uri::path_of(u)),
        None => match params.text_at("rootUri"@) {
            Some(u) => Some(uri::path_of(u)),
            None => params.text_at("rootPath"@),
        },
    }
}

/// What the folder that an editor opens stands for.
pub open spec fn identity_of(params: JsonView) -> Option<IdentityView> {
    match folder_of(params) {
        None => None,
        Some(folder) => match path::file_name_of(folder) {
            None => None,
            Some(name) => {
                let dot = text::next_of(name, '.', 0);
                if dot == 0 {
                    None
                } else if dot < name.len() {
                    Some(
                        IdentityView {
                            project_id: name.take(dot),
                            folder,
                            workspace: Some(folder),
                        },
                    )
                } else {
                    Some(IdentityView { project_id: name, folder, workspace: None })
                }
            },
        },
    }
}

fn find_folder(params: &Json) -> (r: Option<String>)
    ensures
        view::maybe(r) == folder_of(params@),
{
    if let Some(folders) = params.array_at("workspaceFolders") {
        if folders.len() > 0 {
            assert(json::list_view(folders@)[0] == folders@[0]@);
            if let Some(u) = folders[0].str_at("uri") {
                return Some(uri::uri_to_path(u));
            }
        }
    }
    match params.str_at("rootUri") {
        Some(u) => Some(uri::uri_to_path(u)),
        None => match params.str_at("rootPath") {
            Some(p) => Some(p.to_owned()),
            None => None,
        },
    }
}

/// What the folder that an editor opens stands for. A name with a dot is that
/// of a working copy; what is before the dot is the project.
pub fn identity(params: &Json) -> (r: Option<Identity>)
    ensures
        view::maybe(r) == identity_of(params@),
{
    let folder = match find_folder(params) {
        Some(folder) => folder,
        None => {
            return None;
        },
    };
    let name = match path::file_name(folder.as_str()) {
        Some(name) => name,
        None => {
            return None;
        },
    };
    let cs = text::chars_of(name.as_str());
    proof {
        text::next_of_bounds(name@, '.', 0);
    }
    let dot = text::find_next(&cs, '.', 0);
    if dot == 0 {
        return None;
    }
    if dot < cs.len() {
        let project_id = text::text_of(&cs, 0, dot);
        assert(project_id@ =~= name@.take(dot as int));
        let workspace = folder.clone();
        Some(Identity { project_id, folder, workspace: Some(workspace) })
    } else {
        Some(Identity { project_id: name, folder, workspace: None })
    }
}

/// The URI of the document that a request is about.
pub open spec fn document_uri(params: JsonView) -> Option<Seq<char>> {
    match params.get("textDocument"@) {
        Some(d) => d.text_at("uri"@),
        None => None,
    }
}

/// What a result that may be a message instead is.
pub open spec fn said<T: View>(r: Result<T, String>) -> Result<T::V, Seq<char>> {
    match r {
        Ok(v) => Ok(v@),
        Err(m) => Err(m@),
    }
}

/// The URI of the document that a request is about.
pub fn text_document_uri(params: &Json) -> (r: Result<&str, String>)
    ensures
        said(r) == (match document_uri(params@) {
            Some(u) => Ok(u),
            None => Err("missing `textDocument.uri`"@),
        }),
{
    if let Some(d) = params.get("textDocument") {
        if let Some(u) = d.str_at("uri") {
            return Ok(u);
        }
    }
    Err("missing `textDocument.uri`".to_owned())
}

/// The target of a request at a position of a document. A line or character
/// beyond thirty-two bits loses what is beyond.
pub open spec fn position_target_of(params: JsonView) -> Result<TargetView, Seq<char>> {
    match document_uri(params) {
        None => Err("missing `textDocument.uri`"@),
        Some(u) => match params.get("position"@) {
            None => Err("missing `position`"@),
            Some(pos) => match pos.count_at("line"@) {
                None => Err("missing `position.line`"@),
                Some(line) => match pos.count_at("character"@) {
                    None => Err("missing `position.character`"@),
                    Some(character) => Ok(
                        TargetView::Position {
                            file: uri::path_of(u),
                            position: Position {
                                line: line as u32,
                                character: character as u32,
                            },
                        },
                    ),
                },
            },
        },
    }
}

/// The target of a request at a position of a document.
pub fn position_target(params: &Json) -> (r: Result<Target, String>)
    ensures
        said(r) == position_target_of(params@),
{
    let file = match text_document_uri(params) {
        Ok(u) => uri::uri_to_path(u),
        Err(m) => {
            return Err(m);
        },
    };
    let pos = match params.get("position") {
        Some(pos) => pos,
        None => {
            return Err("missing `position`".to_owned());
        },
    };
    let line: u64 = match pos.u64_at("line") {
        Some(line) => line,
        None => {
            return Err("missing `position.line`".to_owned());
        },
    };
    let character: u64 = match pos.u64_at("character") {
        Some(character) => character,
        None => {
            return Err("missing `position.character`".to_owned());
        },
    };
    Ok(
        Target::Position {
            file,
            position: Position {
                line: #[verifier::truncate]
                (line as u32),
                character: #[verifier::truncate]
                (character as u32),
            },
        },
    )
}

/// The target of a request on a whole document.
pub fn file_target(params: &Json) -> (r: Result<Target, String>)
    ensures
        said(r) == (match document_uri(params@) {
            Some(u) => Ok(TargetView::File { file: uri::path_of(u) }),
            None => Err("missing `textDocument.uri`"@),
        }),
{
    match text_document_uri(params) {
        Ok(u) => Ok(Target::File { file: uri::uri_to_path(u) }),
        Err(m) => Err(m),
    }
}

// ---------------------------------------------------------------------------
// Responses
// ---------------------------------------------------------------------------

/// A value with a field. `null` counts as an object without fields.
pub open spec fn with_field(v: JsonView, key: Seq<char>, field: JsonView) -> JsonView {
    match v {
        JsonView::Object(m) => JsonView::Object(m.insert(key, field)),
        JsonView::Null => JsonView::Object(map![key => field]),
        _ => v,
    }
}

/// A value with a field of an entry, where the entry has it.
pub open spec fn with_carried(v: JsonView, entry: JsonView, key: Seq<char>) -> JsonView {
    match entry.get(key) {
        Some(field) => with_field(v, key, field),
        None => v,
    }
}

/// A value with the text that an entry quotes.
pub open spec fn carried(entry: JsonView, v: JsonView) -> JsonView {
    with_carried(
        with_carried(with_carried(v, entry, "text"@), entry, "context"@),
        entry,
        "context_start_line"@,
    )
}

/// Whether the text that an entry quotes can go along with a value: the value
/// can have fields, or there is no text.
pub open spec fn can_carry(entry: JsonView, v: JsonView) -> bool {
    v is Object || v is Null || (entry.get("text"@) is None && entry.get("context"@) is None
        && entry.get("context_start_line"@) is None)
}

/// Adds a field of an entry, where the entry has it.
fn carry_one(entry: &Json, v: Json, key: &str) -> (r: Json)
    requires
        v@ is Object || v@ is Null || entry@.get(key@) is None,
    ensures
        r@ == with_carried(v@, entry@, key@),
        (v@ is Object || v@ is Null) ==> (r@ is Object || r@ is Null),
        !(v@ is Object || v@ is Null) ==> r@ == v@,
{
    match entry.get(key) {
        Some(field) => match v {
            Json::Object(o) => Json::Object(o.with(key, field.clone())),
            _ => Json::Object(Object::new().with(key, field.clone())),
        },
        None => v,
    }
}

/// Adds the text that an entry quotes to a value.
fn carry_context(entry: &Json, v: Json) -> (r: Json)
    requires
        can_carry(entry@, v@),
    ensures
        r@ == carried(entry@, v@),
{
    let v = carry_one(entry, v, "text");
    let v = carry_one(entry, v, "context");
    carry_one(entry, v, "context_start_line")
}

/// A field of an entry, or a value in its place.
pub open spec fn field_or(entry: JsonView, key: Seq<char>, default: JsonView) -> JsonView {
    match entry.get(key) {
        Some(v) => v,
        None => default,
    }
}

fn get_or(entry: &Json, key: &str, default: Json) -> (r: Json)
    ensures
        r@ == field_or(entry@, key@, default@),
{
    match entry.get(key) {
        Some(v) => v.clone(),
        None => default,
    }
}

/// A point.
pub open spec fn point(line: JsonView, character: JsonView) -> JsonView {
    JsonView::Object(map!["line"@ => line, "character"@ => character])
}

fn make_point(line: Json, character: Json) -> (r: Json)
    ensures
        r@ == point(line@, character@),
{
    Json::Object(Object::new().with("line", line).with("character", character))
}

/// The range of an entry.
pub open spec fn range_in(entry: JsonView) -> JsonView {
    JsonView::Object(
        map![
            "start"@ => point(
                field_or(entry, "start_line"@, json::num(0)),
                field_or(entry, "start_character"@, json::num(0)),
            ),
            "end"@ => point(
                field_or(entry, "end_line"@, json::num(0)),
                field_or(entry, "end_character"@, json::num(0)),
            )
        ],
    )
}

fn range_of(entry: &Json) -> (r: Json)
    ensures
        r@ == range_in(entry@),
{
    let start = make_point(
        get_or(entry, "start_line", Json::number(0)),
        get_or(entry, "start_character", Json::number(0)),
    );
    let end = make_point(
        get_or(entry, "end_line", Json::number(0)),
        get_or(entry, "end_character", Json::number(0)),
    );
    Json::Object(Object::new().with("start", start).with("end", end))
}

/// The URI of an entry's file, which is looked for in the folder.
pub open spec fn uri_in(folder: Seq<char>, entry: JsonView) -> JsonView {
    let file = match entry.text_at("file"@) {
        Some(f) => f,
        None => Seq::empty(),
    };
    JsonView::Text(uri::file_uri(path::joined(folder, file)))
}

fn uri_of(folder: &str, entry: &Json) -> (r: Json)
    ensures
        r@ == uri_in(folder@, entry@),
{
    let file: String = match entry.str_at("file") {
        Some(f) => f.to_owned(),
        None => {
            let none = String::new();
            assert(none@ =~= Seq::empty());
            none
        },
    };
    let at = path::join(folder, file.as_str());
    Json::Text(uri::path_to_file_uri(at.as_str()))
}

/// The place that an entry reports.
pub open spec fn location_in(entry: JsonView, folder: Seq<char>) -> JsonView {
    carried(
        entry,
        JsonView::Object(map!["uri"@ => uri_in(folder, entry), "range"@ => range_in(entry)]),
    )
}

/// The places that some entries report.
pub open spec fn locations_in(entries: Seq<JsonView>, folder: Seq<char>) -> Seq<JsonView> {
    Seq::new(entries.len(), |i: int| location_in(entries[i], folder))
}

/// The entries that a result has under a key.
pub open spec fn entries_of(query: JsonView, key: Seq<char>) -> Seq<JsonView> {
    match query.items_at(key) {
        Some(s) => s,
        None => Seq::empty(),
    }
}

/// The places that a result reports under a key, each with the text that stands
/// there.
pub fn locations(query: &Json, key: &str, folder: &str) -> (r: Json)
    ensures
        r@ == JsonView::List(locations_in(entries_of(query@, key@), folder@)),
{
    let mut out = json::no_values();
    let ghost wanted = locations_in(entries_of(query@, key@), folder@);
    if let Some(entries) = query.array_at(key) {
        let ghost all = json::list_view(entries@);
        let mut i: usize = 0;
        assert(json::list_view(out@) =~= wanted.take(0));
        while i < entries.len()
            invariant
                i <= entries@.len(),
                all == json::list_view(entries@),
                wanted == locations_in(all, folder@),
                json::list_view(out@) == wanted.take(i as int),
            decreases entries@.len() - i,
        {
            let e = &entries[i];
            assert(all[i as int] == e@);
            let place = Json::Object(
                Object::new().with("uri", uri_of(folder, e)).with("range", range_of(e)),
            );
            out = json::listed(out, carry_context(e, place));
            assert(wanted.take(i + 1) =~= wanted.take(i as int).push(wanted[i as int]));
            i += 1;
        }
        assert(wanted.take(all.len() as int) =~= wanted);
    } else {
        assert(json::list_view(out@) =~= wanted);
    }
    Json::List(out)
}

/// The description that a result gives of a symbol; `null` where there is
/// nothing to say.
pub open spec fn hover_in(query: JsonView) -> JsonView {
    match query.text_at("text"@) {
        Some(t) => if t.len() == 0 {
            JsonView::Null
        } else {
            let shown = map![
                "contents"@ => JsonView::Object(
                    map!["kind"@ => json::txt("markdown"), "value"@ => JsonView::Text(t)],
                )
            ];
            if query.get("start_line"@) is Some {
                JsonView::Object(shown.insert("range"@, range_in(query)))
            } else {
                JsonView::Object(shown)
            }
        },
        None => JsonView::Null,
    }
}

/// The description that a result gives of a symbol.
pub fn hover(query: &Json) -> (r: Json)
    ensures
        r@ == hover_in(query@),
{
    let t = match query.str_at("text") {
        Some(t) => t,
        None => {
            return Json::Null;
        },
    };
    if text::is_empty(t) {
        return Json::Null;
    }
    let shown = Object::new().with(
        "contents",
        Json::Object(
            Object::new().with("kind", Json::text("markdown")).with("value", Json::text(t)),
        ),
    );
    if query.get("start_line").is_some() {
        Json::Object(shown.with("range", range_of(query)))
    } else {
        Json::Object(shown)
    }
}

/// A number of an entry; zero where it has none.
pub open spec fn number_in(entry: JsonView, key: Seq<char>) -> int {
    match entry.count_at(key) {
        Some(n) => n as int,
        None => 0,
    }
}

fn number_of(entry: &Json, key: &str) -> (r: u64)
    ensures
        r == number_in(entry@, key@),
{
    match entry.u64_at(key) {
        Some(n) => n,
        None => 0,
    }
}

/// The smaller of two numbers.
pub open spec fn least(a: int, b: int) -> int {
    if a < b {
        a
    } else {
        b
    }
}

/// The extent of a symbol's declaration. It has to hold the symbol's name: one
/// that ends on the line of the name ends where the name does.
pub open spec fn extent_in(entry: JsonView) -> JsonView {
    let body_end = number_in(entry, "body_end_line"@);
    let name_end = number_in(entry, "end_line"@);
    let (end_line, end_character) = if body_end > name_end {
        (body_end, 0)
    } else {
        (name_end, number_in(entry, "end_character"@))
    };
    JsonView::Object(
        map![
            "start"@ => point(
                json::num(
                    least(
                        number_in(entry, "body_start_line"@),
                        number_in(entry, "start_line"@),
                    ),
                ),
                json::num(0),
            ),
            "end"@ => point(json::num(end_line), json::num(end_character))
        ],
    )
}

fn extent_of(entry: &Json) -> (r: Json)
    ensures
        r@ == extent_in(entry@),
{
    let body_start = number_of(entry, "body_start_line");
    let body_end = number_of(entry, "body_end_line");
    let name_start = number_of(entry, "start_line");
    let name_end = number_of(entry, "end_line");
    let first: u64 = if body_start < name_start {
        body_start
    } else {
        name_start
    };
    let end = if body_end > name_end {
        make_point(Json::number(body_end), Json::number(0))
    } else {
        make_point(Json::number(name_end), Json::number(number_of(entry, "end_character")))
    };
    Json::Object(
        Object::new().with("start", make_point(Json::number(first), Json::number(0))).with(
            "end",
            end,
        ),
    )
}

/// A symbol of an outline, with its parts.
pub open spec fn symbol_in(entry: JsonView) -> JsonView
    decreases entry, 1int,
{
    let base = map![
        "name"@ => field_or(entry, "name"@, JsonView::Text(""@)),
        "kind"@ => field_or(entry, "kind"@, JsonView::Text(""@)),
        "range"@ => extent_in(entry),
        "selectionRange"@ => range_in(entry),
        "children"@ => JsonView::List(
            match entry.items_at("children"@) {
                Some(s) => symbols_in(s),
                None => Seq::empty(),
            },
        )
    ];
    let detailed = match entry.get("detail"@) {
        Some(d) => base.insert("detail"@, d),
        None => base,
    };
    carried(entry, JsonView::Object(detailed))
}

/// The symbols of an outline.
pub open spec fn symbols_in(entries: Seq<JsonView>) -> Seq<JsonView>
    decreases entries, 0int,
{
    Seq::new(
        entries.len(),
        |i: int|
            if 0 <= i < entries.len() {
                symbol_in(entries[i])
            } else {
                JsonView::Null
            },
    )
}

fn document_symbol(entry: &Json) -> (r: Json)
    ensures
        r@ == symbol_in(entry@),
    decreases entry, 1int,
{
    let nested = entry.get("children");
    let children = match nested {
        Some(Json::List(items)) => {
            assert(decreases_to!(nested->Some_0 => items));
            symbols(items)
        },
        _ => json::no_values(),
    };
    let base = Object::new().with("name", get_or(entry, "name", Json::text(""))).with(
        "kind",
        get_or(entry, "kind", Json::text("")),
    ).with("range", extent_of(entry)).with("selectionRange", range_of(entry)).with(
        "children",
        Json::List(children),
    );
    let detailed = match entry.get("detail") {
        Some(d) => base.with("detail", d.clone()),
        None => base,
    };
    carry_context(entry, Json::Object(detailed))
}

fn symbols(entries: &Vec<Json>) -> (r: Vec<Json>)
    ensures
        json::list_view(r@) == symbols_in(json::list_view(entries@)),
    decreases entries, 0int,
{
    let ghost all = json::list_view(entries@);
    let ghost wanted = symbols_in(all);
    let mut out = json::no_values();
    let mut i: usize = 0;
    assert(json::list_view(out@) =~= wanted.take(0));
    while i < entries.len()
        invariant
            i <= entries@.len(),
            all == json::list_view(entries@),
            wanted == symbols_in(all),
            json::list_view(out@) == wanted.take(i as int),
        decreases entries@.len() - i,
    {
        assert(all[i as int] == entries@[i as int]@);
        let next = document_symbol(&entries[i]);
        assert(next@ == wanted[i as int]);
        out = json::listed(out, next);
        assert(wanted.take(i + 1) =~= wanted.take(i as int).push(wanted[i as int]));
        i += 1;
    }
    assert(wanted.take(all.len() as int) =~= wanted);
    out
}

/// The symbols of the outline that a result reports, each with its parts and
/// the line that declares it.
pub fn outline(query: &Json) -> (r: Json)
    ensures
        r@ == JsonView::List(symbols_in(entries_of(query@, "symbols"@))),
{
    match query.array_at("symbols") {
        Some(entries) => Json::List(symbols(entries)),
        None => {
            assert(symbols_in(Seq::empty()) =~= Seq::empty());
            Json::List(json::no_values())
        },
    }
}

/// The handle that an entry holds, with the text that the entry quotes.
pub open spec fn handle_in(entry: JsonView) -> Option<JsonView> {
    match entry.get("item"@) {
        Some(item) => Some(carried(entry, item)),
        None => None,
    }
}

/// Whether the text that an entry quotes can go along with its handle.
pub open spec fn handle_can_carry(entry: JsonView) -> bool {
    entry.get("item"@) is Some ==> can_carry(entry, entry.get("item"@)->Some_0)
}

/// Whether that is so of all entries.
pub open spec fn all_handles_can_carry(entries: Seq<JsonView>) -> bool {
    forall|i: int| 0 <= i < entries.len() ==> handle_can_carry(#[trigger] entries[i])
}

fn call_hierarchy_item(entry: &Json) -> (r: Option<Json>)
    requires
        handle_can_carry(entry@),
    ensures
        view::maybe(r) == handle_in(entry@),
{
    match entry.get("item") {
        Some(item) => Some(carry_context(entry, item.clone())),
        None => None,
    }
}

/// The handles that some entries hold.
pub open spec fn handles_in(entries: Seq<JsonView>) -> Seq<Option<JsonView>> {
    Seq::new(entries.len(), |i: int| handle_in(entries[i]))
}

/// The handles that a result reports, as the server gave them out, so that the
/// editor can hand them back; each with the line that declares it.
pub fn call_hierarchy_items(query: &Json) -> (r: Json)
    requires
        all_handles_can_carry(entries_of(query@, "items"@)),
    ensures
        r@ == JsonView::List(view::kept(handles_in(entries_of(query@, "items"@)))),
{
    let ghost wanted = handles_in(entries_of(query@, "items"@));
    let mut out = json::no_values();
    if let Some(entries) = query.array_at("items") {
        let ghost all = json::list_view(entries@);
        let mut i: usize = 0;
        assert(json::list_view(out@) =~= view::kept(wanted.take(0)));
        while i < entries.len()
            invariant
                i <= entries@.len(),
                all == json::list_view(entries@),
                wanted == handles_in(all),
                all_handles_can_carry(all),
                json::list_view(out@) == view::kept(wanted.take(i as int)),
            decreases entries@.len() - i,
        {
            assert(all[i as int] == entries@[i as int]@);
            proof {
                view::kept_step(wanted, i as int);
            }
            if let Some(item) = call_hierarchy_item(&entries[i]) {
                out = json::listed(out, item);
            }
            i += 1;
        }
        assert(wanted.take(all.len() as int) =~= wanted);
    } else {
        assert(json::list_view(out@) =~= view::kept(wanted));
    }
    Json::List(out)
}

/// A call site: its range, with the line the call is written on.
pub open spec fn site_in(entry: JsonView) -> JsonView {
    carried(entry, range_in(entry))
}

/// The call sites that some entries report.
pub open spec fn sites_in(entries: Seq<JsonView>) -> Seq<JsonView> {
    Seq::new(entries.len(), |i: int| site_in(entries[i]))
}

fn sites(call: &Json) -> (r: Vec<Json>)
    ensures
        json::list_view(r@) == sites_in(entries_of(call@, "ranges"@)),
{
    let ghost wanted = sites_in(entries_of(call@, "ranges"@));
    let mut out = json::no_values();
    if let Some(entries) = call.array_at("ranges") {
        let ghost all = json::list_view(entries@);
        let mut i: usize = 0;
        assert(json::list_view(out@) =~= wanted.take(0));
        while i < entries.len()
            invariant
                i <= entries@.len(),
                all == json::list_view(entries@),
                wanted == sites_in(all),
                json::list_view(out@) == wanted.take(i as int),
            decreases entries@.len() - i,
        {
            assert(all[i as int] == entries@[i as int]@);
            out = json::listed(out, carry_context(&entries[i], range_of(&entries[i])));
            assert(wanted.take(i + 1) =~= wanted.take(i as int).push(wanted[i as int]));
            i += 1;
        }
        assert(wanted.take(all.len() as int) =~= wanted);
    } else {
        assert(json::list_view(out@) =~= wanted);
    }
    out
}

/// A call that a result reports: the handle of its other end, under the name of
/// the direction, and its sites.
pub open spec fn call_in(call: JsonView, direction: Seq<char>) -> Option<JsonView> {
    match call.get(direction) {
        Some(other) => match handle_in(other) {
            Some(item) => Some(
                JsonView::Object(
                    map![
                        direction => item,
                        "fromRanges"@ => JsonView::List(sites_in(entries_of(call, "ranges"@)))
                    ],
                ),
            ),
            None => None,
        },
        None => None,
    }
}

/// Whether the text that the other end of a call quotes can go along with its
/// handle.
pub open spec fn call_can_carry(call: JsonView, direction: Seq<char>) -> bool {
    call.get(direction) is Some ==> handle_can_carry(call.get(direction)->Some_0)
}

/// Whether that is so of all calls.
pub open spec fn all_calls_can_carry(calls: Seq<JsonView>, direction: Seq<char>) -> bool {
    forall|i: int| 0 <= i < calls.len() ==> call_can_carry(#[trigger] calls[i], direction)
}

fn one_call(call: &Json, direction: &str) -> (r: Option<Json>)
    requires
        call_can_carry(call@, direction@),
    ensures
        view::maybe(r) == call_in(call@, direction@),
{
    let other = match call.get(direction) {
        Some(other) => other,
        None => {
            return None;
        },
    };
    match call_hierarchy_item(other) {
        Some(item) => Some(
            Json::Object(
                Object::new().with(direction, item).with("fromRanges", Json::List(sites(call))),
            ),
        ),
        None => None,
    }
}

/// The calls that some entries report.
pub open spec fn calls_in(entries: Seq<JsonView>, direction: Seq<char>) -> Seq<
    Option<JsonView>,
> {
    Seq::new(entries.len(), |i: int| call_in(entries[i], direction))
}

/// The calls that a result reports, in one direction.
pub fn calls(query: &Json, direction: &str) -> (r: Json)
    requires
        all_calls_can_carry(entries_of(query@, "calls"@), direction@),
    ensures
        r@ == JsonView::List(view::kept(calls_in(entries_of(query@, "calls"@), direction@))),
{
    let ghost wanted = calls_in(entries_of(query@, "calls"@), direction@);
    let mut out = json::no_values();
    if let Some(entries) = query.array_at("calls") {
        let ghost all = json::list_view(entries@);
        let mut i: usize = 0;
        assert(json::list_view(out@) =~= view::kept(wanted.take(0)));
        while i < entries.len()
            invariant
                i <= entries@.len(),
                all == json::list_view(entries@),
                wanted == calls_in(all, direction@),
                all_calls_can_carry(all, direction@),
                json::list_view(out@) == view::kept(wanted.take(i as int)),
            decreases entries@.len() - i,
        {
            assert(all[i as int] == entries@[i as int]@);
            proof {
                view::kept_step(wanted, i as int);
            }
            if let Some(call) = one_call(&entries[i], direction) {
                out = json::listed(out, call);
            }
            i += 1;
        }
        assert(wanted.take(all.len() as int) =~= wanted);
    } else {
        assert(json::list_view(out@) =~= view::kept(wanted));
    }
    Json::List(out)
}

fn entry_can_carry(entry: &Json) -> (r: bool)
    ensures
        r == handle_can_carry(entry@),
{
    match entry.get("item") {
        Some(item) => item.is_object() || item.is_null() || (entry.get("text").is_none()
            && entry.get("context").is_none() && entry.get("context_start_line").is_none()),
        None => true,
    }
}

/// Whether the text of every entry can go along with its handle, so that the
/// handles of a result can be reported.
pub fn handles_can_carry(query: &Json) -> (r: bool)
    ensures
        r == all_handles_can_carry(entries_of(query@, "items"@)),
{
    if let Some(entries) = query.array_at("items") {
        let ghost all = json::list_view(entries@);
        let mut i: usize = 0;
        while i < entries.len()
            invariant
                i <= entries@.len(),
                all == json::list_view(entries@),
                all == entries_of(query@, "items"@),
                forall|k: int| 0 <= k < i ==> handle_can_carry(#[trigger] all[k]),
            decreases entries@.len() - i,
        {
            assert(all[i as int] == entries@[i as int]@);
            if !entry_can_carry(&entries[i]) {
                return false;
            }
            i += 1;
        }
    }
    true
}

/// Whether the text of every other end can go along with its handle, so that
/// the calls of a result can be reported.
pub fn calls_can_carry(query: &Json, direction: &str) -> (r: bool)
    ensures
        r == all_calls_can_carry(entries_of(query@, "calls"@), direction@),
{
    if let Some(entries) = query.array_at("calls") {
        let ghost all = json::list_view(entries@);
        let mut i: usize = 0;
        while i < entries.len()
            invariant
                i <= entries@.len(),
                all == json::list_view(entries@),
                all == entries_of(query@, "calls"@),
                forall|k: int| 0 <= k < i ==> call_can_carry(#[trigger] all[k], direction@),
            decreases entries@.len() - i,
        {
            assert(all[i as int] == entries@[i as int]@);
            if let Some(other) = entries[i].get(direction) {
                if !entry_can_carry(other) {
                    assert(!call_can_carry(all[i as int], direction@));
                    return false;
                }
            }
            i += 1;
        }
    }
    true
}

// ---------------------------------------------------------------------------
// What the responses promise
// ---------------------------------------------------------------------------

/// Whether one point is not after another.
pub open spec fn not_after(a_line: int, a_character: int, b_line: int, b_character: int) -> bool {
    a_line < b_line || (a_line == b_line && a_character <= b_character)
}

/// A number of an entry is missing or can be read.
pub open spec fn readable(entry: JsonView, key: Seq<char>) -> bool {
    entry.get(key) is None || entry.count_at(key) is Some
}

/// The number under two keys.
pub open spec fn number_at(v: JsonView, a: Seq<char>, b: Seq<char>) -> int {
    match v.get(a) {
        Some(inner) => number_in(inner, b),
        None => 0,
    }
}

proof fn keys_of_a_range()
    ensures
        "start"@ != "end"@,
        "line"@ != "character"@,
{
    reveal_strlit("start");
    reveal_strlit("end");
    reveal_strlit("line");
    reveal_strlit("character");
    assert("start"@.len() != "end"@.len());
    assert("line"@.len() != "character"@.len());
}

/// The extent of a symbol holds the range of its name, as editors demand.
pub proof fn extent_holds_the_name(entry: JsonView)
    requires
        readable(entry, "start_line"@),
        readable(entry, "start_character"@),
        readable(entry, "end_line"@),
        readable(entry, "end_character"@),
    ensures
        ({
            let extent = extent_in(entry);
            let name = range_in(entry);
            &&& not_after(
                number_at(extent, "start"@, "line"@),
                number_at(extent, "start"@, "character"@),
                number_at(name, "start"@, "line"@),
                number_at(name, "start"@, "character"@),
            )
            &&& not_after(
                number_at(name, "end"@, "line"@),
                number_at(name, "end"@, "character"@),
                number_at(extent, "end"@, "line"@),
                number_at(extent, "end"@, "character"@),
            )
        }),
{
    keys_of_a_range();
    let extent = extent_in(entry);
    let name = range_in(entry);
    assert(extent.get("start"@) is Some && extent.get("end"@) is Some);
    assert(name.get("start"@) is Some && name.get("end"@) is Some);
    assert(number_at(name, "start"@, "line"@) == number_in(entry, "start_line"@));
    assert(number_at(name, "start"@, "character"@) == number_in(entry, "start_character"@));
    assert(number_at(name, "end"@, "line"@) == number_in(entry, "end_line"@));
    assert(number_at(name, "end"@, "character"@) == number_in(entry, "end_character"@));
}

proof fn carried_keys()
    ensures
        "text"@ != "context"@,
        "text"@ != "context_start_line"@,
        "context"@ != "context_start_line"@,
{
    reveal_strlit("text");
    reveal_strlit("context");
    reveal_strlit("context_start_line");
    assert("text"@.len() != "context"@.len());
    assert("context_start_line"@.len() != "context"@.len());
    assert("context_start_line"@.len() != "text"@.len());
}

/// The text that an entry quotes goes along unchanged, and nothing else of the
/// value is touched.
pub proof fn carrying_keeps_the_rest(
    entry: JsonView,
    m: Map<Seq<char>, JsonView>,
    key: Seq<char>,
)
    ensures
        ({
            let after = carried(entry, JsonView::Object(m));
            let is_text = key == "text"@ || key == "context"@ || key == "context_start_line"@;
            &&& after is Object
            &&& is_text && entry.get(key) is Some ==> after.get(key) == entry.get(key)
            &&& !is_text || entry.get(key) is None ==> after.get(key) == JsonView::Object(m).get(key)
        }),
{
    carried_keys();
}

} // verus!
