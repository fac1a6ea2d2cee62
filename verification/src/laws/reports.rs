//! Reports: what a language server found is what a query tells, entry by entry.

use crate::convert;
use crate::edit::Range;
use crate::json::JsonView;
use crate::laws::shapes;
use crate::source::SourceView;
use crate::text;
use crate::view;
use crate::wire;
use crate::wire::LocationView;
use vstd::prelude::*;

verus! {

// ---------------------------------------------------------------------------
// Lists of what is there
// ---------------------------------------------------------------------------

/// Where every value is there, all are kept, in order.
pub proof fn all_are_kept<T>(s: Seq<Option<T>>, all: Seq<T>)
    requires
        s.len() == all.len(),
        forall|i: int| 0 <= i < s.len() ==> #[trigger] s[i] == Some(all[i]),
    ensures
        view::kept(s) == all,
    decreases s.len(),
{
    if s.len() > 0 {
        all_are_kept(s.drop_last(), all.drop_last());
        assert(all.drop_last().push(all.last()) =~= all);
    } else {
        assert(view::kept(s) =~= all);
    }
}

// ---------------------------------------------------------------------------
// Entries
// ---------------------------------------------------------------------------

/// The entry for a place tells the file and the range of the place.
pub proof fn entries_tell_their_place(s: SourceView, at: LocationView)
    ensures
        convert::place_entry(s, at).text_at("file"@) == Some(s.reported(at.uri)),
        shapes::points_at(convert::place_entry(s, at), at.range),
{
    shapes::report_keys();
}

/// A report of a number of entries.
pub open spec fn tells(report: Option<JsonView>, key: Seq<char>, n: int) -> bool {
    &&& report is Some
    &&& report->Some_0.count_at("count"@) == Some(n as u64)
    &&& report->Some_0.items_at(key) is Some
    &&& report->Some_0.items_at(key)->Some_0.len() == n
}

/// An entry of a report.
pub open spec fn entry(report: Option<JsonView>, key: Seq<char>, i: int) -> JsonView {
    report->Some_0.items_at(key)->Some_0[i]
}

/// Every usage that a server lists is told, in order, with its file and its
/// range; and no other is.
pub proof fn every_usage_is_told(
    items: Seq<JsonView>,
    uris: Seq<Seq<char>>,
    ranges: Seq<Range>,
    s: SourceView,
)
    requires
        items.len() == uris.len() == ranges.len(),
        items.len() <= u64::MAX,
        forall|i: int|
            0 <= i < items.len() ==> shapes::is_location(#[trigger] items[i], uris[i], ranges[i]),
    ensures
        ({
            let told = convert::usages(JsonView::List(items), s);
            &&& tells(told, "usages"@, items.len() as int)
            &&& forall|i: int|
                0 <= i < items.len() ==> {
                    let e = #[trigger] entry(told, "usages"@, i);
                    e.text_at("file"@) == Some(s.reported(uris[i])) && shapes::points_at(
                        e,
                        ranges[i],
                    )
                }
        }),
{
    reveal_strlit("count");
    reveal_strlit("usages");
    assert("count"@.len() == 5);
    assert("usages"@.len() == 6);
    let told = convert::usages(JsonView::List(items), s);
    assert forall|i: int| 0 <= i < items.len() implies wire::location_of(#[trigger] items[i])
        == Some(LocationView { uri: uris[i], range: ranges[i] }) by {
        shapes::locations_are_read_by_name(items[i], uris[i], ranges[i]);
    }
    assert forall|i: int| 0 <= i < items.len() implies ({
        let e = #[trigger] entry(told, "usages"@, i);
        e.text_at("file"@) == Some(s.reported(uris[i])) && shapes::points_at(e, ranges[i])
    }) by {
        entries_tell_their_place(s, LocationView { uri: uris[i], range: ranges[i] });
    }
}

/// A list with something in it that is not a place is refused.
pub proof fn what_is_no_place_is_refused(items: Seq<JsonView>, s: SourceView, i: int)
    requires
        0 <= i < items.len(),
        items[i] is Object,
        items[i].text_at("uri"@) is None || items[i].get("range"@) is None,
    ensures
        convert::usages(JsonView::List(items), s) is None,
{
    assert(wire::location_of(items[i]) is None);
}

/// A value that spells where a definition is: a place, or a link to one, whose
/// target is found by its name.
pub open spec fn is_end(j: JsonView, uri: Seq<char>, r: Range) -> bool {
    ||| shapes::is_location(j, uri, r) && shapes::leaves_out(j, "targetUri"@) && shapes::leaves_out(
        j,
        "targetRange"@,
    ) && shapes::leaves_out(j, "targetSelectionRange"@)
    ||| is_link(j, uri, r)
}

/// A value that spells a link: by the range of the name where it has one, else
/// by the whole range.
pub open spec fn is_link(j: JsonView, uri: Seq<char>, r: Range) -> bool {
    &&& j.text_at("targetUri"@) == Some(uri)
    &&& shapes::leaves_out(j, "uri"@)
    &&& shapes::leaves_out(j, "range"@)
    &&& {
        ||| shapes::has_range(j, "targetSelectionRange"@, r) && j.get("targetRange"@) is Some
            && wire::range_of(j.get("targetRange"@)->Some_0) is Some
        ||| shapes::has_range(j, "targetSelectionRange"@, r) && shapes::leaves_out(
            j,
            "targetRange"@,
        )
        ||| shapes::leaves_out(j, "targetSelectionRange"@) && shapes::has_range(
            j,
            "targetRange"@,
            r,
        )
    }
}

proof fn ends_are_read(j: JsonView, uri: Seq<char>, r: Range)
    requires
        is_end(j, uri, r),
    ensures
        wire::goto_valid(j),
        wire::goto_place(j) == Some(LocationView { uri, range: r }),
{
    if j.get("range"@) is Some {
        shapes::ranges_are_read_by_name(j.get("range"@)->Some_0, r);
    }
    if j.get("targetSelectionRange"@) is Some {
        shapes::ranges_are_read_by_name(j.get("targetSelectionRange"@)->Some_0, r);
    }
    if j.get("targetRange"@) is Some {
        shapes::ranges_are_read_by_name(j.get("targetRange"@)->Some_0, r);
    }
}

/// Every definition or implementation that a server lists is told, in order,
/// with its file and the range of its name.
pub proof fn every_definition_is_told(
    items: Seq<JsonView>,
    uris: Seq<Seq<char>>,
    ranges: Seq<Range>,
    s: SourceView,
    key: Seq<char>,
)
    requires
        items.len() == uris.len() == ranges.len(),
        items.len() <= u64::MAX,
        key != "count"@,
        forall|i: int| 0 <= i < items.len() ==> is_end(#[trigger] items[i], uris[i], ranges[i]),
    ensures
        ({
            let told = convert::goto_result(JsonView::List(items), s, key);
            &&& tells(told, key, items.len() as int)
            &&& forall|i: int|
                0 <= i < items.len() ==> {
                    let e = #[trigger] entry(told, key, i);
                    e.text_at("file"@) == Some(s.reported(uris[i])) && shapes::points_at(
                        e,
                        ranges[i],
                    )
                }
        }),
{
    let told = convert::goto_result(JsonView::List(items), s, key);
    assert forall|i: int| 0 <= i < items.len() implies wire::goto_valid(#[trigger] items[i])
        && wire::goto_place(items[i]) == Some(
        LocationView { uri: uris[i], range: ranges[i] },
    ) by {
        ends_are_read(items[i], uris[i], ranges[i]);
    }
    let all = Seq::new(
        items.len(),
        |i: int| convert::place_entry(s, LocationView { uri: uris[i], range: ranges[i] }),
    );
    all_are_kept(convert::goto_entries(items, s), all);
    assert forall|i: int| 0 <= i < items.len() implies ({
        let e = #[trigger] entry(told, key, i);
        e.text_at("file"@) == Some(s.reported(uris[i])) && shapes::points_at(e, ranges[i])
    }) by {
        entries_tell_their_place(s, LocationView { uri: uris[i], range: ranges[i] });
    }
}

/// A definition that comes alone is told like a list of one.
pub proof fn one_definition_is_a_list_of_one(
    j: JsonView,
    uri: Seq<char>,
    r: Range,
    s: SourceView,
    key: Seq<char>,
)
    requires
        j is Object,
        is_end(j, uri, r),
    ensures
        convert::goto_result(j, s, key) == convert::goto_result(JsonView::List(seq![j]), s, key),
{
    ends_are_read(j, uri, r);
    assert(convert::goto_ends(JsonView::List(seq![j])) == Some(seq![j]));
}

// ---------------------------------------------------------------------------
// Descriptions
// ---------------------------------------------------------------------------

/// A description that comes as one text is told as it is, whether bare or as
/// marked-up content; a text in a language is fenced as that language.
pub proof fn descriptions_are_told_as_they_are(
    value: JsonView,
    contents: JsonView,
    shown: Seq<char>,
)
    requires
        value is Object,
        value.get("contents"@) == Some(contents),
        shapes::leaves_out(value, "range"@),
        ({
            ||| contents == JsonView::Text(shown)
            ||| contents.text_at("value"@) == Some(shown) && contents.text_at("language"@) is None
            ||| contents.text_at("value"@) is Some && contents.text_at("language"@) is Some && shown
                == "```"@ + contents.text_at("language"@)->Some_0 + "\n"@ + contents.text_at(
                "value"@,
            )->Some_0 + "\n```"@
        }),
    ensures
        convert::description(value) is Some,
        convert::description(value)->Some_0.text_at("text"@) == Some(shown),
        convert::description(value)->Some_0.get("start_line"@) is None,
{
    shapes::report_keys();
}

/// A description tells the range it is about, where the server names one.
pub proof fn descriptions_tell_their_range(value: JsonView, contents: JsonView, r: Range)
    requires
        value is Object,
        value.get("contents"@) == Some(contents),
        convert::contents_valid(contents),
        shapes::has_range(value, "range"@, r),
    ensures
        convert::description(value) is Some,
        convert::description(value)->Some_0.text_at("text"@) == Some(
            convert::contents_text(contents),
        ),
        shapes::points_at(convert::description(value)->Some_0, r),
{
    shapes::report_keys();
    shapes::ranges_are_read_by_name(value.get("range"@)->Some_0, r);
}

/// The parts of a description are told one after the other, blank ones aside.
pub proof fn parts_of_a_description_follow_each_other(parts: Seq<JsonView>, more: JsonView)
    ensures
        ({
            let before = convert::visible(convert::part_texts(parts));
            let after = convert::visible(convert::part_texts(parts.push(more)));
            let t = convert::contents_text(more);
            &&& text::is_blank(t) ==> after == before
            &&& !text::is_blank(t) ==> after == before.push(t)
        }),
        convert::contents_text(JsonView::List(parts)) == text::joined(
            convert::visible(convert::part_texts(parts)),
            "\n\n"@,
        ),
        convert::visible(convert::part_texts(Seq::empty())).len() == 0,
{
    let a = convert::part_texts(parts);
    let b = convert::part_texts(parts.push(more));
    let shown = |t: Seq<char>| !text::is_blank(t);
    assert(b =~= a.push(convert::contents_text(more)));
    reveal(Seq::filter);
    assert(a.push(convert::contents_text(more)).drop_last() =~= a);
    let none: Seq<JsonView> = Seq::empty();
    assert(convert::part_texts(none) =~= Seq::empty());
}

/// Texts are joined with the separator between each two of them.
pub proof fn texts_are_joined_in_order(parts: Seq<Seq<char>>, more: Seq<char>, sep: Seq<char>)
    ensures
        text::joined(seq![more], sep) == more,
        text::joined(Seq::empty(), sep).len() == 0,
        parts.len() > 0 ==> text::joined(parts.push(more), sep) == text::joined(parts, sep) + sep
            + more,
{
    assert(parts.push(more).drop_last() =~= parts);
}

// ---------------------------------------------------------------------------
// Whole answers
// ---------------------------------------------------------------------------

/// A value that spells a list of places.
pub open spec fn are_places(value: JsonView, uris: Seq<Seq<char>>, ranges: Seq<Range>) -> bool {
    &&& value is List
    &&& value->List_0.len() == uris.len() == ranges.len()
    &&& value->List_0.len() <= u64::MAX
    &&& forall|i: int|
        0 <= i < uris.len() ==> shapes::is_location(
            #[trigger] value->List_0[i],
            uris[i],
            ranges[i],
        )
}

/// A value that spells a list of definitions.
pub open spec fn are_ends(value: JsonView, uris: Seq<Seq<char>>, ranges: Seq<Range>) -> bool {
    &&& value is List
    &&& value->List_0.len() == uris.len() == ranges.len()
    &&& value->List_0.len() <= u64::MAX
    &&& forall|i: int|
        0 <= i < uris.len() ==> is_end(#[trigger] value->List_0[i], uris[i], ranges[i])
}

/// A report that tells places, one for one and in order.
pub open spec fn tells_places(
    told: Option<JsonView>,
    key: Seq<char>,
    uris: Seq<Seq<char>>,
    ranges: Seq<Range>,
    s: SourceView,
) -> bool {
    &&& tells(told, key, uris.len() as int)
    &&& forall|i: int|
        0 <= i < uris.len() ==> {
            let e = #[trigger] entry(told, key, i);
            e.text_at("file"@) == Some(s.reported(uris[i])) && shapes::points_at(e, ranges[i])
        }
}

/// Whatever places a server lists as usages, a report of them tells each.
pub open spec fn usages_answered(value: JsonView, s: SourceView, told: Option<JsonView>) -> bool {
    forall|uris: Seq<Seq<char>>, ranges: Seq<Range>| #[trigger]
        are_places(value, uris, ranges) ==> tells_places(told, "usages"@, uris, ranges, s)
}

/// Whatever definitions a server lists, a report of them under a key tells each.
pub open spec fn ends_answered(
    value: JsonView,
    s: SourceView,
    key: Seq<char>,
    told: Option<JsonView>,
) -> bool {
    key != "count"@ ==> forall|uris: Seq<Seq<char>>, ranges: Seq<Range>| #[trigger]
        are_ends(value, uris, ranges) ==> tells_places(told, key, uris, ranges, s)
}

/// The report of usages tells every place that a server lists.
pub proof fn usages_are_answered(value: JsonView, s: SourceView)
    ensures
        usages_answered(value, s, convert::usages(value, s)),
{
    assert forall|uris: Seq<Seq<char>>, ranges: Seq<Range>| #[trigger]
        are_places(value, uris, ranges) implies tells_places(
        convert::usages(value, s),
        "usages"@,
        uris,
        ranges,
        s,
    ) by {
        every_usage_is_told(value->List_0, uris, ranges, s);
    }
}

/// The report of definitions tells every one that a server lists.
pub proof fn ends_are_answered(value: JsonView, s: SourceView, key: Seq<char>)
    ensures
        ends_answered(value, s, key, convert::goto_result(value, s, key)),
{
    if key != "count"@ {
        assert forall|uris: Seq<Seq<char>>, ranges: Seq<Range>| #[trigger]
            are_ends(value, uris, ranges) implies tells_places(
            convert::goto_result(value, s, key),
            key,
            uris,
            ranges,
            s,
        ) by {
            every_definition_is_told(value->List_0, uris, ranges, s, key);
        }
    }
}

} // verus!
