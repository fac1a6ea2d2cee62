//! Answers: what several backends found is told together, up to a limit.

use crate::json::JsonView;
use crate::ops;
use vstd::prelude::*;

verus! {

/// Cutting leaves a list that is too long with its first values, as many as the
/// limit allows, and every other list as it is. It says that it cut, and says so
/// only if it did.
pub proof fn cutting_leaves_the_first(m: Map<Seq<char>, JsonView>, limit: int, k: Seq<char>)
    requires
        0 <= limit,
        k != "truncated"@,
    ensures
        ({
            let before = JsonView::Object(m);
            let after = ops::with_lists_cut(before, limit);
            &&& before.items_at(k) is Some && before.items_at(k)->Some_0.len() > limit
                ==> after.items_at(k) is Some && after.items_at(k)->Some_0.len() == limit
                && forall|i: int|
                0 <= i < limit ==> #[trigger] after.items_at(k)->Some_0[i] == before.items_at(
                    k,
                )->Some_0[i]
            &&& before.items_at(k) is Some && before.items_at(k)->Some_0.len() <= limit
                ==> after.get(k) == before.get(k)
            &&& before.items_at(k) is None ==> after.get(k) == before.get(k)
        }),
{
}

/// A result says that it was cut where one of its lists was too long, and
/// otherwise says what it said before.
pub proof fn cutting_says_so(m: Map<Seq<char>, JsonView>, limit: int)
    requires
        0 <= limit,
    ensures
        ({
            let before = JsonView::Object(m);
            let after = ops::with_lists_cut(before, limit);
            let long = exists|k: Seq<char>|
                #[trigger] before.items_at(k) is Some && before.items_at(k)->Some_0.len() > limit;
            &&& long ==> after.get("truncated"@) == Some(JsonView::Bool(true))
            &&& !long ==> after == before
        }),
{
    let before = JsonView::Object(m);
    let after = ops::with_lists_cut(before, limit);
    if exists|k: Seq<char>|
        #[trigger] before.items_at(k) is Some && before.items_at(k)->Some_0.len() > limit {
        let k = choose|k: Seq<char>|
            #[trigger] before.items_at(k) is Some && before.items_at(k)->Some_0.len() > limit;
        assert(m.contains_key(k) && ops::is_long_list(m[k], limit));
    } else {
        if ops::has_long_list(m, limit) {
            let k = choose|k: Seq<char>| #[trigger] m.contains_key(k) && ops::is_long_list(m[k], limit);
            assert(before.items_at(k) is Some && before.items_at(k)->Some_0.len() > limit);
        }
        assert forall|k: Seq<char>| #[trigger] m.contains_key(k) implies ops::cut(m[k], limit)
            == m[k] by {
            if ops::is_long_list(m[k], limit) {
                assert(before.items_at(k) is Some && before.items_at(k)->Some_0.len() > limit);
            }
        }
        assert(after->Object_0 =~= m);
    }
}

/// What is not an object has no lists to cut.
pub proof fn cutting_needs_an_object(v: JsonView, limit: int)
    requires
        !(v is Object),
    ensures
        ops::with_lists_cut(v, limit) == v,
{
}

/// One more answer is merged into what is known, field by field: numbers are
/// added, lists joined in order, flags raised if either is, objects merged in the
/// same way, and what only one of them tells is kept. Where both tell a field in
/// another way, the first counts.
pub proof fn answers_merge_field_by_field(results: Seq<JsonView>, more: JsonView, k: Seq<char>)
    requires
        results.len() > 0,
        ops::all_merged(results) is Object,
        more is Object,
    ensures
        ({
            let known = ops::all_merged(results);
            let all = ops::all_merged(results.push(more));
            &&& all is Object
            &&& more.get(k) is None ==> all.get(k) == known.get(k)
            &&& known.get(k) is None ==> all.get(k) == more.get(k)
            &&& known.items_at(k) is Some && more.items_at(k) is Some ==> all.items_at(k) == Some(
                known.items_at(k)->Some_0 + more.items_at(k)->Some_0,
            )
            &&& known.count_at(k) is Some && more.count_at(k) is Some && known.count_at(k)->Some_0
                + more.count_at(k)->Some_0 <= u64::MAX ==> all.count_at(k) == Some(
                (known.count_at(k)->Some_0 + more.count_at(k)->Some_0) as u64,
            )
            &&& known.flag_at(k) is Some && more.flag_at(k) is Some ==> all.flag_at(k) == Some(
                known.flag_at(k)->Some_0 || more.flag_at(k)->Some_0,
            )
            &&& known.text_at(k) is Some && more.get(k) is Some ==> all.get(k) == known.get(k)
            &&& known.items_at(k) is Some && more.get(k) is Some && more.items_at(k) is None
                ==> all.get(k) == known.get(k)
            &&& known.count_at(k) is Some && more.get(k) is Some && more.count_at(k) is None
                ==> all.get(k) == known.get(k)
            &&& known.get(k) is Some && more.get(k) is Some && known.get(k)->Some_0 is Object
                && more.get(k)->Some_0 is Object ==> all.get(k) == Some(
                ops::all_merged(seq![known.get(k)->Some_0, more.get(k)->Some_0]),
            )
        }),
{
    assert(results.push(more).drop_last() =~= results);
    let known = ops::all_merged(results)->Object_0;
    let added = more->Object_0;
    ops::objects_merge_by_field(known, added);
    if known.contains_key(k) && added.contains_key(k) {
        let pair = seq![known[k], added[k]];
        assert(pair.drop_last() =~= seq![known[k]]);
        assert(ops::all_merged(seq![known[k]]) == known[k]);
        assert(ops::all_merged(pair) == ops::merged(known[k], added[k]));
    }
}

/// A lone answer is told as it is, and no answer is told as nothing.
pub proof fn lone_answers_are_told_as_they_are(result: JsonView)
    ensures
        ops::all_merged(seq![result]) == result,
        ops::all_merged(Seq::empty()) == JsonView::Object(Map::empty()),
{
}

/// With a limit, what is told is what would be told without one, cut to it.
pub proof fn limits_only_cut(results: Seq<JsonView>, limit: usize)
    ensures
        ops::merged_result(results, Some(limit)) == ops::with_lists_cut(
            ops::merged_result(results, None),
            limit as int,
        ),
        ops::merged_result(results, None) == ops::all_merged(results),
{
}

/// Every value of every list that the backends report under a key is told, in the
/// order of the backends, and nothing else is.
pub proof fn nothing_found_is_lost(
    results: Seq<JsonView>,
    lists: Seq<Seq<JsonView>>,
    k: Seq<char>,
)
    requires
        results.len() > 0,
        results.len() == lists.len(),
        forall|i: int|
            0 <= i < results.len() ==> (#[trigger] results[i]).items_at(k) == Some(lists[i]),
    ensures
        ops::all_merged(results).items_at(k) == Some(lists.flatten()),
    decreases results.len(),
{
    if results.len() == 1 {
        assert(lists =~= seq![lists[0]]);
        lists.lemma_flatten_one_element();
    } else {
        let front = results.drop_last();
        let known = lists.drop_last();
        nothing_found_is_lost(front, known, k);
        answers_merge_field_by_field(front, results.last(), k);
        assert(front.push(results.last()) =~= results);
        assert(results.last().items_at(k) == Some(lists.last()));
        lists.lemma_flatten_and_flatten_alt_are_equivalent();
        known.lemma_flatten_and_flatten_alt_are_equivalent();
    }
}

/// The limit is the one that the caller asks for, else the one that the
/// operation says it has by default.
pub proof fn callers_set_the_limit(params: JsonView, schema: JsonView)
    ensures
        params.get("limit"@) is Some ==> ops::limit_of(params, schema) == ops::limit_of(
            params,
            JsonView::Null,
        ),
        params.count_at("limit"@) is Some && params.count_at("limit"@)->Some_0 <= usize::MAX
            ==> ops::limit_of(params, schema) == Some(params.count_at("limit"@)->Some_0 as usize),
        params.get("limit"@) is None && schema.get("properties"@) is Some && schema.get(
            "properties"@,
        )->Some_0.get("limit"@) is Some && schema.get("properties"@)->Some_0.get(
            "limit"@,
        )->Some_0.count_at("default"@) is Some && schema.get("properties"@)->Some_0.get(
            "limit"@,
        )->Some_0.count_at("default"@)->Some_0 <= usize::MAX ==> ops::limit_of(params, schema)
            == Some(
            schema.get("properties"@)->Some_0.get("limit"@)->Some_0.count_at(
                "default"@,
            )->Some_0 as usize,
        ),
        params.get("limit"@) is Some && params.count_at("limit"@) is None ==> ops::limit_of(
            params,
            schema,
        ) is None,
        params.get("limit"@) is None && (schema.get("properties"@) is None || schema.get(
            "properties"@,
        )->Some_0.get("limit"@) is None) ==> ops::limit_of(params, schema) is None,
{
}

/// Results that each list values under a key.
pub open spec fn list_values(
    results: Seq<JsonView>,
    lists: Seq<Seq<JsonView>>,
    k: Seq<char>,
) -> bool {
    &&& results.len() > 0
    &&& results.len() == lists.len()
    &&& forall|i: int|
        0 <= i < results.len() ==> (#[trigger] results[i]).items_at(k) == Some(lists[i])
}

/// As many of the first values as a limit allows.
pub open spec fn up_to(s: Seq<JsonView>, limit: Option<usize>) -> Seq<JsonView> {
    match limit {
        Some(limit) => if s.len() > limit {
            s.take(limit as int)
        } else {
            s
        },
        None => s,
    }
}

/// Whatever the backends list under a key, all of it is told together, in the
/// order of the backends and up to the limit.
pub open spec fn lists_told(results: Seq<JsonView>, limit: Option<usize>, told: JsonView) -> bool {
    forall|lists: Seq<Seq<JsonView>>, k: Seq<char>|
        k != "truncated"@ && #[trigger] list_values(results, lists, k) ==> told.items_at(k) == Some(
            up_to(lists.flatten(), limit),
        )
}

/// What the backends list is told together, up to the limit.
pub proof fn lists_are_told(results: Seq<JsonView>, limit: Option<usize>)
    ensures
        lists_told(results, limit, ops::merged_result(results, limit)),
{
    assert forall|lists: Seq<Seq<JsonView>>, k: Seq<char>|
        k != "truncated"@ && #[trigger] list_values(results, lists, k) implies ops::merged_result(
        results,
        limit,
    ).items_at(k) == Some(up_to(lists.flatten(), limit)) by {
        nothing_found_is_lost(results, lists, k);
        if let Some(limit) = limit {
            let known = ops::all_merged(results);
            cutting_leaves_the_first(known->Object_0, limit as int, k);
            let s = lists.flatten();
            let after = ops::with_lists_cut(known, limit as int);
            if s.len() > limit {
                assert(after.items_at(k)->Some_0 =~= s.take(limit as int));
            }
        }
    }
}

/// Results that each tell a number under a key.
pub open spec fn tell_numbers(results: Seq<JsonView>, counts: Seq<u64>, k: Seq<char>) -> bool {
    &&& results.len() > 0
    &&& results.len() == counts.len()
    &&& forall|i: int|
        0 <= i < results.len() ==> (#[trigger] results[i]).count_at(k) == Some(counts[i])
}

/// Numbers added up.
pub open spec fn sum(counts: Seq<u64>) -> int
    decreases counts.len(),
{
    if counts.len() == 0 {
        0
    } else {
        sum(counts.drop_last()) + counts.last()
    }
}

/// What the backends count is told as the sum of their counts.
pub open spec fn numbers_told(results: Seq<JsonView>, told: JsonView) -> bool {
    forall|counts: Seq<u64>, k: Seq<char>|
        k != "truncated"@ && #[trigger] tell_numbers(results, counts, k) ==> told.count_at(k) == Some(
            sum(counts) as u64,
        )
}

proof fn numbers_add_up(results: Seq<JsonView>, counts: Seq<u64>, k: Seq<char>)
    requires
        tell_numbers(results, counts, k),
        ops::all_counts_add(results),
    ensures
        0 <= sum(counts) <= u64::MAX,
        ops::all_merged(results).count_at(k) == Some(sum(counts) as u64),
    decreases results.len(),
{
    let front = results.drop_last();
    let known = counts.drop_last();
    assert(results.last().count_at(k) == Some(counts.last()));
    if results.len() == 1 {
        assert(sum(known) == 0);
    } else {
        assert forall|i: int| 0 <= i < front.len() implies (#[trigger] front[i]).count_at(k) == Some(
            known[i],
        ) by {
            assert(front[i] == results[i]);
        }
        assert(ops::all_counts_add(front)) by {
            assert forall|n: int| 2 <= n <= front.len() implies #[trigger] ops::counts_add(
                ops::all_merged(front.take(n - 1)),
                front[n - 1],
            ) by {
                assert(front.take(n - 1) =~= results.take(n - 1));
                assert(ops::counts_add(ops::all_merged(results.take(n - 1)), results[n - 1]));
            }
        }
        numbers_add_up(front, known, k);
        let n = results.len() as int;
        assert(ops::counts_add(ops::all_merged(results.take(n - 1)), results[n - 1]));
        assert(results.take(n - 1) =~= front);
        let a = ops::all_merged(front);
        let b = results.last();
        assert(ops::counts_add(a, b));
        assert(a->Object_0.contains_key(k) && b->Object_0.contains_key(k));
        assert(ops::counts_add(a->Object_0[k], b->Object_0[k]));
        answers_merge_field_by_field(front, b, k);
        assert(front.push(b) =~= results);
    }
}

/// The counts of the backends are added, whatever the limit.
pub proof fn numbers_are_told(results: Seq<JsonView>, limit: Option<usize>)
    requires
        ops::all_counts_add(results),
    ensures
        numbers_told(results, ops::merged_result(results, limit)),
{
    assert forall|counts: Seq<u64>, k: Seq<char>|
        k != "truncated"@ && #[trigger] tell_numbers(results, counts, k) implies ops::merged_result(
        results,
        limit,
    ).count_at(k) == Some(sum(counts) as u64) by {
        numbers_add_up(results, counts, k);
        if let Some(limit) = limit {
            cutting_leaves_the_first(ops::all_merged(results)->Object_0, limit as int, k);
        }
    }
}

} // verus!
