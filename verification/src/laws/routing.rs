//! Routing: which languages, and which backends, a request goes to.

use crate::convert;
use crate::error::ErrorKind;
use crate::json::JsonView;
use crate::language;
use crate::language::Language;
use crate::mcp;
use crate::mcp::Ask;
use crate::operation;
use crate::operation::LanguageRouteView;
use crate::operation::OperationDescriptorView;
use crate::operation::OperationKind;
use crate::operation::TargetKind;
use crate::operation::TargetView;
use crate::path;
use crate::uri;
use vstd::prelude::*;

verus! {

/// The language of a file goes by its extension, and by nothing else.
pub proof fn languages_go_by_extension(file: Seq<char>)
    ensures
        ({
            let ext = path::extension_of(file);
            let l = language::language_of(file);
            &&& l == Some(Language::Java) <==> ext == Some("java"@)
            &&& l == Some(Language::Rust) <==> ext == Some("rs"@)
            &&& l == Some(Language::TypeScript) <==> ext == Some("ts"@) || ext == Some("tsx"@)
                || ext == Some("mts"@) || ext == Some("cts"@)
            &&& l == Some(Language::JavaScript) <==> ext == Some("js"@) || ext == Some("jsx"@)
                || ext == Some("mjs"@) || ext == Some("cjs"@)
        }),
{
    reveal_strlit("java");
    reveal_strlit("rs");
    reveal_strlit("ts");
    reveal_strlit("tsx");
    reveal_strlit("mts");
    reveal_strlit("cts");
    reveal_strlit("js");
    reveal_strlit("jsx");
    reveal_strlit("mjs");
    reveal_strlit("cjs");
    assert("java"@.len() == 4);
    assert("rs"@.len() == 2 && "rs"@[0] == 'r');
    assert("ts"@.len() == 2 && "ts"@[0] == 't');
    assert("js"@.len() == 2 && "js"@[0] == 'j');
    assert("tsx"@.len() == 3 && "tsx"@[0] == 't');
    assert("mts"@.len() == 3 && "mts"@[0] == 'm' && "mts"@[1] == 't');
    assert("cts"@.len() == 3 && "cts"@[0] == 'c' && "cts"@[1] == 't');
    assert("jsx"@.len() == 3 && "jsx"@[0] == 'j');
    assert("mjs"@.len() == 3 && "mjs"@[0] == 'm' && "mjs"@[1] == 'j');
    assert("cjs"@.len() == 3 && "cjs"@[0] == 'c' && "cjs"@[1] == 'j');
}

/// A request about a file goes to the language of the file, if the project has
/// it, and to no other, whatever else the request says.
pub proof fn files_go_to_their_own_language(
    candidates: Seq<Language>,
    providers: spec_fn(Language) -> Option<usize>,
    d: OperationDescriptorView,
    target: TargetView,
    route: LanguageRouteView,
    l: Language,
)
    requires
        target.file() is Some,
        language::language_of(target.file()->Some_0) == Some(l),
    ensures
        candidates.contains(l) ==> mcp::answering(candidates, providers, d, target, route) == Ok::<
            Seq<Language>,
            crate::error::ErrorView,
        >(seq![l]),
        !candidates.contains(l) && providers(l) is None ==> mcp::answering(
            candidates,
            providers,
            d,
            target,
            route,
        ) is Err,
        mcp::answering(candidates, providers, d, target, route) matches Ok(languages)
            ==> languages.len() == 1 && candidates.contains(languages[0]) && (languages[0] == l
            || providers(languages[0]) == providers(l)),
{
    if !candidates.contains(l) {
        if let Some(provider) = providers(l) {
            shared(candidates, providers, provider, 0);
        }
    }
}

proof fn shared(
    candidates: Seq<Language>,
    providers: spec_fn(Language) -> Option<usize>,
    provider: usize,
    i: int,
)
    requires
        0 <= i <= candidates.len(),
    ensures
        match mcp::sharing_from(candidates, providers, provider, i) {
            Some(c) => candidates.contains(c) && providers(c) == Some(provider),
            None => forall|k: int|
                i <= k < candidates.len() ==> providers(#[trigger] candidates[k]) != Some(provider),
        },
    decreases candidates.len() - i,
{
    if i < candidates.len() {
        shared(candidates, providers, provider, i + 1);
    }
}

/// A request about a language that a candidate's backend serves too is answered
/// by that backend.
pub proof fn shared_backends_answer(
    candidates: Seq<Language>,
    providers: spec_fn(Language) -> Option<usize>,
    d: OperationDescriptorView,
    target: TargetView,
    route: LanguageRouteView,
    l: Language,
    k: int,
)
    requires
        mcp::named_language(target, route) == Some(l),
        0 <= k < candidates.len(),
        providers(l) is Some,
        providers(candidates[k]) == providers(l),
    ensures
        mcp::answering(candidates, providers, d, target, route) is Ok,
{
    if !candidates.contains(l) {
        shared(candidates, providers, providers(l)->Some_0, 0);
    }
}

/// A request that names no file goes to the language that its handle names. A
/// query about the whole project that names neither is answered by every
/// language, any other request by the first.
pub proof fn requests_without_a_file(
    candidates: Seq<Language>,
    providers: spec_fn(Language) -> Option<usize>,
    d: OperationDescriptorView,
    route: LanguageRouteView,
)
    ensures
        ({
            let answered = mcp::answering(candidates, providers, d, TargetView::Project, route);
            let whole = d.target == TargetKind::Project && d.kind == OperationKind::Query;
            &&& route matches LanguageRouteView::Language(l) ==> (candidates.contains(l)
                ==> answered is Ok && answered->Ok_0 == seq![l])
            &&& route is Unplaceable ==> answered is Err && answered->Err_0.kind
                == ErrorKind::InvalidTarget
            &&& route is Unspecified && whole ==> answered is Ok && answered->Ok_0 == candidates
            &&& route is Unspecified && !whole && candidates.len() > 0 ==> answered is Ok
                && answered->Ok_0 == seq![candidates[0]]
        }),
{
}

/// The languages that may answer are those of the project that have the
/// operation, in the order of the project.
pub proof fn candidates_have_the_operation<O>(
    operations: Seq<(OperationDescriptorView, O)>,
    id: Seq<char>,
    languages: Seq<Language>,
    more: Language,
)
    ensures
        ({
            let listed = exists|i: int|
                0 <= i < operations.len() && (#[trigger] operations[i]).0.id == id
                    && operations[i].0.languages.contains(more);
            let before = mcp::candidates_in(operations, id, languages);
            let after = mcp::candidates_in(operations, id, languages.push(more));
            &&& listed ==> after == before.push(more)
            &&& !listed ==> after == before
        }),
        mcp::candidates_in(operations, id, Seq::empty()).len() == 0,
{
    reveal(Seq::filter);
    assert(languages.push(more).drop_last() =~= languages);
    operation::resolved_operation_serves(operations, id, more, 0);
    if let Some(k) = operation::serving_from(operations, id, more, 0) {
        assert(operations[k].0.id == id && operations[k].0.languages.contains(more));
    }
}

/// A handle belongs to the language of the file that its URI names, the query
/// and fragment of the URI aside.
pub proof fn handles_belong_to_their_file(params: JsonView, item: JsonView, p: Seq<char>)
    requires
        params.get("item"@) == Some(item),
        item.text_at("uri"@) == Some(p),
        forall|i: int| 0 <= i < p.len() ==> p[i] != '?' && p[i] != '#',
    ensures
        match language::language_of(uri::path_of(p)) {
            Some(l) => convert::item_route(params) == LanguageRouteView::Language(l),
            None => convert::item_route(params) == LanguageRouteView::Unplaceable(p),
        },
{
    no_end(p, 0);
    assert(p.take(p.len() as int) =~= p);
}

proof fn no_end(p: Seq<char>, i: int)
    requires
        0 <= i <= p.len(),
        forall|k: int| 0 <= k < p.len() ==> p[k] != '?' && p[k] != '#',
    ensures
        uri::path_end(p, i) == p.len(),
    decreases p.len() - i,
{
    if i < p.len() {
        no_end(p, i + 1);
    }
}

/// A request without a handle names no language.
pub proof fn no_handle_names_no_language(params: JsonView)
    requires
        params.get("item"@) is None || params.get("item"@)->Some_0.text_at("uri"@) is None,
    ensures
        convert::item_route(params) == LanguageRouteView::Unspecified,
{
}

/// Backends are asked in the order of the languages, and a plan without a
/// failure asks one for every backend of a language: those planned first stay in
/// front.
pub proof fn plans_follow_the_languages<O>(
    languages: Seq<Language>,
    providers: spec_fn(Language) -> Option<usize>,
    operations: Seq<(OperationDescriptorView, O)>,
    id: Seq<char>,
    i: int,
    asks: Seq<Ask>,
)
    requires
        0 <= i < languages.len(),
    ensures
        ({
            let l = languages[i];
            let after = mcp::planned(languages, providers, operations, id, i, asks);
            let known = exists|k: int|
                0 <= k < asks.len() && Some((#[trigger] asks[k]).provider) == providers(l);
            &&& providers(l) is None ==> after.0 == asks && after.1 is Some && after.1->Some_0.kind
                == ErrorKind::Backend
            &&& providers(l) is Some && known ==> after == mcp::planned(
                languages,
                providers,
                operations,
                id,
                i + 1,
                asks,
            )
            &&& providers(l) is Some && !known && !operation::served(operations, id, l) ==> after.0
                == asks && after.1 is Some && after.1->Some_0.kind
                == ErrorKind::OperationNotAvailable && after.1->Some_0.detail == id
            &&& providers(l) is Some && !known && operation::served(operations, id, l)
                && operations.len() <= usize::MAX ==> exists|a: Ask|
                {
                    &&& a.language == l
                    &&& Some(a.provider) == providers(l)
                    &&& a.operation < operations.len()
                    &&& operations[a.operation as int].0.id == id
                    &&& operations[a.operation as int].0.languages.contains(l)
                    &&& after == #[trigger] mcp::planned(
                        languages,
                        providers,
                        operations,
                        id,
                        i + 1,
                        asks.push(a),
                    )
                }
        }),
        mcp::planned(languages, providers, operations, id, languages.len() as int, asks) == (
            asks,
            None::<crate::error::ErrorView>,
        ),
{
    let l = languages[i];
    if let Some(provider) = providers(l) {
        let known = exists|k: int|
            0 <= k < asks.len() && Some((#[trigger] asks[k]).provider) == providers(l);
        if known {
            let k = choose|k: int|
                0 <= k < asks.len() && Some((#[trigger] asks[k]).provider) == providers(l);
            assert(asks[k].provider == provider);
            assert(mcp::is_asked(asks, provider));
        } else if mcp::is_asked(asks, provider) {
            let k = choose|k: int| 0 <= k < asks.len() && (#[trigger] asks[k]).provider == provider;
            assert(Some(asks[k].provider) == providers(l));
        } else if let Some(at) = operation::serving_from(operations, id, l, 0) {
            operation::what_serves_is_listed(operations, id, l, 0);
            let a = Ask { language: l, provider, operation: at as usize };
            assert(mcp::planned(languages, providers, operations, id, i, asks) == mcp::planned(
                languages,
                providers,
                operations,
                id,
                i + 1,
                asks.push(a),
            ));
        }
    }
}

} // verus!
