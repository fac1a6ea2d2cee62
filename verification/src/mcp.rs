//! Serving operations: which languages answer a request, in which working copy
//! it acts, and what its answer looks like.

use crate::edit;
use crate::error;
use crate::error::Error;
use crate::error::ErrorKind;
use crate::error::ErrorView;
use crate::json;
use crate::json::Json;
use crate::json::JsonView;
use crate::json::Object;
use crate::language;
use crate::language::Language;
use crate::operation;
use crate::operation::LanguageRoute;
use crate::operation::LanguageRouteView;
use crate::operation::Operation;
use crate::operation::OperationDescriptor;
use crate::operation::OperationDescriptorView;
use crate::operation::OperationKind;
use crate::operation::OperationRegistry;
use crate::operation::Target;
use crate::operation::TargetKind;
use crate::operation::TargetView;
use crate::ops;
use crate::path;
use crate::pathmap;
use crate::pathmap::PathMap;
use crate::project::Project;
use crate::protocol;
use crate::protocol::McpError;
use crate::protocol::McpErrorView;
use crate::protocol::Tool;
use crate::protocol::ToolView;
use crate::text;
use crate::view;
use crate::wire;
use vstd::prelude::*;

verus! {

// ---------------------------------------------------------------------------
// Which languages answer
// ---------------------------------------------------------------------------

/// Which backend serves which language. A backend is known by a number; one
/// backend may serve several languages.
#[derive(Debug)]
pub struct Providers {
    serving: Vec<(Language, usize)>,
}

/// The backend of a language among those registered, the latest first.
pub open spec fn provider_upto(
    serving: Seq<(Language, usize)>,
    language: Language,
    n: int,
) -> Option<usize>
    decreases n,
{
    if n <= 0 {
        None
    } else if serving[n - 1].0 == language {
        Some(serving[n - 1].1)
    } else {
        provider_upto(serving, language, n - 1)
    }
}

impl View for Providers {
    type V = spec_fn(Language) -> Option<usize>;

    closed spec fn view(&self) -> spec_fn(Language) -> Option<usize> {
        |l: Language| provider_upto(self.serving@, l, self.serving@.len() as int)
    }
}

impl Providers {
    /// No backends.
    pub fn new() -> (r: Providers)
        ensures
            forall|l: Language| #[trigger] (r@)(l) is None,
    {
        Providers { serving: Vec::new() }
    }

    /// Lets a backend serve a language, in place of one that did.
    pub fn register(&mut self, language: Language, provider: usize)
        ensures
            forall|l: Language| #[trigger]
                (final(self)@)(l) == (if l == language {
                    Some(provider)
                } else {
                    (old(self)@)(l)
                }),
    {
        let ghost before = self.serving@;
        self.serving.push((language, provider));
        proof {
            assert forall|l: Language| #[trigger]
                (self@)(l) == (if l == language {
                    Some(provider)
                } else {
                    (old(self)@)(l)
                }) by {
                provider_upto_same(before, self.serving@, l, before.len() as int);
            }
        }
    }

    /// The backend that serves a language.
    pub fn get(&self, language: Language) -> (r: Option<usize>)
        ensures
            r == (self@)(language),
    {
        let mut n: usize = self.serving.len();
        while n > 0
            invariant
                n <= self.serving@.len(),
                provider_upto(self.serving@, language, self.serving@.len() as int)
                    == provider_upto(self.serving@, language, n as int),
            decreases n,
        {
            if self.serving[n - 1].0 == language {
                return Some(self.serving[n - 1].1);
            }
            n -= 1;
        }
        None
    }
}

proof fn provider_upto_same(
    a: Seq<(Language, usize)>,
    b: Seq<(Language, usize)>,
    language: Language,
    n: int,
)
    requires
        n <= a.len(),
        n <= b.len(),
        forall|i: int| 0 <= i < n ==> a[i] == b[i],
    ensures
        provider_upto(a, language, n) == provider_upto(b, language, n),
    decreases n,
{
    if n > 0 {
        provider_upto_same(a, b, language, n - 1);
    }
}

/// The first of some languages, from `i` on, that a backend serves.
pub open spec fn sharing_from(
    candidates: Seq<Language>,
    providers: spec_fn(Language) -> Option<usize>,
    provider: usize,
    i: int,
) -> Option<Language>
    decreases candidates.len() - i,
{
    if i < 0 || i >= candidates.len() {
        None
    } else if providers(candidates[i]) == Some(provider) {
        Some(candidates[i])
    } else {
        sharing_from(candidates, providers, provider, i + 1)
    }
}

/// The candidate whose backend serves a language: the language itself where it
/// is one, or else the first that has the same backend.
pub open spec fn candidate_for(
    candidates: Seq<Language>,
    providers: spec_fn(Language) -> Option<usize>,
    language: Language,
) -> Option<Language> {
    if candidates.contains(language) {
        Some(language)
    } else {
        match providers(language) {
            Some(provider) => sharing_from(candidates, providers, provider, 0),
            None => None,
        }
    }
}

/// The candidate whose backend serves a language.
pub fn serving_candidate(
    candidates: &Vec<Language>,
    providers: &Providers,
    language: Language,
) -> (r: Option<Language>)
    ensures
        r == candidate_for(candidates@, providers@, language),
{
    if language::contains(candidates, language) {
        return Some(language);
    }
    let serving = match providers.get(language) {
        Some(serving) => serving,
        None => {
            return None;
        },
    };
    let mut i: usize = 0;
    while i < candidates.len()
        invariant
            i <= candidates@.len(),
            !candidates@.contains(language),
            (providers@)(language) == Some(serving),
            sharing_from(candidates@, providers@, serving, 0) == sharing_from(
                candidates@,
                providers@,
                serving,
                i as int,
            ),
        decreases candidates@.len() - i,
    {
        if let Some(provider) = providers.get(candidates[i]) {
            if provider == serving {
                return Some(candidates[i]);
            }
        }
        i += 1;
    }
    None
}

/// The language that a request names: that of its target's file, or else the
/// one its parameters belong to.
pub open spec fn named_language(
    target: TargetView,
    route: LanguageRouteView,
) -> Option<Language> {
    match target.file() {
        Some(file) => match language::language_of(file) {
            Some(l) => Some(l),
            None => route.language(),
        },
        None => route.language(),
    }
}

/// The failure for a language that an operation does not serve.
pub open spec fn not_served(id: Seq<char>, l: Language) -> ErrorView {
    ErrorView {
        kind: ErrorKind::InvalidTarget,
        detail: "`"@ + id + "` is not served for `"@ + language::language_name(l)
            + "` in this project"@,
    }
}

/// The failure for a handle that cannot be placed.
pub open spec fn not_placed(id: Seq<char>, handle: Seq<char>) -> ErrorView {
    ErrorView {
        kind: ErrorKind::InvalidTarget,
        detail: "cannot tell which language `"@ + handle + "` belongs to, so `"@ + id
            + "` has nowhere to run;                  pass a handle this project's servers issued"@,
    }
}

/// The languages that answer a request.
pub open spec fn answering(
    candidates: Seq<Language>,
    providers: spec_fn(Language) -> Option<usize>,
    d: OperationDescriptorView,
    target: TargetView,
    route: LanguageRouteView,
) -> Result<Seq<Language>, ErrorView> {
    match named_language(target, route) {
        Some(l) => match candidate_for(candidates, providers, l) {
            Some(c) => Ok(seq![c]),
            None => Err(not_served(d.id, l)),
        },
        None => match route {
            LanguageRouteView::Unplaceable(handle) => Err(not_placed(d.id, handle)),
            _ => if d.target == TargetKind::Project && d.kind == OperationKind::Query {
                Ok(candidates)
            } else if candidates.len() > 0 {
                Ok(seq![candidates[0]])
            } else {
                Ok(Seq::empty())
            },
        },
    }
}

/// The languages that answer a request.
///
/// The one that the request names, by its file or by its parameters, through
/// the candidate whose backend serves it. Where it names none, all candidates
/// answer a query on the project, since each may know a part of the answer, and
/// the first candidate answers anything else.
///
/// A request that names where it belongs and cannot go there is refused. Other
/// backends are not asked: what they say would hide the right answer.
pub fn dispatch_languages(
    candidates: &Vec<Language>,
    providers: &Providers,
    descriptor: &OperationDescriptor,
    target: &Target,
    route: &LanguageRoute,
) -> (r: Result<Vec<Language>, Error>)
    ensures
        error::outcome(r) == answering(
            candidates@,
            providers@,
            descriptor@,
            target@,
            route@,
        ),
{
    let from_file = match target.file() {
        Some(file) => Language::from_path(file.as_str()),
        None => None,
    };
    let named = match from_file {
        Some(l) => Some(l),
        None => route.language(),
    };
    if let Some(l) = named {
        return match serving_candidate(candidates, providers, l) {
            Some(c) => {
                let mut one: Vec<Language> = Vec::new();
                one.push(c);
                assert(one@ =~= seq![c]);
                Ok(one)
            },
            None => {
                let head = text::cat3("`", descriptor.id.as_str(), "` is not served for `");
                Err(
                    Error::new(
                        ErrorKind::InvalidTarget,
                        text::cat3(head.as_str(), l.as_str(), "` in this project"),
                    ),
                )
            },
        };
    }
    if let LanguageRoute::Unplaceable(handle) = route {
        let head = text::cat3(
            "cannot tell which language `",
            handle.as_str(),
            "` belongs to, so `",
        );
        return Err(
            Error::new(
                ErrorKind::InvalidTarget,
                text::cat3(
                    head.as_str(),
                    descriptor.id.as_str(),
                    "` has nowhere to run;                  pass a handle this project's servers issued",
                ),
            ),
        );
    }
    if descriptor.target == TargetKind::Project && descriptor.kind == OperationKind::Query {
        let all = candidates.clone();
        assert(all@ =~= candidates@);
        return Ok(all);
    }
    let mut first: Vec<Language> = Vec::new();
    if candidates.len() > 0 {
        first.push(candidates[0]);
        assert(first@ =~= seq![candidates@[0]]);
    } else {
        assert(first@ =~= Seq::empty());
    }
    Ok(first)
}

/// A request that names a language is answered by one language at most, and
/// never by one outside the candidates.
pub proof fn named_requests_never_fan_out(
    candidates: Seq<Language>,
    providers: spec_fn(Language) -> Option<usize>,
    d: OperationDescriptorView,
    target: TargetView,
    route: LanguageRouteView,
)
    requires
        named_language(target, route) is Some || route is Unplaceable,
    ensures
        match answering(candidates, providers, d, target, route) {
            Ok(languages) => languages.len() == 1 && candidates.contains(languages[0]),
            Err(e) => e.kind == ErrorKind::InvalidTarget,
        },
{
    if let Some(l) = named_language(target, route) {
        if !candidates.contains(l) {
            if let Some(provider) = providers(l) {
                sharing_is_candidate(candidates, providers, provider, 0);
            }
        }
    }
}

/// Where there is one candidate, it answers whatever is answered at all.
pub proof fn one_candidate_answers_everything(
    candidate: Language,
    providers: spec_fn(Language) -> Option<usize>,
    d: OperationDescriptorView,
    target: TargetView,
    route: LanguageRouteView,
)
    ensures
        answering(seq![candidate], providers, d, target, route) matches Ok(languages) ==> languages
            == seq![candidate],
{
    let candidates = seq![candidate];
    if let Some(l) = named_language(target, route) {
        if !candidates.contains(l) {
            if let Some(provider) = providers(l) {
                sharing_is_candidate(candidates, providers, provider, 0);
            }
        } else {
            assert(l == candidate);
        }
    }
}

proof fn sharing_is_candidate(
    candidates: Seq<Language>,
    providers: spec_fn(Language) -> Option<usize>,
    provider: usize,
    i: int,
)
    requires
        0 <= i <= candidates.len(),
    ensures
        match sharing_from(candidates, providers, provider, i) {
            Some(c) => candidates.contains(c) && providers(c) == Some(provider),
            None => true,
        },
    decreases candidates.len() - i,
{
    if i < candidates.len() {
        sharing_is_candidate(candidates, providers, provider, i + 1);
        assert(candidates.contains(candidates[i]));
    }
}

// ---------------------------------------------------------------------------
// Which backends are asked
// ---------------------------------------------------------------------------

/// One backend to ask: the language it is asked for, its number, and the place
/// of the operation in the catalog.
#[derive(Clone, Copy, Debug, PartialEq, Eq, Structural)]
pub struct Ask {
    /// The language.
    pub language: Language,
    /// The backend.
    pub provider: usize,
    /// The operation.
    pub operation: usize,
}

/// The backends to ask, in order, and the failure that ends it early.
#[derive(Debug)]
pub struct Plan {
    /// Whom to ask.
    pub asks: Vec<Ask>,
    /// What comes out after they were asked, where it is not their answers.
    pub failure: Option<Error>,
}

/// The failure for a language without a backend.
pub open spec fn no_provider(l: Language) -> ErrorView {
    ErrorView {
        kind: ErrorKind::Backend,
        detail: "no provider registered for `"@ + language::language_name(l) + "`"@,
    }
}

/// Whether a backend is among those to ask.
pub open spec fn is_asked(asks: Seq<Ask>, provider: usize) -> bool {
    exists|i: int| 0 <= i < asks.len() && (#[trigger] asks[i]).provider == provider
}

/// What asking for the languages from `i` on adds to those asked already. A
/// backend that serves several languages answers for all of them at once, so
/// it is asked once.
pub open spec fn planned<O>(
    languages: Seq<Language>,
    providers: spec_fn(Language) -> Option<usize>,
    operations: Seq<(OperationDescriptorView, O)>,
    id: Seq<char>,
    i: int,
    asks: Seq<Ask>,
) -> (Seq<Ask>, Option<ErrorView>)
    decreases languages.len() - i,
{
    if i < 0 || i >= languages.len() {
        (asks, None)
    } else {
        match providers(languages[i]) {
            None => (asks, Some(no_provider(languages[i]))),
            Some(provider) => if is_asked(asks, provider) {
                planned(languages, providers, operations, id, i + 1, asks)
            } else {
                match operation::serving_from(operations, id, languages[i], 0) {
                    None => (
                        asks,
                        Some(
                            ErrorView { kind: ErrorKind::OperationNotAvailable, detail: id },
                        ),
                    ),
                    Some(k) => planned(
                        languages,
                        providers,
                        operations,
                        id,
                        i + 1,
                        asks.push(
                            Ask { language: languages[i], provider, operation: k as usize },
                        ),
                    ),
                }
            },
        }
    }
}

/// Whether a backend is among those to ask.
fn already_asked(asks: &Vec<Ask>, provider: usize) -> (r: bool)
    ensures
        r == is_asked(asks@, provider),
{
    let mut i: usize = 0;
    while i < asks.len()
        invariant
            i <= asks@.len(),
            forall|k: int| 0 <= k < i ==> (#[trigger] asks@[k]).provider != provider,
        decreases asks@.len() - i,
    {
        if asks[i].provider == provider {
            return true;
        }
        i += 1;
    }
    false
}

/// Plans whom to ask for some languages.
pub fn plan<O: Operation>(
    languages: &Vec<Language>,
    providers: &Providers,
    operations: &OperationRegistry<O>,
    id: &str,
) -> (r: Plan)
    ensures
        (r.asks@, view::maybe(r.failure)) == planned(
            languages@,
            providers@,
            operations@,
            id@,
            0,
            Seq::empty(),
        ),
{
    let mut asks: Vec<Ask> = Vec::new();
    let mut i: usize = 0;
    assert(asks@ =~= Seq::empty());
    while i < languages.len()
        invariant
            i <= languages@.len(),
            planned(languages@, providers@, operations@, id@, 0, Seq::empty()) == planned(
                languages@,
                providers@,
                operations@,
                id@,
                i as int,
                asks@,
            ),
        decreases languages@.len() - i,
    {
        let l = languages[i];
        let provider = match providers.get(l) {
            Some(provider) => provider,
            None => {
                let detail = text::cat3("no provider registered for `", l.as_str(), "`");
                return Plan { asks, failure: Some(Error::new(ErrorKind::Backend, detail)) };
            },
        };
        if !already_asked(&asks, provider) {
            match operations.find(id, l) {
                Some(k) => {
                    asks.push(Ask { language: l, provider, operation: k });
                },
                None => {
                    return Plan {
                        asks,
                        failure: Some(
                            Error::new(ErrorKind::OperationNotAvailable, id.to_owned()),
                        ),
                    };
                },
            }
        }
        i += 1;
    }
    Plan { asks, failure: None }
}

/// No backend occurs twice.
pub open spec fn each_asked_once(asks: Seq<Ask>) -> bool {
    forall|i: int, j: int|
        0 <= i < j < asks.len() ==> (#[trigger] asks[i]).provider != (#[trigger] asks[j]).provider
}

/// No backend is asked twice; what was planned first stays planned; and unless
/// the plan ends early, the backend of every language is asked.
pub proof fn every_backend_is_asked_once<O>(
    languages: Seq<Language>,
    providers: spec_fn(Language) -> Option<usize>,
    operations: Seq<(OperationDescriptorView, O)>,
    id: Seq<char>,
    i: int,
    asks: Seq<Ask>,
)
    requires
        0 <= i <= languages.len(),
        each_asked_once(asks),
    ensures
        ({
            let (after, failure) = planned(languages, providers, operations, id, i, asks);
            &&& each_asked_once(after)
            &&& asks.is_prefix_of(after)
            &&& failure is None ==> forall|k: int|
                i <= k < languages.len() ==> providers(#[trigger] languages[k]) is Some
                    && is_asked(after, providers(languages[k])->Some_0)
        }),
    decreases languages.len() - i,
{
    let (after, failure) = planned(languages, providers, operations, id, i, asks);
    assert(asks.is_prefix_of(asks));
    if i < languages.len() {
        if let Some(provider) = providers(languages[i]) {
            if is_asked(asks, provider) {
                every_backend_is_asked_once(languages, providers, operations, id, i + 1, asks);
                let a = choose|a: int| 0 <= a < asks.len() && (#[trigger] asks[a]).provider == provider;
                assert(after[a] == asks[a]) by {
                    assert(asks =~= after.subrange(0, asks.len() as int));
                }
            } else if let Some(k) = operation::serving_from(operations, id, languages[i], 0) {
                let next = asks.push(
                    Ask { language: languages[i], provider, operation: k as usize },
                );
                assert(each_asked_once(next));
                every_backend_is_asked_once(languages, providers, operations, id, i + 1, next);
                assert(next =~= after.subrange(0, next.len() as int));
                assert(after[asks.len() as int] == next[asks.len() as int]);
                assert(asks =~= after.subrange(0, asks.len() as int)) by {
                    assert forall|a: int| 0 <= a < asks.len() implies asks[a] == after[a] by {
                        assert(next[a] == after[a]);
                    }
                }
            }
        }
    }
}

/// Whether a question goes to the backend of the language it is about, and to
/// the first operation that serves that language under the id.
pub open spec fn asks_for_its_language<O>(
    a: Ask,
    providers: spec_fn(Language) -> Option<usize>,
    operations: Seq<(OperationDescriptorView, O)>,
    id: Seq<char>,
) -> bool {
    &&& providers(a.language) == Some(a.provider)
    &&& a.operation < operations.len()
    &&& operation::serves(operations[a.operation as int].0, id, a.language)
    &&& operation::serving_from(operations, id, a.language, 0) == Some(a.operation as int)
}

/// The operation and the session of every question that is planned are those of
/// one language that was asked for: the backend is the one that is registered
/// for it, and the operation serves it.
pub proof fn backends_run_their_own_operations<O>(
    languages: Seq<Language>,
    providers: spec_fn(Language) -> Option<usize>,
    operations: Seq<(OperationDescriptorView, O)>,
    id: Seq<char>,
    i: int,
    asks: Seq<Ask>,
)
    requires
        0 <= i <= languages.len(),
        operations.len() <= usize::MAX,
        forall|k: int|
            0 <= k < asks.len() ==> asks_for_its_language(
                #[trigger] asks[k],
                providers,
                operations,
                id,
            ) && languages.contains(asks[k].language),
    ensures
        ({
            let after = planned(languages, providers, operations, id, i, asks).0;
            forall|k: int|
                0 <= k < after.len() ==> asks_for_its_language(
                    #[trigger] after[k],
                    providers,
                    operations,
                    id,
                ) && languages.contains(after[k].language)
        }),
    decreases languages.len() - i,
{
    if i < languages.len() {
        if let Some(provider) = providers(languages[i]) {
            if is_asked(asks, provider) {
                backends_run_their_own_operations(
                    languages,
                    providers,
                    operations,
                    id,
                    i + 1,
                    asks,
                );
            } else if let Some(k) = operation::serving_from(operations, id, languages[i], 0) {
                operation::what_serves_is_listed(operations, id, languages[i], 0);
                let next = asks.push(
                    Ask { language: languages[i], provider, operation: k as usize },
                );
                backends_run_their_own_operations(
                    languages,
                    providers,
                    operations,
                    id,
                    i + 1,
                    next,
                );
            }
        }
    }
}

// ---------------------------------------------------------------------------
// The handler
// ---------------------------------------------------------------------------

/// What calls are handled with: the backends, the catalog of operations, the
/// map of paths, and the directories whose children are projects.
#[derive(Debug)]
pub struct HenkaMcp<O> {
    providers: Providers,
    operations: OperationRegistry<O>,
    path_map: PathMap,
    auto_register_roots: Vec<String>,
}

/// A call, by the name of the tool.
#[derive(Debug)]
pub enum Call {
    /// A project is to be registered.
    RegisterProject,
    /// A project is to be forgotten.
    UnregisterProject,
    /// The projects are asked for.
    ListProjects,
    /// The state of a project is asked for.
    ProjectStatus,
    /// The operations of a project are asked for.
    ListOperations,
    /// An operation is to be run.
    Operation,
}

/// Which call the name of a tool stands for.
pub open spec fn call_of(name: Seq<char>) -> Call {
    if name == "register_project"@ {
        Call::RegisterProject
    } else if name == "unregister_project"@ {
        Call::UnregisterProject
    } else if name == "list_projects"@ {
        Call::ListProjects
    } else if name == "project_status"@ {
        Call::ProjectStatus
    } else if name == "list_operations"@ {
        Call::ListOperations
    } else {
        Call::Operation
    }
}

/// Which call the name of a tool stands for. A name that is none of the fixed
/// tools is that of an operation.
pub fn call_named(name: &str) -> (r: Call)
    ensures
        r == call_of(name@),
{
    if text::same(name, "register_project") {
        Call::RegisterProject
    } else if text::same(name, "unregister_project") {
        Call::UnregisterProject
    } else if text::same(name, "list_projects") {
        Call::ListProjects
    } else if text::same(name, "project_status") {
        Call::ProjectStatus
    } else if text::same(name, "list_operations") {
        Call::ListOperations
    } else {
        Call::Operation
    }
}

/// A call with what its arguments say.
#[derive(Debug, PartialEq, Eq)]
pub enum Command {
    /// A source tree is registered as a project.
    Register {
        /// The id it is to have, where the caller gives one.
        id: Option<String>,
        /// The path as the caller knows it.
        requested: String,
        /// The path as the server knows it.
        root: String,
    },
    /// A project is forgotten.
    Unregister(String),
    /// The projects are listed.
    ListProjects,
    /// The state of a project is told.
    Status(String),
    /// The operations of a project are listed.
    ListOperations(String),
    /// An operation is run on a project.
    Operate(String),
}

/// What such a call is.
#[verifier::ext_equal]
pub enum CommandView {
    /// A source tree is registered as a project.
    Register {
        /// The id it is to have.
        id: Option<Seq<char>>,
        /// The path as the caller knows it.
        requested: Seq<char>,
        /// The path as the server knows it.
        root: Seq<char>,
    },
    /// A project is forgotten.
    Unregister(Seq<char>),
    /// The projects are listed.
    ListProjects,
    /// The state of a project is told.
    Status(Seq<char>),
    /// The operations of a project are listed.
    ListOperations(Seq<char>),
    /// An operation is run on a project.
    Operate(Seq<char>),
}

impl View for Command {
    type V = CommandView;

    open spec fn view(&self) -> CommandView {
        match *self {
            Command::Register { id, requested, root } => CommandView::Register {
                id: view::maybe(id),
                requested: requested@,
                root: root@,
            },
            Command::Unregister(id) => CommandView::Unregister(id@),
            Command::ListProjects => CommandView::ListProjects,
            Command::Status(id) => CommandView::Status(id@),
            Command::ListOperations(id) => CommandView::ListOperations(id@),
            Command::Operate(id) => CommandView::Operate(id@),
        }
    }
}

/// What a call is, by the name of the tool and its arguments. `complaint` is
/// what is said of arguments of another shape, and `paths` maps those of the
/// caller to the server's.
pub open spec fn command_of(
    name: Seq<char>,
    args: Map<Seq<char>, JsonView>,
    complaint: Seq<char>,
    paths: Seq<(Seq<char>, Seq<char>)>,
) -> Result<CommandView, McpErrorView> {
    let given = JsonView::Object(args);
    let wrong = protocol::invalid("invalid arguments: "@ + complaint);
    match call_of(name) {
        Call::RegisterProject => match (
            wire::text_of(given.get("root"@)),
            wire::maybe_text(given.get("id"@)),
        ) {
            (Some(root), Some(id)) => Ok(
                CommandView::Register { id, requested: root, root: pathmap::mapped(paths, root) },
            ),
            _ => Err(wrong),
        },
        Call::UnregisterProject => match wire::text_of(given.get("id"@)) {
            Some(id) => Ok(CommandView::Unregister(id)),
            None => Err(wrong),
        },
        Call::ListProjects => Ok(CommandView::ListProjects),
        Call::ProjectStatus => match wire::text_of(given.get("id"@)) {
            Some(id) => Ok(CommandView::Status(id)),
            None => Err(wrong),
        },
        Call::ListOperations => match wire::text_of(given.get("project"@)) {
            Some(id) => Ok(CommandView::ListOperations(id)),
            None => Err(wrong),
        },
        Call::Operation => match given.text_at("project"@) {
            Some(id) => Ok(CommandView::Operate(id)),
            None => Err(protocol::invalid("missing required `project`"@)),
        },
    }
}

/// What a call is, by the name of the tool and its arguments.
pub fn read_command(name: &str, args: &Object, complaint: &str, map: &PathMap) -> (r: Result<
    Command,
    McpError,
>)
    ensures
        protocol::reply(r) == command_of(name@, args@, complaint@, map@),
{
    match call_named(name) {
        Call::RegisterProject => {
            if let (Some(requested), Some(id)) = (
                wire::get_text(args.get("root")),
                wire::get_maybe_text(args.get("id")),
            ) {
                let root = map.map(requested.as_str());
                return Ok(Command::Register { id, requested, root });
            }
        },
        Call::UnregisterProject => {
            if let Some(id) = wire::get_text(args.get("id")) {
                return Ok(Command::Unregister(id));
            }
        },
        Call::ListProjects => {
            return Ok(Command::ListProjects);
        },
        Call::ProjectStatus => {
            if let Some(id) = wire::get_text(args.get("id")) {
                return Ok(Command::Status(id));
            }
        },
        Call::ListOperations => {
            if let Some(id) = wire::get_text(args.get("project")) {
                return Ok(Command::ListOperations(id));
            }
        },
        Call::Operation => {
            return match ops::project_id(args) {
                Ok(id) => Ok(Command::Operate(id)),
                Err(e) => Err(e),
            };
        },
    }
    Err(McpError::invalid_params(text::cat("invalid arguments: ", complaint)))
}

/// The schemas of the arguments of the fixed tools.
#[derive(Debug)]
pub struct ToolSchemas {
    /// Of the tool that registers a project.
    pub register: Object,
    /// Of the tools that take the id of a project.
    pub project: Object,
    /// Of the tool that takes nothing.
    pub none: Object,
    /// Of the tool that lists the operations of a project.
    pub operations: Object,
}

/// What the tool that registers a project does.
pub const REGISTER_DESCRIPTION: &'static str = "Register a local source tree as a project so it can be operated on. Detects the project's languages and persists the registration across restarts.";

/// What the tool that forgets a project does.
pub const UNREGISTER_DESCRIPTION: &'static str = "Forget a registered project. Never deletes source.";

/// What the tool that lists the projects does.
pub const LIST_DESCRIPTION: &'static str = "List all registered projects with their roots and detected languages.";

/// What the tool that tells the state of a project does.
pub const STATUS_DESCRIPTION: &'static str = "Report a registered project's root, detected languages, and the version-control state Henka reads it at: revision, branch, repo root, dirty, the changed-file set, and a content digest of the working copy. Compare `revision`/`digest`/`changed_files` against your own checkout (not the path \u{2014} the server may mount it elsewhere) to confirm Henka sees the same tree, including uncommitted edits, before trusting position-targeted coordinates.";

/// What the tool that lists the operations of a project does.
pub const OPERATIONS_DESCRIPTION: &'static str = "List the operations (refactorings, structural replace, semantic queries) available for a project, each with its kind, target, and parameters.";

/// A fixed tool.
pub open spec fn fixed_tool(
    name: &str,
    description: &str,
    schema: Map<Seq<char>, JsonView>,
) -> ToolView {
    ToolView { name: name@, description: description@, input_schema: schema }
}

/// The fixed tools.
pub open spec fn fixed_tools(schemas: ToolSchemas) -> Seq<ToolView> {
    seq![
        fixed_tool("register_project", REGISTER_DESCRIPTION, schemas.register@),
        fixed_tool("unregister_project", UNREGISTER_DESCRIPTION, schemas.project@),
        fixed_tool("list_projects", LIST_DESCRIPTION, schemas.none@),
        fixed_tool("project_status", STATUS_DESCRIPTION, schemas.project@),
        fixed_tool("list_operations", OPERATIONS_DESCRIPTION, schemas.operations@),
    ]
}

/// The tool for an operation.
pub open spec fn tool_for(d: OperationDescriptorView) -> ToolView {
    ToolView {
        name: d.id,
        description: ops::tool_description(d),
        input_schema: ops::tool_schema(d),
    }
}

/// The languages of a project that have an operation under an id.
pub open spec fn candidates_in<O>(
    operations: Seq<(OperationDescriptorView, O)>,
    id: Seq<char>,
    languages: Seq<Language>,
) -> Seq<Language> {
    languages.filter(|l: Language| operation::served(operations, id, l))
}

/// The failure for an operation that a project does not have.
pub open spec fn not_available(id: Seq<char>) -> ErrorView {
    ErrorView { kind: ErrorKind::OperationNotAvailable, detail: id }
}

/// The place in the catalog of an operation that describes an id: that of the
/// first language which has it.
pub open spec fn describing<O>(
    operations: Seq<(OperationDescriptorView, O)>,
    id: Seq<char>,
    languages: Seq<Language>,
) -> Option<int> {
    let candidates = candidates_in(operations, id, languages);
    if candidates.len() > 0 {
        operation::serving_from(operations, id, candidates[0], 0)
    } else {
        None
    }
}

/// A request, as it is read from the arguments of a call.
#[derive(Debug)]
pub struct Request {
    /// Where to act.
    pub target: Target,
    /// The operation's own parameters.
    pub params: Json,
    /// The working copy it names.
    pub workspace: Option<String>,
    /// What the caller expects at the target.
    pub expect: Option<String>,
    /// Whether only a preview is wanted.
    pub dry_run: bool,
}

/// A request that is ready to be run.
#[derive(Debug)]
pub struct Prepared {
    /// Where to act, as the server sees it.
    pub target: Target,
    /// What the operation says of itself.
    pub descriptor: OperationDescriptor,
    /// Whom to ask.
    pub plan: Plan,
}

/// Whether some candidate has the operation that describes an id.
proof fn candidate_is_served<O>(
    operations: Seq<(OperationDescriptorView, O)>,
    id: Seq<char>,
    languages: Seq<Language>,
)
    ensures
        forall|i: int|
            0 <= i < candidates_in(operations, id, languages).len() ==> operation::served(
                operations,
                id,
                #[trigger] candidates_in(operations, id, languages)[i],
            ),
    decreases languages.len(),
{
    reveal(Seq::filter);
    if languages.len() > 0 {
        let front = languages.drop_last();
        candidate_is_served(operations, id, front);
        let has = |l: Language| operation::served(operations, id, l);
        assert(candidates_in(operations, id, front) == front.filter(has));
        let all = candidates_in(operations, id, languages);
        assert forall|i: int| 0 <= i < all.len() implies operation::served(
            operations,
            id,
            #[trigger] all[i],
        ) by {
            if i < front.filter(has).len() {
                assert(all[i] == candidates_in(operations, id, front)[i]);
            }
        }
    }
}

impl<O: Operation> HenkaMcp<O> {
    /// The backends.
    pub closed spec fn backends(&self) -> spec_fn(Language) -> Option<usize> {
        self.providers@
    }

    /// The catalog.
    pub closed spec fn catalog(&self) -> Seq<(OperationDescriptorView, O)> {
        self.operations@
    }

    /// The map of paths.
    pub closed spec fn paths(&self) -> Seq<(Seq<char>, Seq<char>)> {
        self.path_map@
    }

    /// The directories whose children are projects.
    pub closed spec fn project_dirs(&self) -> Seq<Seq<char>> {
        view::each(self.auto_register_roots@)
    }

    /// A handler over backends, their operations, a map of paths, and the
    /// directories whose children are projects.
    pub fn with_path_map(
        providers: Providers,
        operations: Vec<O>,
        path_map: PathMap,
        auto_register_roots: Vec<String>,
    ) -> (r: HenkaMcp<O>)
        ensures
            r.backends() == providers@,
            r.catalog() == Seq::new(
                operations@.len(),
                |i: int| (operations@[i].description(), operations@[i]),
            ),
            r.paths() == path_map@,
            r.project_dirs() == view::each(auto_register_roots@),
    {
        let mut catalog = OperationRegistry::new();
        let ghost contributed = Seq::new(
            operations@.len(),
            |i: int| (operations@[i].description(), operations@[i]),
        );
        catalog.extend(operations);
        assert(catalog@ =~= contributed);
        HenkaMcp { providers, operations: catalog, path_map, auto_register_roots }
    }

    /// The map of paths.
    pub fn path_map(&self) -> (r: &PathMap)
        ensures
            r@ == self.paths(),
    {
        &self.path_map
    }

    /// The operation at a place of the catalog.
    pub fn operation(&self, at: usize) -> (r: Option<&O>)
        ensures
            match r {
                Some(op) => at < self.catalog().len() && *op == self.catalog()[at as int].1,
                None => at >= self.catalog().len(),
            },
    {
        self.operations.at(at)
    }

    /// The directories whose children are registered as projects, at the start
    /// and when the projects are listed.
    pub fn auto_register_roots(&self) -> (r: &Vec<String>)
        ensures
            view::each(r@) == self.project_dirs(),
    {
        &self.auto_register_roots
    }

    /// All tools: the fixed ones, then one for each operation of the catalog.
    pub fn tools(&self, schemas: &ToolSchemas) -> (r: Vec<Tool>)
        ensures
            view::each(r@) == fixed_tools(*schemas) + ({
                let listing = operation::by_id(operation::descriptors_in(self.catalog()));
                Seq::new(listing.len(), |i: int| tool_for(listing[i]))
            }),
    {
        broadcast use view::each_push;

        let ghost listing = operation::by_id(operation::descriptors_in(self.catalog()));
        let ghost wanted = Seq::new(listing.len(), |i: int| tool_for(listing[i]));
        let mut out: Vec<Tool> = Vec::new();
        assert(view::each(out@) =~= Seq::empty());
        out.push(make_tool("register_project", REGISTER_DESCRIPTION, &schemas.register));
        out.push(make_tool("unregister_project", UNREGISTER_DESCRIPTION, &schemas.project));
        out.push(make_tool("list_projects", LIST_DESCRIPTION, &schemas.none));
        out.push(make_tool("project_status", STATUS_DESCRIPTION, &schemas.project));
        out.push(make_tool("list_operations", OPERATIONS_DESCRIPTION, &schemas.operations));
        assert(view::each(out@) =~= fixed_tools(*schemas));
        let descriptors = self.operations.descriptors();
        let mut i: usize = 0;
        assert(view::each(out@) =~= fixed_tools(*schemas) + wanted.take(0));
        while i < descriptors.len()
            invariant
                i <= descriptors@.len(),
                listing == view::each(descriptors@),
                wanted == Seq::new(listing.len(), |i: int| tool_for(listing[i])),
                view::each(out@) == fixed_tools(*schemas) + wanted.take(i as int),
            decreases descriptors@.len() - i,
        {
            let ghost done = out@;
            let tool = ops::operation_tool(&descriptors[i]);
            assert(listing[i as int] == descriptors@[i as int]@);
            assert(tool@ == wanted[i as int]);
            out.push(tool);
            assert(view::each(out@) =~= view::each(done).push(wanted[i as int]));
            assert(wanted.take(i + 1) =~= wanted.take(i as int).push(wanted[i as int]));
            assert(view::each(out@) =~= fixed_tools(*schemas) + wanted.take(i + 1));
            i += 1;
        }
        assert(wanted.take(listing.len() as int) =~= wanted);
        out
    }

    /// The ids of the operations of the catalog, in order.
    pub fn command_ids(&self) -> (r: Vec<String>)
        ensures
            view::each(r@) == ({
                let listing = operation::by_id(operation::descriptors_in(self.catalog()));
                Seq::new(listing.len(), |i: int| listing[i].id)
            }),
    {
        broadcast use view::each_push;

        let ghost listing = operation::by_id(operation::descriptors_in(self.catalog()));
        let ghost wanted = Seq::new(listing.len(), |i: int| listing[i].id);
        let descriptors = self.operations.descriptors();
        let mut out: Vec<String> = Vec::new();
        let mut i: usize = 0;
        assert(view::each(out@) =~= wanted.take(0));
        while i < descriptors.len()
            invariant
                i <= descriptors@.len(),
                listing == view::each(descriptors@),
                wanted == Seq::new(listing.len(), |i: int| listing[i].id),
                view::each(out@) == wanted.take(i as int),
            decreases descriptors@.len() - i,
        {
            assert(listing[i as int] == descriptors@[i as int]@);
            out.push(descriptors[i].id.clone());
            assert(wanted.take(i + 1) =~= wanted.take(i as int).push(wanted[i as int]));
            i += 1;
        }
        assert(wanted.take(listing.len() as int) =~= wanted);
        out
    }

    /// The operations that a project has, one for each id.
    pub fn operations_of(&self, project: &Project) -> (r: Vec<OperationDescriptor>)
        ensures
            view::each(r@) == operation::by_id(
                operation::applicable(
                    operation::descriptors_in(self.catalog()),
                    project@.languages,
                ),
            ),
    {
        self.operations.descriptors_for(project)
    }

    /// The place of the operation that describes an id.
    fn describing_operation(&self, id: &str, languages: &Vec<Language>) -> (r: Result<
        usize,
        Error,
    >)
        ensures
            match r {
                Ok(k) => k < self.catalog().len() && describing(self.catalog(), id@, languages@)
                    == Some(k as int),
                Err(e) => describing(self.catalog(), id@, languages@) is None && e@
                    == not_available(id@),
            },
    {
        let candidates = self.operations.languages_for(id, languages);
        proof {
            candidate_is_served(self.catalog(), id@, languages@);
        }
        assert(candidates@ == candidates_in(self.catalog(), id@, languages@));
        if candidates.len() == 0 {
            return Err(Error::new(ErrorKind::OperationNotAvailable, id.to_owned()));
        }
        match self.operations.find(id, candidates[0]) {
            Some(k) => Ok(k),
            None => Err(Error::new(ErrorKind::OperationNotAvailable, id.to_owned())),
        }
    }

    /// The descriptor for an id, as the first language that has it gives it.
    /// All operations under one id declare the same target and parameters.
    pub fn descriptor_for(&self, id: &str, languages: &Vec<Language>) -> (r: Result<
        OperationDescriptor,
        Error,
    >)
        ensures
            error::outcome(r) == (match describing(self.catalog(), id@, languages@) {
                Some(k) => Ok(self.catalog()[k].1.description()),
                None => Err(not_available(id@)),
            }),
    {
        match self.describing_operation(id, languages) {
            Ok(k) => match self.operations.at(k) {
                Some(op) => Ok(op.descriptor()),
                None => Err(Error::new(ErrorKind::OperationNotAvailable, id.to_owned())),
            },
            Err(e) => Err(e),
        }
    }

    /// Reads a request for an operation from the arguments of a call.
    pub fn read_request(&self, name: &str, args: &Object, project: &Project) -> (r: Result<
        Request,
        McpError,
    >)
        ensures
            match describing(self.catalog(), name@, project@.languages) {
                None => r is Err && r->Err_0@ == protocol::invalid(
                    "unknown tool or operation `"@ + name@ + "` for project `"@ + project@.id
                        + "`"@,
                ),
                Some(k) => match ops::target_in(
                    args@,
                    self.catalog()[k].1.description().target,
                ) {
                    Err(e) => r is Err && r->Err_0@ == e,
                    Ok(target) => r is Ok && ({
                        let request = r->Ok_0;
                        &&& request.target@ == target
                        &&& request.params@ == JsonView::Object(ops::own_arguments(args@))
                        &&& view::maybe(request.workspace) == ops::given(args@, "workspace"@)
                        &&& view::maybe(request.expect) == ops::given(args@, "expect"@)
                        &&& request.dry_run == ops::wants_preview(args@)
                    }),
                },
            },
    {
        let descriptor = match self.descriptor_for(name, &project.languages) {
            Ok(descriptor) => descriptor,
            Err(_) => {
                let head = text::cat3("unknown tool or operation `", name, "` for project `");
                return Err(
                    McpError::invalid_params(
                        text::cat3(head.as_str(), project.id.as_str(), "`"),
                    ),
                );
            },
        };
        match ops::parse_target(args, descriptor.target) {
            Err(e) => Err(e),
            Ok(target) => Ok(
                Request {
                    target,
                    params: ops::operation_params(args),
                    workspace: ops::workspace(args),
                    expect: ops::expect(args),
                    dry_run: ops::dry_run(args),
                },
            ),
        }
    }

    /// Prepares a request to be run: finds out what the operation is, where it
    /// acts as the server sees it, and whom to ask.
    pub fn prepare(&self, project: &Project, id: &str, target: Target, params: &Json) -> (r: Result<
        Prepared,
        Error,
    >)
        ensures
            match describing(self.catalog(), id@, project@.languages) {
                None => r is Err && r->Err_0@ == not_available(id@),
                Some(k) => {
                    let op = self.catalog()[k].1;
                    let at = crate::workspace::target_mapped(self.paths(), target@);
                    match answering(
                        candidates_in(self.catalog(), id@, project@.languages),
                        self.backends(),
                        op.description(),
                        at,
                        op.routing(params@),
                    ) {
                        Err(e) => r is Err && r->Err_0@ == e,
                        Ok(languages) => r is Ok && ({
                            let ready = r->Ok_0;
                            &&& ready.target@ == at
                            &&& ready.descriptor@ == op.description()
                            &&& (ready.plan.asks@, view::maybe(ready.plan.failure)) == planned(
                                languages,
                                self.backends(),
                                self.catalog(),
                                id@,
                                0,
                                Seq::empty(),
                            )
                        }),
                    }
                },
            },
    {
        let k = match self.describing_operation(id, &project.languages) {
            Ok(k) => k,
            Err(e) => {
                return Err(e);
            },
        };
        let op = match self.operations.at(k) {
            Some(op) => op,
            None => {
                return Err(Error::new(ErrorKind::OperationNotAvailable, id.to_owned()));
            },
        };
        let descriptor = op.descriptor();
        let mut at = target;
        crate::workspace::remap_target_file(&self.path_map, &mut at);
        let candidates = self.operations.languages_for(id, &project.languages);
        assert(candidates@ == candidates_in(self.catalog(), id@, project@.languages));
        let route = op.route(params);
        match dispatch_languages(&candidates, &self.providers, &descriptor, &at, &route) {
            Err(e) => Err(e),
            Ok(languages) => {
                let plan = plan(&languages, &self.providers, &self.operations, id);
                Ok(Prepared { target: at, descriptor, plan })
            },
        }
    }
}

fn make_tool(name: &str, description: &str, schema: &Object) -> (r: Tool)
    ensures
        r@ == fixed_tool(name, description, schema@),
{
    Tool {
        name: name.to_owned(),
        description: description.to_owned(),
        input_schema: schema.clone(),
    }
}

// ---------------------------------------------------------------------------
// Answers
// ---------------------------------------------------------------------------

/// What running an operation gives, whatever surface it was called on.
#[derive(Debug)]
pub enum DispatchResult {
    /// The answer to a query.
    Query(Json),
    /// An edit that was previewed or made.
    Edit(Json),
}

/// Makes the answers of the backends the answer to a query, within the limit
/// that the caller or the operation sets.
pub fn answer(queries: Vec<Json>, params: &Json, descriptor: &OperationDescriptor) -> (r:
    DispatchResult)
    requires
        ops::all_counts_add(json::list_view(queries@)),
    ensures
        r matches DispatchResult::Query(out) && out@ == ops::merged_result(
            json::list_view(queries@),
            ops::limit_of(params@, descriptor@.params_schema),
        ),
{
    let limit = ops::result_limit(params, &descriptor.params_schema);
    DispatchResult::Query(ops::merge_query_results(queries, limit))
}

/// The working copy an edit was made in, and the revision it holds.
pub open spec fn acted_on(workspace: Seq<char>, revision: Option<Seq<char>>) -> JsonView {
    JsonView::Object(
        map![
            "workspace"@ => JsonView::Text(workspace),
            "revision"@ => json::txt_or_null(revision)
        ],
    )
}

fn tell_acted_on(workspace: &str, revision: &Option<String>) -> (r: Json)
    ensures
        r@ == acted_on(workspace@, view::maybe(*revision)),
{
    Json::Object(
        Object::new().with("workspace", Json::text(workspace)).with(
            "revision",
            Json::text_or_null(revision),
        ),
    )
}

/// The answer to an edit that was only previewed.
pub open spec fn previewed(
    workspace: Seq<char>,
    revision: Option<Seq<char>>,
    files: JsonView,
) -> JsonView {
    JsonView::Object(
        map![
            "dry_run"@ => JsonView::Bool(true),
            "workspace"@ => acted_on(workspace, revision),
            "files"@ => files
        ],
    )
}

/// The answer to an edit that was made.
pub open spec fn made(
    workspace: Seq<char>,
    revision: Option<Seq<char>>,
    applied: JsonView,
) -> JsonView {
    JsonView::Object(
        map![
            "dry_run"@ => JsonView::Bool(false),
            "workspace"@ => acted_on(workspace, revision),
            "applied"@ => applied
        ],
    )
}

/// The answer to an edit that was only previewed. `files` are the differences.
pub fn preview_result(workspace: &str, revision: &Option<String>, files: Json) -> (r:
    DispatchResult)
    ensures
        r matches DispatchResult::Edit(out) && out@ == previewed(
            workspace@,
            view::maybe(*revision),
            files@,
        ),
{
    DispatchResult::Edit(
        Json::Object(
            Object::new().with("dry_run", Json::Bool(true)).with(
                "workspace",
                tell_acted_on(workspace, revision),
            ).with("files", files),
        ),
    )
}

/// The answer to an edit that was made. `applied` tells of it.
pub fn applied_result(workspace: &str, revision: &Option<String>, applied: Json) -> (r:
    DispatchResult)
    ensures
        r matches DispatchResult::Edit(out) && out@ == made(
            workspace@,
            view::maybe(*revision),
            applied@,
        ),
{
    DispatchResult::Edit(
        Json::Object(
            Object::new().with("dry_run", Json::Bool(false)).with(
                "workspace",
                tell_acted_on(workspace, revision),
            ).with("applied", applied),
        ),
    )
}

/// What a registration is answered with: the project, and how the caller's path
/// became the server's where it did.
pub open spec fn registered(
    project: Map<Seq<char>, JsonView>,
    requested: Seq<char>,
    mapped_root: Seq<char>,
    project_root: Seq<char>,
) -> JsonView {
    JsonView::Object(
        if path::components(mapped_root) != path::components(requested) {
            project.insert(
                "translation"@,
                JsonView::Object(
                    map![
                        "from"@ => JsonView::Text(requested),
                        "to"@ => JsonView::Text(project_root),
                        "note"@ => JsonView::Text(
                            crate::workspace::mount_note(requested, project_root),
                        )
                    ],
                ),
            )
        } else {
            project
        },
    )
}

/// The answer to a registration. `project` are the fields of the project.
pub fn register_result(
    project: Object,
    requested: &str,
    mapped_root: &str,
    project_root: &str,
) -> (r: Json)
    ensures
        r@ == registered(project@, requested@, mapped_root@, project_root@),
{
    if path::same(mapped_root, requested) {
        return Json::Object(project);
    }
    let t = crate::workspace::PathTranslation::mount(requested, project_root);
    Json::Object(
        project.with(
            "translation",
            Json::Object(
                Object::new().with("from", Json::Text(t.from)).with("to", Json::Text(t.to)).with(
                    "note",
                    Json::Text(t.note),
                ),
            ),
        ),
    )
}

/// What the caller is told of a registration that failed: where a path that does
/// not exist may be, or what went wrong.
pub open spec fn not_registered(
    err: ErrorView,
    message: Seq<char>,
    suggestions: Seq<Seq<char>>,
) -> protocol::McpErrorView {
    if err.kind == ErrorKind::PathNotFound {
        protocol::invalid(crate::workspace::not_found_message(err.detail, suggestions))
    } else {
        protocol::told(err, message)
    }
}

/// The error for a registration that failed. A path that does not exist is
/// looked for elsewhere, and `suggestions` are the directories found; of any
/// other failure, `message` tells.
pub fn register_failure(err: &Error, message: String, suggestions: &Vec<String>) -> (r: McpError)
    ensures
        r@ == not_registered(err@, message@, view::each(suggestions@)),
{
    if err.kind == ErrorKind::PathNotFound {
        crate::workspace::path_not_found_error(err.detail.as_str(), suggestions)
    } else {
        protocol::into_mcp(err, message)
    }
}

/// The state of a project in its version control.
#[derive(Debug)]
pub struct VcsStatus {
    /// The version control.
    pub vcs: String,
    /// The revision.
    pub revision: String,
    /// The branch, where it has one.
    pub branch: Option<String>,
    /// The root of the repository that its working copies share.
    pub repo_root: Option<String>,
    /// The files that differ from the revision.
    pub changed_files: Vec<Json>,
    /// A digest over them.
    pub digest: Option<String>,
}

/// What is told of the state of a project in its version control. Files that
/// differ make it dirty; a digest that is missing is left out.
pub open spec fn vcs_report(v: VcsStatus) -> JsonView {
    let report = map![
        "vcs"@ => JsonView::Text(v.vcs@),
        "revision"@ => JsonView::Text(v.revision@),
        "branch"@ => json::txt_or_null(view::maybe(v.branch)),
        "repo_root"@ => json::txt_or_null(view::maybe(v.repo_root)),
        "dirty"@ => JsonView::Bool(v.changed_files@.len() > 0),
        "changed_files"@ => JsonView::List(json::list_view(v.changed_files@))
    ];
    match v.digest {
        Some(d) => JsonView::Object(report.insert("digest"@, JsonView::Text(d@))),
        None => JsonView::Object(report),
    }
}

/// What is told of the state of a project: its fields, the state of its version
/// control, and the caller's path to it where the path map has one.
pub open spec fn status_told(
    project: Map<Seq<char>, JsonView>,
    root: Seq<char>,
    vcs: Option<VcsStatus>,
    paths: Seq<(Seq<char>, Seq<char>)>,
) -> JsonView {
    let told = project.insert(
        "vcs"@,
        match vcs {
            Some(v) => vcs_report(v),
            None => JsonView::Null,
        },
    );
    JsonView::Object(
        match pathmap::reversed(paths, root) {
            Some(p) => told.insert("host_path"@, JsonView::Text(p)),
            None => told,
        },
    )
}

/// The answer to a question for the state of a project.
pub fn project_status(project: Object, root: &str, vcs: Option<VcsStatus>, path_map: &PathMap) -> (r:
    Json)
    ensures
        r@ == status_told(project@, root@, vcs, path_map@),
{
    let state = match vcs {
        Some(v) => {
            let report = Object::new().with("vcs", Json::text(v.vcs.as_str())).with(
                "revision",
                Json::text(v.revision.as_str()),
            ).with("branch", Json::text_or_null(&v.branch)).with(
                "repo_root",
                Json::text_or_null(&v.repo_root),
            ).with("dirty", Json::Bool(v.changed_files.len() > 0)).with(
                "changed_files",
                Json::List(v.changed_files),
            );
            match v.digest {
                Some(d) => Json::Object(report.with("digest", Json::Text(d))),
                None => Json::Object(report),
            }
        },
        None => Json::Null,
    };
    let told = project.with("vcs", state);
    match path_map.reverse(root) {
        Some(p) => Json::Object(told.with("host_path", Json::Text(p))),
        None => Json::Object(told),
    }
}

/// The URI of the written workflow that the server offers.
pub const SKILL_URI: &'static str = "skill://henka/refactoring";

/// Whether a resource is the workflow; there is no other.
pub fn find_resource(uri: &str) -> (r: Result<(), McpError>)
    ensures
        match r {
            Ok(_) => uri@ == SKILL_URI@,
            Err(e) => uri@ != SKILL_URI@ && e@ == (McpErrorView {
                kind: protocol::McpErrorKind::ResourceNotFound,
                message: "resource not found"@,
            }),
        },
{
    if text::same(uri, SKILL_URI) {
        Ok(())
    } else {
        Err(McpError::resource_not_found("resource not found".to_owned()))
    }
}

} // verus!
