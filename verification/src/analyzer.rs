//! The language server for Rust: where it is found, how it is greeted, and the
//! session that is held with it.

use crate::json;
use crate::json::Json;
use crate::json::JsonView;
use crate::json::Object;
use crate::path;
use crate::text;
use crate::view;
use vstd::prelude::*;

verus! {

// ---------------------------------------------------------------------------
// Finding the program
// ---------------------------------------------------------------------------

/// The directory for caches: the one that the environment names unless it is
/// empty, or else the usual one in the home directory, or else one here.
pub open spec fn cache_dir(cache_home: Option<Seq<char>>, home: Option<Seq<char>>) -> Seq<char> {
    let base = if cache_home is Some && cache_home->Some_0.len() > 0 {
        cache_home->Some_0
    } else {
        match home {
            Some(h) => path::joined(h, ".cache"@),
            None => ".cache"@,
        }
    };
    path::joined(base, "henka"@)
}

/// The directory for caches.
pub fn cache_base(cache_home: Option<&str>, home: Option<&str>) -> (r: String)
    ensures
        r@ == cache_dir(view::maybe(cache_home), view::maybe(home)),
{
    let usual = match home {
        Some(h) => path::join(h, ".cache"),
        None => ".cache".to_owned(),
    };
    let base = match cache_home {
        Some(c) => if text::is_empty(c) {
            usual
        } else {
            c.to_owned()
        },
        None => usual,
    };
    path::join(base.as_str(), "henka")
}

/// Where the program is looked for: where the environment says, then in the
/// cache that is shipped along, then in the cache of the user.
pub open spec fn program_candidates(
    named: Seq<Seq<char>>,
    cache: Seq<char>,
) -> Seq<Seq<char>> {
    named.push(".cache/rust-analyzer/rust-analyzer"@).push(
        path::joined(cache, "rust-analyzer/rust-analyzer"@),
    )
}

/// Where the program is looked for. `named` is what the environment names, in
/// order.
pub fn candidates(named: &Vec<String>, cache: &str) -> (r: Vec<String>)
    ensures
        view::each(r@) == program_candidates(view::each(named@), cache@),
{
    let mut out: Vec<String> = Vec::new();
    let mut i: usize = 0;
    let ghost all = view::each(named@);
    while i < named.len()
        invariant
            i <= named@.len(),
            all == view::each(named@),
            out@.len() == i,
            forall|k: int| 0 <= k < i ==> (#[trigger] out@[k])@ == all[k],
        decreases named@.len() - i,
    {
        assert(all[i as int] == named@[i as int]@);
        out.push(named[i].clone());
        i += 1;
    }
    assert(view::each(out@) =~= all);
    let ghost first = out@;
    out.push(".cache/rust-analyzer/rust-analyzer".to_owned());
    assert(view::each(out@) =~= all.push(".cache/rust-analyzer/rust-analyzer"@));
    let ghost second = out@;
    let last = path::join(cache, "rust-analyzer/rust-analyzer");
    let ghost l = last@;
    out.push(last);
    assert(view::each(out@) =~= view::each(second).push(l));
    out
}

/// What is at a place where the program is looked for.
#[derive(Debug)]
pub enum Probe {
    /// No file.
    Missing,
    /// A file that does not run, under its full path.
    Broken(String),
    /// The program, under its full path.
    Runs(String),
}

/// What a probe is.
#[verifier::ext_equal]
pub enum ProbeView {
    /// No file.
    Missing,
    /// A file that does not run.
    Broken(Seq<char>),
    /// The program.
    Runs(Seq<char>),
}

impl View for Probe {
    type V = ProbeView;

    open spec fn view(&self) -> ProbeView {
        match *self {
            Probe::Missing => ProbeView::Missing,
            Probe::Broken(p) => ProbeView::Broken(p@),
            Probe::Runs(p) => ProbeView::Runs(p@),
        }
    }
}

/// What is told of a place where the program was not.
pub open spec fn told_of(candidate: Seq<char>, probe: ProbeView) -> Seq<char> {
    match probe {
        ProbeView::Broken(p) => p + " (found, does not run)"@,
        _ => candidate,
    }
}

/// The first place, from `i` on, at which the program runs.
pub open spec fn running_from(probes: Seq<ProbeView>, i: int) -> Option<Seq<char>>
    decreases probes.len() - i,
{
    if i < 0 || i >= probes.len() {
        None
    } else {
        match probes[i] {
            ProbeView::Runs(p) => Some(p),
            _ => running_from(probes, i + 1),
        }
    }
}

/// All places at which the program was not, as they are told of.
pub open spec fn looked_at(
    candidates: Seq<Seq<char>>,
    probes: Seq<ProbeView>,
) -> Seq<Seq<char>> {
    Seq::new(probes.len(), |i: int| told_of(candidates[i], probes[i])).push(
        "rust-analyzer (PATH)"@,
    )
}

/// The program, or all places at which it was looked for.
pub open spec fn located(
    candidates: Seq<Seq<char>>,
    probes: Seq<ProbeView>,
    on_path: bool,
) -> Result<Seq<char>, Seq<char>> {
    match running_from(probes, 0) {
        Some(p) => Ok(p),
        None => if on_path {
            Ok("rust-analyzer"@)
        } else {
            Err(text::joined(looked_at(candidates, probes), ", "@))
        },
    }
}

/// The program, or all places at which it was looked for. `probes` say what is
/// at the candidates, in order; `on_path` whether the program runs by its name
/// alone. A place at which something does not run does not hide a later one.
pub fn locate(candidates: &Vec<String>, probes: &Vec<Probe>, on_path: bool) -> (r: Result<
    String,
    String,
>)
    requires
        probes@.len() <= candidates@.len(),
    ensures
        match r {
            Ok(p) => located(view::each(candidates@), view::each(probes@), on_path) == Ok::<
                Seq<char>,
                Seq<char>,
            >(p@),
            Err(looked) => located(view::each(candidates@), view::each(probes@), on_path) == Err::<
                Seq<char>,
                Seq<char>,
            >(looked@),
        },
{
    let ghost places = view::each(candidates@);
    let ghost found = view::each(probes@);
    let mut looked: Vec<String> = Vec::new();
    let mut i: usize = 0;
    while i < probes.len()
        invariant
            i <= probes@.len() <= candidates@.len(),
            places == view::each(candidates@),
            found == view::each(probes@),
            running_from(found, 0) == running_from(found, i as int),
            looked@.len() == i,
            forall|k: int| 0 <= k < i ==> (#[trigger] looked@[k])@ == told_of(places[k], found[k]),
        decreases probes@.len() - i,
    {
        assert(found[i as int] == probes@[i as int]@);
        assert(places[i as int] == candidates@[i as int]@);
        match &probes[i] {
            Probe::Runs(p) => {
                return Ok(p.clone());
            },
            Probe::Missing => {
                looked.push(candidates[i].clone());
            },
            Probe::Broken(p) => {
                looked.push(text::cat(p.as_str(), " (found, does not run)"));
            },
        }
        i += 1;
    }
    if on_path {
        return Ok("rust-analyzer".to_owned());
    }
    let ghost before = looked@;
    looked.push("rust-analyzer (PATH)".to_owned());
    assert(view::each(looked@) =~= looked_at(places, found));
    Err(text::join(&looked, ", "))
}

// ---------------------------------------------------------------------------
// The greeting
// ---------------------------------------------------------------------------

/// An object whose fields are all true.
pub open spec fn flag(key: &str) -> Map<Seq<char>, JsonView> {
    map![key@ => JsonView::Bool(true)]
}

/// A capability that may be registered later.
pub open spec fn dynamic() -> Map<Seq<char>, JsonView> {
    flag("dynamicRegistration")
}

fn make_flag(key: &str) -> (r: Object)
    ensures
        r@ == flag(key),
{
    Object::new().with(key, Json::Bool(true))
}

fn make_dynamic() -> (r: Object)
    ensures
        r@ == dynamic(),
{
    make_flag("dynamicRegistration")
}

/// The kinds of action that are understood.
pub open spec fn action_kinds() -> Seq<JsonView> {
    seq![
        json::txt(""),
        json::txt("quickfix"),
        json::txt("refactor"),
        json::txt("refactor.extract"),
        json::txt("refactor.inline"),
        json::txt("refactor.rewrite"),
        json::txt("source"),
        json::txt("source.organizeImports"),
    ]
}

fn make_action_kinds() -> (r: Vec<Json>)
    ensures
        json::list_view(r@) == action_kinds(),
{
    let r = json::listed(json::no_values(), Json::text(""));
    let r = json::listed(r, Json::text("quickfix"));
    let r = json::listed(r, Json::text("refactor"));
    let r = json::listed(r, Json::text("refactor.extract"));
    let r = json::listed(r, Json::text("refactor.inline"));
    let r = json::listed(r, Json::text("refactor.rewrite"));
    let r = json::listed(r, Json::text("source"));
    json::listed(r, Json::text("source.organizeImports"))
}

/// What the client can do with a project.
pub open spec fn workspace_abilities() -> JsonView {
    JsonView::Object(
        map![
            "applyEdit"@ => JsonView::Bool(true),
            "workspaceEdit"@ => JsonView::Object(
                map![
                    "documentChanges"@ => JsonView::Bool(true),
                    "resourceOperations"@ => JsonView::List(
                        seq![json::txt("create"), json::txt("rename"), json::txt("delete")],
                    )
                ],
            ),
            "configuration"@ => JsonView::Bool(true)
        ],
    )
}

fn make_workspace_abilities() -> (r: Json)
    ensures
        r@ == workspace_abilities(),
{
    let ops = json::listed(json::no_values(), Json::text("create"));
    let ops = json::listed(ops, Json::text("rename"));
    let ops = json::listed(ops, Json::text("delete"));
    assert(json::list_view(ops@) =~= seq![
        json::txt("create"),
        json::txt("rename"),
        json::txt("delete"),
    ]);
    Json::Object(
        Object::new().with("applyEdit", Json::Bool(true)).with(
            "workspaceEdit",
            Json::Object(
                Object::new().with("documentChanges", Json::Bool(true)).with(
                    "resourceOperations",
                    Json::List(ops),
                ),
            ),
        ).with("configuration", Json::Bool(true)),
    )
}

/// What the client can do with actions.
pub open spec fn action_abilities() -> JsonView {
    JsonView::Object(
        dynamic().insert(
            "codeActionLiteralSupport"@,
            JsonView::Object(
                map![
                    "codeActionKind"@ => JsonView::Object(
                        map!["valueSet"@ => JsonView::List(action_kinds())],
                    )
                ],
            ),
        ).insert(
            "resolveSupport"@,
            JsonView::Object(map!["properties"@ => JsonView::List(seq![json::txt("edit")])]),
        ),
    )
}

fn make_action_abilities() -> (r: Json)
    ensures
        r@ == action_abilities(),
{
    let kinds = Object::new().with(
        "codeActionKind",
        Json::Object(Object::new().with("valueSet", Json::List(make_action_kinds()))),
    );
    let edit = json::listed(json::no_values(), Json::text("edit"));
    Json::Object(
        make_dynamic().with("codeActionLiteralSupport", Json::Object(kinds)).with(
            "resolveSupport",
            Json::Object(Object::new().with("properties", Json::List(edit))),
        ),
    )
}

/// What the client can do with documents.
pub open spec fn document_abilities() -> JsonView {
    JsonView::Object(
        map![
            "synchronization"@ => JsonView::Object(
                flag("didSave").insert("dynamicRegistration"@, JsonView::Bool(true)),
            ),
            "rename"@ => JsonView::Object(
                dynamic().insert("prepareSupport"@, JsonView::Bool(true)),
            ),
            "references"@ => JsonView::Object(dynamic()),
            "hover"@ => JsonView::Object(
                dynamic().insert(
                    "contentFormat"@,
                    JsonView::List(seq![json::txt("markdown"), json::txt("plaintext")]),
                ),
            ),
            "definition"@ => JsonView::Object(dynamic()),
            "implementation"@ => JsonView::Object(dynamic()),
            "documentSymbol"@ => JsonView::Object(
                dynamic().insert("hierarchicalDocumentSymbolSupport"@, JsonView::Bool(true)),
            ),
            "callHierarchy"@ => JsonView::Object(dynamic()),
            "codeAction"@ => action_abilities()
        ],
    )
}

fn make_document_abilities() -> (r: Json)
    ensures
        r@ == document_abilities(),
{
    let formats = json::listed(json::no_values(), Json::text("markdown"));
    let formats = json::listed(formats, Json::text("plaintext"));
    assert(json::list_view(formats@) =~= seq![json::txt("markdown"), json::txt("plaintext")]);
    Json::Object(
        Object::new().with(
            "synchronization",
            Json::Object(make_flag("didSave").with("dynamicRegistration", Json::Bool(true))),
        ).with(
            "rename",
            Json::Object(make_dynamic().with("prepareSupport", Json::Bool(true))),
        ).with("references", Json::Object(make_dynamic())).with(
            "hover",
            Json::Object(make_dynamic().with("contentFormat", Json::List(formats))),
        ).with("definition", Json::Object(make_dynamic())).with(
            "implementation",
            Json::Object(make_dynamic()),
        ).with(
            "documentSymbol",
            Json::Object(
                make_dynamic().with("hierarchicalDocumentSymbolSupport", Json::Bool(true)),
            ),
        ).with("callHierarchy", Json::Object(make_dynamic())).with(
            "codeAction",
            make_action_abilities(),
        ),
    )
}

/// How the server is greeted.
pub open spec fn greeting(process_id: u32, root_uri: Seq<char>) -> JsonView {
    JsonView::Object(
        map![
            "processId"@ => json::num(process_id as int),
            "rootUri"@ => JsonView::Text(root_uri),
            "capabilities"@ => JsonView::Object(
                map![
                    "workspace"@ => workspace_abilities(),
                    "textDocument"@ => document_abilities(),
                    "window"@ => JsonView::Object(flag("workDoneProgress")),
                    "experimental"@ => JsonView::Object(flag("serverStatusNotification"))
                ],
            ),
            "initializationOptions"@ => JsonView::Object(Map::empty())
        ],
    )
}

/// How the server is greeted for a project: with what the client can do, and
/// with the wish to be told when the analysis is done.
pub fn initialize_params(process_id: u32, root: &str) -> (r: Json)
    ensures
        r@ == greeting(process_id, crate::uri::file_uri(root@)),
{
    let root_uri = crate::uri::path_to_file_uri(root);
    let can = Object::new().with("workspace", make_workspace_abilities()).with(
        "textDocument",
        make_document_abilities(),
    ).with("window", Json::Object(make_flag("workDoneProgress"))).with(
        "experimental",
        Json::Object(make_flag("serverStatusNotification")),
    );
    Json::Object(
        Object::new().with("processId", Json::number(process_id as u64)).with(
            "rootUri",
            Json::Text(root_uri),
        ).with("capabilities", Json::Object(can)).with(
            "initializationOptions",
            Json::empty_object(),
        ),
    )
}

/// Whether a message tells that the analysis is done.
pub open spec fn is_ready(method: Seq<char>, params: JsonView) -> bool {
    method == "experimental/serverStatus"@ && params.flag_at("quiescent"@) == Some(true)
}

/// Whether a message tells that the analysis is done.
pub fn tells_ready(method: &str, params: &Json) -> (r: bool)
    ensures
        r == is_ready(method@, params@),
{
    text::same(method, "experimental/serverStatus") && match params.bool_at("quiescent") {
        Some(b) => b,
        None => false,
    }
}

// ---------------------------------------------------------------------------
// The session
// ---------------------------------------------------------------------------

/// A session with the server for one project. `C` is the connection.
#[derive(Debug)]
pub struct RaSession<C> {
    client: C,
    root: String,
    overlay: Option<String>,
}

impl<C> RaSession<C> {
    /// The connection.
    pub closed spec fn connection(&self) -> C {
        self.client
    }

    /// The project's root.
    pub closed spec fn base(&self) -> Seq<char> {
        self.root@
    }

    /// The working copy whose content is laid over the project's.
    pub closed spec fn overlaid(&self) -> Option<Seq<char>> {
        view::maybe(self.overlay)
    }

    /// The checkout that results quote from.
    pub open spec fn quoted_checkout(&self) -> Seq<char> {
        match self.overlaid() {
            Some(w) => w,
            None => self.base(),
        }
    }

    /// A session for a project, over a connection on which the server was
    /// greeted.
    pub fn new(client: C, root: String) -> (r: RaSession<C>)
        ensures
            r.connection() == client,
            r.base() == root@,
            r.overlaid() is None,
    {
        RaSession { client, root, overlay: None }
    }

    /// The connection.
    pub fn client(&self) -> (r: &C)
        ensures
            *r == self.connection(),
    {
        &self.client
    }

    /// The project's root.
    pub fn root(&self) -> (r: &str)
        ensures
            r@ == self.base(),
    {
        self.root.as_str()
    }

    /// The checkout that results quote from: the working copy that is laid
    /// over, or else the project's root.
    pub fn content_root(&self) -> (r: String)
        ensures
            r@ == self.quoted_checkout(),
    {
        match &self.overlay {
            Some(w) => w.clone(),
            None => self.root.clone(),
        }
    }

    /// Lays the content of a working copy over the project's.
    pub fn overlay_workspace_impl(&mut self, workspace_root: String)
        ensures
            final(self).connection() == old(self).connection(),
            final(self).base() == old(self).base(),
            final(self).overlaid() == Some(workspace_root@),
    {
        self.overlay = Some(workspace_root);
    }

    /// Goes back to the project's own content.
    pub fn restore_overlay_impl(&mut self)
        ensures
            final(self).connection() == old(self).connection(),
            final(self).base() == old(self).base(),
            final(self).overlaid() is None,
    {
        self.overlay = None;
    }
}

} // verus!
