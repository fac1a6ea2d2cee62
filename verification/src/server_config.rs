//! The settings of the server process.
//!
//! A setting may come from the command line, from the environment or from a
//! configuration file. The command line counts before the environment, the
//! environment before the file, and the file before the built-in default.

use crate::json::Json;
use crate::json::JsonView;
use crate::json::Object;
use crate::path;
use crate::pathmap;
use crate::pathmap::PathMap;
use crate::text;
use crate::view;
use crate::wire;
use crate::wire::Malformed;
use vstd::prelude::*;

verus! {

/// Where the language-server surface listens where nothing else is said.
pub const DEFAULT_LSP_BIND: &'static str = "127.0.0.1:8182";

/// Where the tool surface listens where nothing else is said.
pub const DEFAULT_MCP_BIND: &'static str = "127.0.0.1:8181";

/// What is logged where nothing else is said.
pub const DEFAULT_LOG: &'static str = "info";

/// How clients connect.
#[derive(Clone, Copy, Debug, PartialEq, Eq, Structural)]
pub enum Transport {
    /// Over standard input and output, for one local client.
    Stdio,
    /// Over HTTP, for many clients.
    Http,
}

/// What a configuration file says. Every setting may be missing.
#[derive(Debug)]
pub struct ServerConfig {
    /// The settings of the server.
    pub server: ServerFileConfig,
    /// The settings of the language-server surface.
    pub lsp: LspFileConfig,
    /// Prefixes of paths, the caller's and the server's own.
    pub path_map: Vec<(String, String)>,
}

/// What a configuration file says of the server.
#[derive(Debug)]
pub struct ServerFileConfig {
    /// How clients connect.
    pub transport: Option<Transport>,
    /// Where to listen.
    pub bind: Option<String>,
    /// Hosts that clients may connect as, beside the local ones.
    pub allowed_hosts: Option<Vec<String>>,
    /// What to log.
    pub log: Option<String>,
}

/// What a configuration file says of the language-server surface.
#[derive(Debug)]
pub struct LspFileConfig {
    /// Whether to serve it.
    pub enabled: Option<bool>,
    /// Where to listen.
    pub bind: Option<String>,
}

/// The settings of the language-server surface.
#[derive(Clone, Debug, PartialEq, Eq)]
pub struct LspSettings {
    /// Whether to serve it.
    pub enabled: bool,
    /// Where to listen.
    pub bind: String,
}

/// The settings of the tool surface.
#[derive(Clone, Debug, PartialEq, Eq)]
pub struct ServerSettings {
    /// How clients connect.
    pub transport: Transport,
    /// Where to listen.
    pub bind: String,
    /// Hosts that clients may connect as, beside the local ones.
    pub allowed_hosts: Vec<String>,
}

/// A text that is not blank.
pub open spec fn not_blank(s: Option<Seq<char>>) -> Option<Seq<char>> {
    match s {
        Some(t) => if text::is_blank(t) {
            None
        } else {
            Some(t)
        },
        None => None,
    }
}

/// The first of three sources that gives a value.
pub open spec fn first_of(
    over: Option<Seq<char>>,
    file: Option<Seq<char>>,
    default: Seq<char>,
) -> Seq<char> {
    match over {
        Some(t) => t,
        None => match file {
            Some(t) => t,
            None => default,
        },
    }
}

/// The texts that are not blank, trimmed.
pub open spec fn trimmed_texts(values: Seq<Seq<char>>) -> Seq<Seq<char>> {
    view::kept(
        Seq::new(
            values.len(),
            |i: int|
                if text::trimmed(values[i]).len() == 0 {
                    None
                } else {
                    Some(text::trimmed(values[i]))
                },
        ),
    )
}

/// How clients connect: as the command line says, else the file, else over
/// standard input and output.
pub open spec fn transport_used(over: Option<Transport>, file: Option<Transport>) -> Transport {
    match over {
        Some(t) => t,
        None => match file {
            Some(t) => t,
            None => Transport::Stdio,
        },
    }
}

/// The hosts that are accepted: those of the command line where it names any,
/// else those of the file.
pub open spec fn hosts_used(over: Seq<Seq<char>>, file: Option<Seq<Seq<char>>>) -> Seq<Seq<char>> {
    let from_cli = trimmed_texts(over);
    if from_cli.len() > 0 {
        from_cli
    } else {
        match file {
            Some(hosts) => trimmed_texts(hosts),
            None => Seq::empty(),
        }
    }
}

/// Whether the language-server surface is served.
pub open spec fn surface_enabled(over: bool, file: Option<bool>) -> bool {
    over || file == Some(true)
}

/// The path map: the one of the environment, else the one of the file.
pub open spec fn paths_used(
    over: Option<Seq<char>>,
    file: Seq<(Seq<char>, Seq<char>)>,
) -> Seq<(Seq<char>, Seq<char>)> {
    match not_blank(over) {
        Some(t) => pathmap::parsed(t),
        None => pathmap::usable_entries(file),
    }
}

/// Trims some texts and leaves out the blank ones.
pub fn non_blank(values: &Vec<String>) -> (r: Vec<String>)
    ensures
        view::each(r@) == trimmed_texts(view::each(values@)),
{
    let ghost all = view::each(values@);
    let ghost wanted: Seq<Option<Seq<char>>> = Seq::new(
        all.len(),
        |i: int|
            if text::trimmed(all[i]).len() == 0 {
                None
            } else {
                Some(text::trimmed(all[i]))
            },
    );
    let mut out: Vec<String> = Vec::new();
    let mut i: usize = 0;
    assert(view::each(out@) =~= view::kept(wanted.take(0)));
    while i < values.len()
        invariant
            i <= values@.len(),
            all == view::each(values@),
            wanted == Seq::new(
                all.len(),
                |i: int|
                    if text::trimmed(all[i]).len() == 0 {
                        None
                    } else {
                        Some(text::trimmed(all[i]))
                    },
            ),
            view::each(out@) == view::kept(wanted.take(i as int)),
        decreases values@.len() - i,
    {
        broadcast use view::each_push;

        let t = text::trim(values[i].as_str());
        assert(all[i as int] == values@[i as int]@);
        proof {
            view::kept_step(wanted, i as int);
        }
        if !text::is_empty(t.as_str()) {
            out.push(t);
        }
        i += 1;
    }
    assert(wanted.take(all.len() as int) =~= wanted);
    out
}

/// The first of three sources that gives a value.
fn pick(over: Option<String>, file: &Option<String>, default: &str) -> (r: String)
    ensures
        r@ == first_of(view::maybe(over), view::maybe(*file), default@),
{
    match over {
        Some(t) => t,
        None => match file {
            Some(t) => t.clone(),
            None => default.to_owned(),
        },
    }
}

/// A text that is not blank.
fn unless_blank(s: Option<String>) -> (r: Option<String>)
    ensures
        view::maybe(r) == not_blank(view::maybe(s)),
{
    match s {
        Some(t) => if text::blank(t.as_str()) {
            None
        } else {
            Some(t)
        },
        None => None,
    }
}

/// Where the configuration file is, by what the environment names: the file
/// itself, a data directory, a configuration directory, or a home directory.
pub open spec fn config_path(
    explicit: Option<Seq<char>>,
    data: Option<Seq<char>>,
    config_home: Option<Seq<char>>,
    home: Option<Seq<char>>,
) -> Seq<char> {
    match explicit {
        Some(p) => p,
        None => match data {
            Some(d) => path::joined(d, "henka.toml"@),
            None => path::joined(
                path::joined(config_base(config_home, home), "henka"@),
                "henka.toml"@,
            ),
        },
    }
}

/// The directory for configuration. One that is named but empty does not count.
pub open spec fn config_base(
    config_home: Option<Seq<char>>,
    home: Option<Seq<char>>,
) -> Seq<char> {
    if config_home is Some && config_home->Some_0.len() > 0 {
        config_home->Some_0
    } else {
        match home {
            Some(h) => path::joined(h, ".config"@),
            None => ".config"@,
        }
    }
}

// ---------------------------------------------------------------------------
// The configuration file
// ---------------------------------------------------------------------------

/// What a configuration file says of the server.
#[verifier::ext_equal]
pub struct ServerFileConfigView {
    /// How clients connect.
    pub transport: Option<Transport>,
    /// Where to listen.
    pub bind: Option<Seq<char>>,
    /// Hosts that clients may connect as, beside the local ones.
    pub allowed_hosts: Option<Seq<Seq<char>>>,
    /// What to log.
    pub log: Option<Seq<char>>,
}

impl View for ServerFileConfig {
    type V = ServerFileConfigView;

    open spec fn view(&self) -> ServerFileConfigView {
        ServerFileConfigView {
            transport: self.transport,
            bind: view::maybe(self.bind),
            allowed_hosts: match self.allowed_hosts {
                Some(hosts) => Some(view::each(hosts@)),
                None => None,
            },
            log: view::maybe(self.log),
        }
    }
}

/// What a configuration file says of the language-server surface.
#[verifier::ext_equal]
pub struct LspFileConfigView {
    /// Whether to serve it.
    pub enabled: Option<bool>,
    /// Where to listen.
    pub bind: Option<Seq<char>>,
}

impl View for LspFileConfig {
    type V = LspFileConfigView;

    open spec fn view(&self) -> LspFileConfigView {
        LspFileConfigView { enabled: self.enabled, bind: view::maybe(self.bind) }
    }
}

/// Whether a table has no keys but some.
pub open spec fn only_keys(m: Map<Seq<char>, JsonView>, names: Seq<Seq<char>>) -> bool {
    forall|key: Seq<char>| #[trigger] m.contains_key(key) ==> names.contains(key)
}

/// Whether a value can be a section with some settings: a table that has no
/// other keys, or an array with all of them in order.
pub open spec fn section(j: JsonView, names: Seq<Seq<char>>) -> bool {
    match j {
        JsonView::Object(m) => only_keys(m, names),
        JsonView::List(s) => s.len() >= names.len(),
        _ => false,
    }
}

/// A setting that is a text: none at all where it is something else.
pub open spec fn text_setting(f: Option<JsonView>) -> Option<Option<Seq<char>>> {
    match f {
        None => Some(None),
        Some(JsonView::Text(t)) => Some(Some(t)),
        Some(_) => None,
    }
}

/// A setting that is a flag: none at all where it is something else.
pub open spec fn flag_setting(f: Option<JsonView>) -> Option<Option<bool>> {
    match f {
        None => Some(None),
        Some(JsonView::Bool(b)) => Some(Some(b)),
        Some(_) => None,
    }
}

/// A setting that is a list of texts: none at all where it is something else.
pub open spec fn texts_setting(f: Option<JsonView>) -> Option<Option<Seq<Seq<char>>>> {
    match f {
        None => Some(None),
        Some(JsonView::List(s)) => match wire::texts_of(s) {
            Some(texts) => Some(Some(texts)),
            None => None,
        },
        Some(_) => None,
    }
}

/// Whether a value is an empty array or an empty table.
pub open spec fn is_hollow(j: JsonView) -> bool {
    match j {
        JsonView::List(s) => s.len() == 0,
        JsonView::Object(m) => m == Map::<Seq<char>, JsonView>::empty(),
        _ => false,
    }
}

/// Whether a table has one key alone, with nothing under it.
pub open spec fn names_alone(m: Map<Seq<char>, JsonView>, name: Seq<char>) -> bool {
    m.contains_key(name) && is_hollow(m[name]) && only_keys(m, seq![name])
}

/// A setting that is a transport, by its name: none at all where it is
/// something else.
pub open spec fn transport_setting(f: Option<JsonView>) -> Option<Option<Transport>> {
    match f {
        None => Some(None),
        Some(JsonView::Text(t)) => if t == "stdio"@ {
            Some(Some(Transport::Stdio))
        } else if t == "http"@ {
            Some(Some(Transport::Http))
        } else {
            None
        },
        Some(JsonView::Object(m)) => if names_alone(m, "stdio"@) {
            Some(Some(Transport::Stdio))
        } else if names_alone(m, "http"@) {
            Some(Some(Transport::Http))
        } else {
            None
        },
        Some(_) => None,
    }
}

/// The settings of a section on the server.
pub open spec fn server_names() -> Seq<Seq<char>> {
    seq!["transport"@, "bind"@, "allowed_hosts"@, "log"@]
}

/// The settings of a section on the language-server surface.
pub open spec fn lsp_names() -> Seq<Seq<char>> {
    seq!["enabled"@, "bind"@]
}

/// What a section says of the server. A section that is missing says nothing.
pub open spec fn server_section(f: Option<JsonView>) -> Option<ServerFileConfigView> {
    match f {
        None => Some(
            ServerFileConfigView { transport: None, bind: None, allowed_hosts: None, log: None },
        ),
        Some(j) => if section(j, server_names()) {
            match (
                transport_setting(wire::field(j, "transport"@, 0)),
                text_setting(wire::field(j, "bind"@, 1)),
                texts_setting(wire::field(j, "allowed_hosts"@, 2)),
                text_setting(wire::field(j, "log"@, 3)),
            ) {
                (Some(transport), Some(bind), Some(allowed_hosts), Some(log)) => Some(
                    ServerFileConfigView { transport, bind, allowed_hosts, log },
                ),
                _ => None,
            }
        } else {
            None
        },
    }
}

/// What a section says of the language-server surface. A section that is
/// missing says nothing.
pub open spec fn lsp_section(f: Option<JsonView>) -> Option<LspFileConfigView> {
    match f {
        None => Some(LspFileConfigView { enabled: None, bind: None }),
        Some(j) => if section(j, lsp_names()) {
            match (
                flag_setting(wire::field(j, "enabled"@, 0)),
                text_setting(wire::field(j, "bind"@, 1)),
            ) {
                (Some(enabled), Some(bind)) => Some(LspFileConfigView { enabled, bind }),
                _ => None,
            }
        } else {
            None
        },
    }
}

/// The entries of a section of prefixes, each a text under a text. A section
/// that is missing has none.
pub open spec fn prefixes_section(f: Option<JsonView>) -> Option<Map<Seq<char>, JsonView>> {
    match f {
        None => Some(Map::empty()),
        Some(JsonView::Object(m)) => if forall|key: Seq<char>| #[trigger]
            m.contains_key(key) ==> m[key] is Text {
            Some(m)
        } else {
            None
        },
        Some(_) => None,
    }
}

/// Whether pairs are the entries of a table, in the order of their keys.
pub open spec fn lists_entries(
    pairs: Seq<(Seq<char>, Seq<char>)>,
    m: Map<Seq<char>, JsonView>,
) -> bool {
    &&& forall|i: int, j: int|
        0 <= i < j < pairs.len() ==> text::before((#[trigger] pairs[i]).0, (#[trigger] pairs[j]).0)
    &&& forall|i: int|
        0 <= i < pairs.len() ==> m.contains_key((#[trigger] pairs[i]).0) && m[pairs[i].0]
            == JsonView::Text(pairs[i].1)
    &&& forall|key: Seq<char>| #[trigger]
        m.contains_key(key) ==> exists|i: int| 0 <= i < pairs.len() && (#[trigger] pairs[i]).0 == key
}

/// Whether a table is a configuration.
pub open spec fn is_config(table: JsonView) -> bool {
    &&& table is Object
    &&& only_keys(table->Object_0, seq!["server"@, "lsp"@, "path_map"@])
    &&& server_section(table.get("server"@)) is Some
    &&& lsp_section(table.get("lsp"@)) is Some
    &&& prefixes_section(table.get("path_map"@)) is Some
}

fn known_key(key: &str, names: &Vec<&str>) -> (r: bool)
    ensures
        r == view::each(names@).contains(key@),
{
    let ghost all = view::each(names@);
    let mut i: usize = 0;
    while i < names.len()
        invariant
            i <= names@.len(),
            all == view::each(names@),
            forall|k: int| 0 <= k < i ==> #[trigger] all[k] != key@,
        decreases names@.len() - i,
    {
        assert(all[i as int] == names@[i as int]@);
        if text::same(names[i], key) {
            return true;
        }
        i += 1;
    }
    false
}

fn has_only_keys(o: &Object, names: &Vec<&str>) -> (r: bool)
    ensures
        r == only_keys(o@, view::each(names@)),
{
    let keys = o.keys();
    let mut i: usize = 0;
    while i < keys.len()
        invariant
            i <= keys@.len(),
            forall|k: Seq<char>|
                #![trigger o@.contains_key(k)]
                o@.contains_key(k) <==> exists|i: int|
                    0 <= i < keys@.len() && (#[trigger] keys@[i])@ == k,
            forall|k: int|
                0 <= k < i ==> view::each(names@).contains((#[trigger] keys@[k])@),
        decreases keys@.len() - i,
    {
        if !known_key(keys[i].as_str(), names) {
            assert(o@.contains_key(keys@[i as int]@));
            return false;
        }
        i += 1;
    }
    true
}

fn is_section(j: &Json, names: &Vec<&str>) -> (r: bool)
    ensures
        r == section(j@, view::each(names@)),
{
    match j {
        Json::Object(o) => has_only_keys(o, names),
        Json::List(v) => v.len() >= names.len(),
        _ => false,
    }
}

fn read_text(f: Option<&Json>) -> (r: Option<Option<String>>)
    ensures
        text_setting(view::maybe(f)) == (match r {
            Some(t) => Some(view::maybe(t)),
            None => None,
        }),
{
    match f {
        None => Some(None),
        Some(Json::Text(t)) => Some(Some(t.clone())),
        Some(_) => None,
    }
}

fn read_flag(f: Option<&Json>) -> (r: Option<Option<bool>>)
    ensures
        r == flag_setting(view::maybe(f)),
{
    match f {
        None => Some(None),
        Some(Json::Bool(b)) => Some(Some(*b)),
        Some(_) => None,
    }
}

fn read_texts(f: Option<&Json>) -> (r: Option<Option<Vec<String>>>)
    ensures
        texts_setting(view::maybe(f)) == (match r {
            Some(Some(v)) => Some(Some(view::each(v@))),
            Some(None) => Some(None),
            None => None,
        }),
{
    match f {
        None => Some(None),
        Some(Json::List(list)) => match wire::get_texts(list) {
            Some(texts) => Some(Some(texts)),
            None => None,
        },
        Some(_) => None,
    }
}

fn hollow(j: &Json) -> (r: bool)
    ensures
        r == is_hollow(j@),
{
    match j {
        Json::List(v) => v.len() == 0,
        Json::Object(o) => {
            let keys = o.keys();
            proof {
                if keys@.len() == 0 {
                    assert(o@ =~= Map::<Seq<char>, JsonView>::empty());
                } else {
                    assert(o@.contains_key(keys@[0]@));
                }
            }
            keys.len() == 0
        },
        _ => false,
    }
}

fn only_names(o: &Object, name: &str) -> (r: bool)
    ensures
        r == names_alone(o@, name@),
{
    let found = match o.get(name) {
        Some(v) => hollow(v),
        None => false,
    };
    let mut names: Vec<&str> = Vec::new();
    names.push(name);
    assert(view::each(names@) =~= seq![name@]);
    found && has_only_keys(o, &names)
}

fn read_transport(f: Option<&Json>) -> (r: Option<Option<Transport>>)
    ensures
        r == transport_setting(view::maybe(f)),
{
    match f {
        None => Some(None),
        Some(Json::Text(t)) => if text::same(t.as_str(), "stdio") {
            Some(Some(Transport::Stdio))
        } else if text::same(t.as_str(), "http") {
            Some(Some(Transport::Http))
        } else {
            None
        },
        Some(Json::Object(o)) => if only_names(o, "stdio") {
            Some(Some(Transport::Stdio))
        } else if only_names(o, "http") {
            Some(Some(Transport::Http))
        } else {
            None
        },
        Some(_) => None,
    }
}

fn read_server(f: Option<&Json>) -> (r: Option<ServerFileConfig>)
    ensures
        view::maybe(r) == server_section(view::maybe(f)),
{
    let j = match f {
        None => {
            return Some(
                ServerFileConfig { transport: None, bind: None, allowed_hosts: None, log: None },
            );
        },
        Some(j) => j,
    };
    let mut names: Vec<&str> = Vec::new();
    names.push("transport");
    names.push("bind");
    names.push("allowed_hosts");
    names.push("log");
    assert(view::each(names@) =~= server_names());
    if !is_section(j, &names) {
        return None;
    }
    match (
        read_transport(wire::get_field(j, "transport", 0)),
        read_text(wire::get_field(j, "bind", 1)),
        read_texts(wire::get_field(j, "allowed_hosts", 2)),
        read_text(wire::get_field(j, "log", 3)),
    ) {
        (Some(transport), Some(bind), Some(allowed_hosts), Some(log)) => Some(
            ServerFileConfig { transport, bind, allowed_hosts, log },
        ),
        _ => None,
    }
}

fn read_lsp(f: Option<&Json>) -> (r: Option<LspFileConfig>)
    ensures
        view::maybe(r) == lsp_section(view::maybe(f)),
{
    let j = match f {
        None => {
            return Some(LspFileConfig { enabled: None, bind: None });
        },
        Some(j) => j,
    };
    let mut names: Vec<&str> = Vec::new();
    names.push("enabled");
    names.push("bind");
    assert(view::each(names@) =~= lsp_names());
    if !is_section(j, &names) {
        return None;
    }
    match (
        read_flag(wire::get_field(j, "enabled", 0)),
        read_text(wire::get_field(j, "bind", 1)),
    ) {
        (Some(enabled), Some(bind)) => Some(LspFileConfig { enabled, bind }),
        _ => None,
    }
}

/// One more entry, put where it belongs, is listed with the others.
proof fn entry_is_placed(
    pairs: Seq<(Seq<char>, Seq<char>)>,
    m: Map<Seq<char>, JsonView>,
    added: (Seq<char>, Seq<char>),
    at: int,
)
    requires
        lists_entries(pairs, m),
        !m.contains_key(added.0),
        0 <= at <= pairs.len(),
        forall|i: int| 0 <= i < at ==> text::before((#[trigger] pairs[i]).0, added.0),
        forall|i: int| at <= i < pairs.len() ==> text::before(added.0, (#[trigger] pairs[i]).0),
    ensures
        lists_entries(pairs.insert(at, added), m.insert(added.0, JsonView::Text(added.1))),
{
    let after = pairs.insert(at, added);
    let all = m.insert(added.0, JsonView::Text(added.1));
    assert forall|i: int, j: int| 0 <= i < j < after.len() implies text::before(
        (#[trigger] after[i]).0,
        (#[trigger] after[j]).0,
    ) by {
        let from = if i < at {
            i
        } else {
            i - 1
        };
        let to = if j < at {
            j
        } else {
            j - 1
        };
        if i != at && j != at {
            assert(text::before(pairs[from].0, pairs[to].0));
        }
    }
    assert forall|i: int| 0 <= i < after.len() implies all.contains_key((#[trigger] after[i]).0)
        && all[after[i].0] == JsonView::Text(after[i].1) by {
        if i < at {
            assert(after[i] == pairs[i]);
        } else if i > at {
            assert(after[i] == pairs[i - 1]);
        }
    }
    assert forall|key: Seq<char>| #[trigger] all.contains_key(key) implies exists|i: int|
        0 <= i < after.len() && (#[trigger] after[i]).0 == key by {
        if key == added.0 {
            assert(after[at].0 == key);
        } else {
            assert(m.contains_key(key));
            let i = choose|i: int| 0 <= i < pairs.len() && (#[trigger] pairs[i]).0 == key;
            if i < at {
                assert(after[i].0 == key);
            } else {
                assert(after[i + 1].0 == key);
            }
        }
    }
}

/// Lists one more entry with those of a table.
fn place_pair(
    pairs: &mut Vec<(String, String)>,
    pair: (String, String),
    entries: Ghost<Map<Seq<char>, JsonView>>,
)
    requires
        lists_entries(pathmap::pairs_view(old(pairs)@), entries@),
        !entries@.contains_key(pair.0@),
    ensures
        lists_entries(
            pathmap::pairs_view(final(pairs)@),
            entries@.insert(pair.0@, JsonView::Text(pair.1@)),
        ),
{
    let ghost all = pathmap::pairs_view(pairs@);
    let mut at: usize = 0;
    while at < pairs.len() && text::is_before(pairs[at].0.as_str(), pair.0.as_str())
        invariant
            at <= pairs@.len(),
            all == pathmap::pairs_view(pairs@),
            forall|i: int| 0 <= i < at ==> text::before((#[trigger] all[i]).0, pair.0@),
        decreases pairs@.len() - at,
    {
        assert(all[at as int].0 == pairs@[at as int].0@);
        at += 1;
    }
    let ghost added = (pair.0@, pair.1@);
    proof {
        if at < all.len() {
            assert(all[at as int].0 == pairs@[at as int].0@);
            assert(entries@.contains_key(all[at as int].0));
            text::before_total(all[at as int].0, added.0);
        }
        assert forall|i: int| at <= i < all.len() implies text::before(
            added.0,
            (#[trigger] all[i]).0,
        ) by {
            if i > at {
                assert(text::before(all[at as int].0, all[i].0));
                text::before_transitive(added.0, all[at as int].0, all[i].0);
            }
        }
        entry_is_placed(all, entries@, added, at as int);
    }
    pairs.insert(at, pair);
    assert(pathmap::pairs_view(pairs@) =~= all.insert(at as int, added));
}

fn read_prefixes(f: Option<&Json>) -> (r: Option<Vec<(String, String)>>)
    ensures
        match r {
            Some(pairs) => prefixes_section(view::maybe(f)) is Some && lists_entries(
                pathmap::pairs_view(pairs@),
                prefixes_section(view::maybe(f))->Some_0,
            ),
            None => prefixes_section(view::maybe(f)) is None,
        },
{
    let mut out: Vec<(String, String)> = Vec::new();
    let ghost mut listed: Map<Seq<char>, JsonView> = Map::empty();
    assert(lists_entries(pathmap::pairs_view(out@), listed));
    let o = match f {
        None => {
            return Some(out);
        },
        Some(Json::Object(o)) => o,
        Some(_) => {
            return None;
        },
    };
    let keys = o.keys();
    let mut i: usize = 0;
    while i < keys.len()
        invariant
            i <= keys@.len(),
            view::maybe(f) == Some(JsonView::Object(o@)),
            forall|k: int| 0 <= k < keys@.len() ==> o@.contains_key((#[trigger] keys@[k])@),
            forall|a: int, b: int|
                0 <= a < b < keys@.len() ==> (#[trigger] keys@[a])@ != (#[trigger] keys@[b])@,
            lists_entries(pathmap::pairs_view(out@), listed),
            forall|k: int| 0 <= k < i ==> listed.contains_key((#[trigger] keys@[k])@),
            forall|k: int| i <= k < keys@.len() ==> !listed.contains_key((#[trigger] keys@[k])@),
            forall|key: Seq<char>| #[trigger]
                listed.contains_key(key) ==> o@.contains_key(key) && o@[key] == listed[key]
                    && listed[key] is Text,
        decreases keys@.len() - i,
    {
        let ghost key = keys@[i as int]@;
        assert(o@.contains_key(key));
        let t = match o.get(keys[i].as_str()) {
            Some(Json::Text(t)) => t.clone(),
            _ => {
                assert(!(o@[key] is Text));
                return None;
            },
        };
        let ghost value = JsonView::Text(t@);
        place_pair(&mut out, (keys[i].clone(), t), Ghost(listed));
        proof {
            listed = listed.insert(key, value);
        }
        i += 1;
    }
    proof {
        assert forall|key: Seq<char>| #[trigger] o@.contains_key(key) implies listed.contains_key(
            key,
        ) by {
            let k = choose|k: int| 0 <= k < keys@.len() && (#[trigger] keys@[k])@ == key;
            assert(listed.contains_key(keys@[k]@));
        }
        assert(o@ =~= listed);
    }
    Some(out)
}

impl Default for ServerConfig {
    /// A configuration that says nothing.
    fn default() -> (r: ServerConfig)
        ensures
            r.server.transport is None,
            r.server.bind is None,
            r.server.allowed_hosts is None,
            r.server.log is None,
            r.lsp.enabled is None,
            r.lsp.bind is None,
            r.path_map@.len() == 0,
    {
        ServerConfig {
            server: ServerFileConfig {
                transport: None,
                bind: None,
                allowed_hosts: None,
                log: None,
            },
            lsp: LspFileConfig { enabled: None, bind: None },
            path_map: Vec::new(),
        }
    }
}

impl ServerConfig {
    /// Reads a configuration from the table in its file. A key that is not
    /// known makes it malformed, in every section: a misspelled setting that did
    /// nothing would look like one that was honoured.
    pub fn read(table: &Json) -> (r: Result<ServerConfig, Malformed>)
        ensures
            match r {
                Ok(config) => {
                    &&& is_config(table@)
                    &&& server_section(table@.get("server"@)) == Some(config.server@)
                    &&& lsp_section(table@.get("lsp"@)) == Some(config.lsp@)
                    &&& lists_entries(
                        pathmap::pairs_view(config.path_map@),
                        prefixes_section(table@.get("path_map"@))->Some_0,
                    )
                },
                Err(_) => !is_config(table@),
            },
    {
        let o = match table {
            Json::Object(o) => o,
            _ => {
                return Err(Malformed);
            },
        };
        let mut names: Vec<&str> = Vec::new();
        names.push("server");
        names.push("lsp");
        names.push("path_map");
        assert(view::each(names@) =~= seq!["server"@, "lsp"@, "path_map"@]);
        if !has_only_keys(o, &names) {
            return Err(Malformed);
        }
        match (
            read_server(table.get("server")),
            read_lsp(table.get("lsp")),
            read_prefixes(table.get("path_map")),
        ) {
            (Some(server), Some(lsp), Some(path_map)) => Ok(
                ServerConfig { server, lsp, path_map },
            ),
            _ => Err(Malformed),
        }
    }

    /// Where the configuration file is. `explicit` is the file that the
    /// environment names, `data` the data directory, `config_home` the
    /// directory for configuration and `home` the home directory.
    pub fn default_path(
        explicit: Option<&str>,
        data: Option<&str>,
        config_home: Option<&str>,
        home: Option<&str>,
    ) -> (r: String)
        ensures
            r@ == config_path(
                view::maybe(explicit),
                view::maybe(data),
                view::maybe(config_home),
                view::maybe(home),
            ),
    {
        if let Some(p) = explicit {
            return p.to_owned();
        }
        if let Some(d) = data {
            return path::join(d, "henka.toml");
        }
        let fallback = match home {
            Some(h) => path::join(h, ".config"),
            None => ".config".to_owned(),
        };
        let base = match config_home {
            Some(c) => if text::is_empty(c) {
                fallback
            } else {
                c.to_owned()
            },
            None => fallback,
        };
        path::join(path::join(base.as_str(), "henka").as_str(), "henka.toml")
    }

    /// The settings of the language-server surface. The flag of the command
    /// line can only turn the surface on; an address of the command line or
    /// the environment counts before the file's.
    pub fn resolve_lsp(&self, cli_enabled: bool, cli_bind: Option<String>) -> (r: LspSettings)
        ensures
            r.enabled == surface_enabled(cli_enabled, self.lsp.enabled),
            r.bind@ == first_of(
                view::maybe(cli_bind),
                view::maybe(self.lsp.bind),
                DEFAULT_LSP_BIND@,
            ),
    {
        let in_file = match self.lsp.enabled {
            Some(b) => b,
            None => false,
        };
        LspSettings {
            enabled: cli_enabled || in_file,
            bind: pick(cli_bind, &self.lsp.bind, DEFAULT_LSP_BIND),
        }
    }

    /// The settings of the tool surface. What the command line or the
    /// environment gives counts before the file; a blank value counts as none.
    pub fn resolve_server(
        &self,
        cli_transport: Option<Transport>,
        cli_bind: Option<String>,
        cli_allowed_hosts: &Vec<String>,
    ) -> (r: ServerSettings)
        ensures
            r.transport == transport_used(cli_transport, self.server.transport),
            r.bind@ == first_of(
                not_blank(view::maybe(cli_bind)),
                view::maybe(self.server.bind),
                DEFAULT_MCP_BIND@,
            ),
            view::each(r.allowed_hosts@) == hosts_used(
                view::each(cli_allowed_hosts@),
                self.server@.allowed_hosts,
            ),
    {
        let from_cli = non_blank(cli_allowed_hosts);
        let ghost shown = view::each(from_cli@);
        assert(shown.len() == from_cli@.len());
        let allowed_hosts = if from_cli.len() == 0 {
            match &self.server.allowed_hosts {
                Some(hosts) => non_blank(hosts),
                None => {
                    let none: Vec<String> = Vec::new();
                    assert(view::each(none@) =~= Seq::empty());
                    none
                },
            }
        } else {
            from_cli
        };
        let transport = match cli_transport {
            Some(t) => t,
            None => match self.server.transport {
                Some(t) => t,
                None => Transport::Stdio,
            },
        };
        ServerSettings {
            transport,
            bind: pick(unless_blank(cli_bind), &self.server.bind, DEFAULT_MCP_BIND),
            allowed_hosts,
        }
    }

    /// What to log. The environment counts before the file.
    pub fn resolve_log(&self, env_log: Option<String>) -> (r: String)
        ensures
            r@ == first_of(
                not_blank(view::maybe(env_log)),
                view::maybe(self.server.log),
                DEFAULT_LOG@,
            ),
    {
        pick(unless_blank(env_log), &self.server.log, DEFAULT_LOG)
    }

    /// The map of paths. The environment's, unless it is blank, takes the place
    /// of all of the file's.
    pub fn resolve_path_map(&self, env_spec: Option<String>) -> (r: PathMap)
        ensures
            r@ == paths_used(view::maybe(env_spec), pathmap::pairs_view(self.path_map@)),
    {
        match unless_blank(env_spec) {
            Some(t) => PathMap::parse(t.as_str()),
            None => PathMap::from_entries(&self.path_map),
        }
    }
}

/// What counts before something else is what comes out, and what it is set over
/// counts only where it is missing.
pub proof fn sources_count_in_order(
    over: Option<Seq<char>>,
    file: Option<Seq<char>>,
    default: Seq<char>,
)
    ensures
        over is Some ==> first_of(over, file, default) == over->Some_0,
        over is None && file is Some ==> first_of(over, file, default) == file->Some_0,
        over is None && file is None ==> first_of(over, file, default) == default,
{
}

/// A misspelled key makes a configuration malformed, at the top and in either
/// section of settings.
pub proof fn unknown_keys_are_never_ignored(table: JsonView, key: Seq<char>)
    requires
        table is Object,
    ensures
        table->Object_0.contains_key(key) && !seq!["server"@, "lsp"@, "path_map"@].contains(key)
            ==> !is_config(table),
        table.get("server"@) is Some && table.get("server"@)->Some_0 is Object && table.get(
            "server"@,
        )->Some_0->Object_0.contains_key(key) && !server_names().contains(key) ==> !is_config(
            table,
        ),
        table.get("lsp"@) is Some && table.get("lsp"@)->Some_0 is Object && table.get(
            "lsp"@,
        )->Some_0->Object_0.contains_key(key) && !lsp_names().contains(key) ==> !is_config(table),
{
}

/// A section that is missing says nothing, whatever the others say.
pub proof fn missing_sections_say_nothing(table: JsonView)
    requires
        is_config(table),
    ensures
        table.get("server"@) is None ==> server_section(table.get("server"@)) == Some(
            ServerFileConfigView { transport: None, bind: None, allowed_hosts: None, log: None },
        ),
        table.get("lsp"@) is None ==> lsp_section(table.get("lsp"@)) == Some(
            LspFileConfigView { enabled: None, bind: None },
        ),
        table.get("path_map"@) is None ==> prefixes_section(table.get("path_map"@)) == Some(
            Map::<Seq<char>, JsonView>::empty(),
        ),
{
}

} // verus!
