//! Settings: where they come from, and what they say.

use crate::analyzer;
use crate::analyzer::ProbeView;
use crate::json::JsonView;
use crate::path;
use crate::server_config;
use crate::server_config::Transport;
use crate::text;
use crate::uri;
use vstd::prelude::*;

verus! {

/// The command line counts before the file, and the file before what holds by
/// default.
pub proof fn the_command_line_counts_first(
    over: Option<Transport>,
    file: Option<Transport>,
    flag: bool,
    enabled: Option<bool>,
)
    ensures
        over is Some ==> server_config::transport_used(over, file) == over->Some_0,
        over is None && file is Some ==> server_config::transport_used(over, file) == file->Some_0,
        over is None && file is None ==> server_config::transport_used(over, file)
            == Transport::Stdio,
        server_config::surface_enabled(flag, enabled) <==> flag || enabled == Some(true),
{
}

/// A setting of blanks is no setting.
pub proof fn blank_settings_do_not_count(s: Option<Seq<char>>)
    ensures
        s is Some && text::is_blank(s->Some_0) ==> server_config::not_blank(s) is None,
        s is Some && !text::is_blank(s->Some_0) ==> server_config::not_blank(s) == s,
        s is None ==> server_config::not_blank(s) is None,
{
}

/// Texts that are not blank are kept, in order, without the space around them.
pub proof fn blank_texts_are_left_out(values: Seq<Seq<char>>, more: Seq<char>)
    ensures
        server_config::trimmed_texts(values.push(more)) == (if text::is_blank(more) {
            server_config::trimmed_texts(values)
        } else {
            server_config::trimmed_texts(values).push(text::trimmed(more))
        }),
        server_config::trimmed_texts(Seq::empty()).len() == 0,
{
    text::trimmed_empty_iff_blank(more);
    let all = values.push(more);
    let a = Seq::new(
        values.len(),
        |i: int|
            if text::trimmed(values[i]).len() == 0 {
                None
            } else {
                Some(text::trimmed(values[i]))
            },
    );
    let b = Seq::new(
        all.len(),
        |i: int|
            if text::trimmed(all[i]).len() == 0 {
                None
            } else {
                Some(text::trimmed(all[i]))
            },
    );
    assert(b.drop_last() =~= a);
}

/// The hosts of the command line take the place of those of the file.
pub proof fn hosts_of_the_command_line_count_first(
    over: Seq<Seq<char>>,
    file: Option<Seq<Seq<char>>>,
)
    ensures
        server_config::trimmed_texts(over).len() > 0 ==> server_config::hosts_used(over, file)
            == server_config::trimmed_texts(over),
        server_config::trimmed_texts(over).len() == 0 && file is Some
            ==> server_config::hosts_used(over, file) == server_config::trimmed_texts(
            file->Some_0,
        ),
        server_config::trimmed_texts(over).len() == 0 && file is None
            ==> server_config::hosts_used(over, file).len() == 0,
{
}

/// Taking off the space around a text takes off nothing else.
pub proof fn trimming_takes_off_space_only(s: Seq<char>)
    ensures
        exists|from: int, to: int|
            {
                &&& 0 <= from <= to <= s.len()
                &&& text::trimmed(s) == #[trigger] s.subrange(from, to)
                &&& forall|i: int| 0 <= i < from ==> text::is_white(#[trigger] s[i])
                &&& forall|i: int| to <= i < s.len() ==> text::is_white(#[trigger] s[i])
                &&& from < to ==> !text::is_white(s[from]) && !text::is_white(s[to - 1])
            },
{
    let from = front_off(s);
    let f = s.skip(from);
    let n = back_off(f);
    let to = from + n;
    assert(f.take(n) =~= s.subrange(from, to));
    assert forall|i: int| to <= i < s.len() implies text::is_white(#[trigger] s[i]) by {
        assert(f[i - from] == s[i]);
    }
    if from < to {
        assert(f[0] == s[from]);
        assert(f[n - 1] == s[to - 1]);
    }
    assert(text::trimmed(s) == s.subrange(from, to));
}

proof fn front_off(s: Seq<char>) -> (n: int)
    ensures
        0 <= n <= s.len(),
        text::trim_front(s) == s.skip(n),
        forall|i: int| 0 <= i < n ==> text::is_white(#[trigger] s[i]),
        n < s.len() ==> !text::is_white(s[n]),
    decreases s.len(),
{
    if s.len() > 0 && text::is_white(s.first()) {
        let m = front_off(s.skip(1));
        assert(s.skip(1).skip(m) =~= s.skip(m + 1));
        assert forall|i: int| 0 <= i < m + 1 implies text::is_white(#[trigger] s[i]) by {
            if i > 0 {
                assert(s.skip(1)[i - 1] == s[i]);
            }
        }
        m + 1
    } else {
        assert(s.skip(0) =~= s);
        0
    }
}

proof fn back_off(s: Seq<char>) -> (n: int)
    ensures
        0 <= n <= s.len(),
        text::trim_back(s) == s.take(n),
        forall|i: int| n <= i < s.len() ==> text::is_white(#[trigger] s[i]),
        n > 0 ==> !text::is_white(s[n - 1]),
    decreases s.len(),
{
    if s.len() > 0 && text::is_white(s.last()) {
        let n = back_off(s.drop_last());
        assert(s.drop_last().take(n) =~= s.take(n));
        assert forall|i: int| n <= i < s.len() implies text::is_white(#[trigger] s[i]) by {
            if i < s.len() - 1 {
                assert(s.drop_last()[i] == s[i]);
            }
        }
        n
    } else {
        assert(s.take(s.len() as int) =~= s);
        s.len() as int
    }
}

/// What a setting that may be left out says.
pub open spec fn says_text(m: Map<Seq<char>, JsonView>, key: Seq<char>, t: Option<Seq<char>>) -> bool {
    match t {
        Some(t) => JsonView::Object(m).text_at(key) == Some(t),
        None => JsonView::Object(m).get(key) is None,
    }
}

/// The section on the server says what stands under the name of each setting.
pub proof fn server_settings_are_read_by_name(m: Map<Seq<char>, JsonView>)
    ensures
        match server_config::server_section(Some(JsonView::Object(m))) {
            Some(read) => {
                let given = JsonView::Object(m);
                &&& says_text(m, "bind"@, read.bind)
                &&& says_text(m, "log"@, read.log)
                &&& read.transport is None <==> given.get("transport"@) is None
                &&& given.text_at("transport"@) == Some("stdio"@) ==> read.transport == Some(
                    Transport::Stdio,
                )
                &&& given.text_at("transport"@) == Some("http"@) ==> read.transport == Some(
                    Transport::Http,
                )
                &&& read.allowed_hosts is None <==> given.get("allowed_hosts"@) is None
                &&& read.allowed_hosts is Some ==> given.items_at("allowed_hosts"@) is Some
                    && given.items_at("allowed_hosts"@)->Some_0.len()
                    == read.allowed_hosts->Some_0.len() && forall|i: int|
                    0 <= i < read.allowed_hosts->Some_0.len() ==> given.items_at(
                        "allowed_hosts"@,
                    )->Some_0[i] == JsonView::Text(#[trigger] read.allowed_hosts->Some_0[i])
            },
            None => m != Map::<Seq<char>, JsonView>::empty(),
        },
{
    reveal_strlit("stdio");
    reveal_strlit("http");
    assert("stdio"@.len() == 5);
    assert("http"@.len() == 4);
}

/// The section on the language-server surface says what stands under the name of
/// each setting.
pub proof fn surface_settings_are_read_by_name(m: Map<Seq<char>, JsonView>)
    ensures
        match server_config::lsp_section(Some(JsonView::Object(m))) {
            Some(read) => {
                &&& says_text(m, "bind"@, read.bind)
                &&& read.enabled is Some ==> JsonView::Object(m).flag_at("enabled"@) == read.enabled
                &&& read.enabled is None ==> JsonView::Object(m).get("enabled"@) is None
            },
            None => m != Map::<Seq<char>, JsonView>::empty(),
        },
{
}

/// A section of known settings, each of its own type, is never refused.
pub proof fn well_formed_sections_are_read(m: Map<Seq<char>, JsonView>)
    requires
        forall|k: Seq<char>| #[trigger]
            m.contains_key(k) ==> {
                ||| k == "bind"@ && m[k] is Text
                ||| k == "log"@ && m[k] is Text
                ||| k == "transport"@ && (m[k] == JsonView::Text("stdio"@) || m[k]
                    == JsonView::Text("http"@))
                ||| k == "allowed_hosts"@ && m[k] is List && forall|i: int|
                    0 <= i < m[k]->List_0.len() ==> (#[trigger] m[k]->List_0[i]) is Text
            },
    ensures
        server_config::server_section(Some(JsonView::Object(m))) is Some,
{
    let names = server_config::server_names();
    assert(names[0] == "transport"@);
    assert(names[1] == "bind"@);
    assert(names[2] == "allowed_hosts"@);
    assert(names[3] == "log"@);
    reveal_strlit("transport");
    reveal_strlit("bind");
    reveal_strlit("allowed_hosts");
    reveal_strlit("log");
    assert("transport"@.len() == 9);
    assert("bind"@.len() == 4);
    assert("allowed_hosts"@.len() == 13);
    assert("log"@.len() == 3);
    reveal_strlit("stdio");
    reveal_strlit("http");
    assert("stdio"@.len() == 5);
    assert("http"@.len() == 4);
    assert(server_config::only_keys(m, names)) by {
        assert forall|key: Seq<char>| #[trigger] m.contains_key(key) implies names.contains(key) by {
            assert(names.contains(names[0]) && names.contains(names[1]) && names.contains(names[2])
                && names.contains(names[3]));
        }
    }
    if m.contains_key("allowed_hosts"@) {
        let s = m["allowed_hosts"@]->List_0;
        assert(crate::wire::texts_of(s) is Some);
    }
}

/// The configuration file is the one that is named, else the one in the data
/// directory, else the one in the directory for configurations.
pub proof fn configurations_are_found_in_order(
    explicit: Option<Seq<char>>,
    data: Option<Seq<char>>,
    config_home: Option<Seq<char>>,
    home: Option<Seq<char>>,
)
    ensures
        ({
            let found = server_config::config_path(explicit, data, config_home, home);
            let named = config_home is Some && config_home->Some_0.len() > 0;
            let file = seq!["henka.toml"@];
            &&& explicit is Some ==> found == explicit->Some_0
            &&& explicit is None && data is Some ==> path::components(found) == path::components(
                data->Some_0,
            ) + file
            &&& explicit is None && data is None && named ==> path::components(found)
                == path::components(config_home->Some_0) + seq!["henka"@] + file
            &&& explicit is None && data is None && !named && home is Some ==> path::components(
                found,
            ) == path::components(home->Some_0) + seq![".config"@] + seq!["henka"@] + file
        }),
{
    reveal_strlit("henka.toml");
    reveal_strlit("henka");
    reveal_strlit(".config");
    one_name("henka.toml"@);
    one_name("henka"@);
    one_name(".config"@);
    if let Some(d) = data {
        path::join_appends_components(d, "henka.toml"@);
    }
    let base = server_config::config_base(config_home, home);
    if let Some(h) = home {
        path::join_appends_components(h, ".config"@);
    }
    path::join_appends_components(base, "henka"@);
    path::join_appends_components(path::joined(base, "henka"@), "henka.toml"@);
}

proof fn one_name(name: Seq<char>)
    requires
        name.len() > 1,
        forall|i: int| 0 <= i < name.len() ==> name[i] != '/',
        name[0] != '.' || name[1] != '/',
    ensures
        path::components(name) == seq![name],
        !path::is_rooted(name),
        !path::starts_here(name),
{
    no_slash(name, 0);
    assert(name.subrange(0, name.len() as int) =~= name);
    assert(seq!['.'].len() == 1);
    assert(path::spans(name) =~= seq![(0int, name.len() as int)]);
    assert(path::components(name) =~= seq![name]);
}

proof fn no_slash(name: Seq<char>, i: int)
    requires
        0 <= i <= name.len(),
        forall|k: int| 0 <= k < name.len() ==> name[k] != '/',
    ensures
        path::next_slash(name, i) == name.len(),
    decreases name.len() - i,
{
    if i < name.len() {
        no_slash(name, i + 1);
    }
}

/// The program that is started is the first that runs, in the order of the
/// candidates; else the one that runs by its name alone.
pub proof fn the_first_program_that_runs_is_started(
    candidates: Seq<Seq<char>>,
    probes: Seq<ProbeView>,
    on_path: bool,
    k: int,
)
    requires
        0 <= k <= probes.len(),
        forall|i: int| 0 <= i < k ==> !((#[trigger] probes[i]) is Runs),
        k < probes.len() ==> probes[k] is Runs,
    ensures
        k < probes.len() ==> analyzer::located(candidates, probes, on_path) == Ok::<
            Seq<char>,
            Seq<char>,
        >(probes[k]->Runs_0),
        k == probes.len() && on_path ==> analyzer::located(candidates, probes, on_path) == Ok::<
            Seq<char>,
            Seq<char>,
        >("rust-analyzer"@),
        k == probes.len() && !on_path ==> analyzer::located(candidates, probes, on_path) is Err,
{
    first_running(probes, 0, k);
}

proof fn first_running(probes: Seq<ProbeView>, i: int, k: int)
    requires
        0 <= i <= k <= probes.len(),
        forall|m: int| i <= m < k ==> !((#[trigger] probes[m]) is Runs),
        k < probes.len() ==> probes[k] is Runs,
    ensures
        analyzer::running_from(probes, i) == (if k < probes.len() {
            Some(probes[k]->Runs_0)
        } else {
            None
        }),
    decreases k - i,
{
    if i < k {
        first_running(probes, i + 1, k);
    }
}

/// The language server is told which process starts it, and on which tree.
pub proof fn the_server_is_told_the_tree(process_id: u32, root: Seq<char>)
    ensures
        ({
            let told = analyzer::greeting(process_id, uri::file_uri(root));
            &&& told.count_at("processId"@) == Some(process_id as u64)
            &&& told.text_at("rootUri"@) is Some
            &&& uri::path_of(told.text_at("rootUri"@)->Some_0) == root
        }),
{
    reveal_strlit("processId");
    reveal_strlit("rootUri");
    reveal_strlit("capabilities");
    reveal_strlit("initializationOptions");
    assert("processId"@.len() == 9);
    assert("rootUri"@.len() == 7);
    assert("capabilities"@.len() == 12);
    assert("initializationOptions"@.len() == 21);
    uri::file_uri_reads_back(root);
}

/// The program is looked for where it is named first, then in the caches.
pub proof fn named_programs_are_tried_first(named: Seq<Seq<char>>, cache: Seq<char>)
    ensures
        ({
            let tried = analyzer::program_candidates(named, cache);
            &&& tried.len() == named.len() + 2
            &&& tried.take(named.len() as int) == named
            &&& tried[named.len() as int] == ".cache/rust-analyzer/rust-analyzer"@
            &&& tried.last() == path::joined(cache, "rust-analyzer/rust-analyzer"@)
        }),
{
    assert(analyzer::program_candidates(named, cache).take(named.len() as int) =~= named);
}

/// Every place at which a program was looked for is told, in order, and whether
/// something there did not run.
pub proof fn every_place_looked_at_is_told(
    candidates: Seq<Seq<char>>,
    probes: Seq<ProbeView>,
    i: int,
)
    requires
        probes.len() <= candidates.len(),
        0 <= i < probes.len(),
    ensures
        ({
            let told = analyzer::looked_at(candidates, probes);
            &&& told.len() == probes.len() + 1
            &&& probes[i] is Missing ==> told[i] == candidates[i]
            &&& probes[i] is Broken ==> told[i] == probes[i]->Broken_0 + " (found, does not run)"@
            &&& told.last() == "rust-analyzer (PATH)"@
        }),
{
}

/// The cache is the one that is named, else the one under the home directory.
pub proof fn the_cache_is_the_one_named(cache_home: Option<Seq<char>>, home: Option<Seq<char>>)
    ensures
        cache_home is Some && cache_home->Some_0.len() > 0 ==> analyzer::cache_dir(cache_home, home)
            == path::joined(cache_home->Some_0, "henka"@),
        (cache_home is None || cache_home->Some_0.len() == 0) && home is Some
            ==> analyzer::cache_dir(cache_home, home) == path::joined(
            path::joined(home->Some_0, ".cache"@),
            "henka"@,
        ),
{
}

/// The analysis is done only where the server's own status says that it rests.
pub proof fn only_a_resting_server_is_ready(method: Seq<char>, params: JsonView)
    ensures
        analyzer::is_ready(method, params) ==> method == "experimental/serverStatus"@
            && params.get("quiescent"@) == Some(JsonView::Bool(true)),
        method == "experimental/serverStatus"@ && params.get("quiescent"@) == Some(
            JsonView::Bool(true),
        ) ==> analyzer::is_ready(method, params),
{
}

/// The path map of the environment takes the place of the one of the file.
pub proof fn the_environment_maps_first(
    over: Option<Seq<char>>,
    file: Seq<(Seq<char>, Seq<char>)>,
)
    ensures
        over is Some && !text::is_blank(over->Some_0) ==> server_config::paths_used(over, file)
            == crate::pathmap::parsed(over->Some_0),
        over is None || text::is_blank(over->Some_0) ==> server_config::paths_used(over, file)
            == crate::pathmap::usable_entries(file),
{
}

} // verus!
