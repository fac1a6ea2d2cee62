//! The settings of the server process.

use henka::json::Json;
use henka::json::Number;
use henka::json::Object;
use henka::server_config::LspSettings;
use henka::server_config::ServerConfig;
use henka::server_config::ServerSettings;
use henka::server_config::Transport;
use henka::server_config::DEFAULT_LOG;
use henka::server_config::DEFAULT_LSP_BIND;
use henka::server_config::DEFAULT_MCP_BIND;
use henka::wire::Malformed;

/// A TOML value as the library holds it.
fn lib(value: &toml::Value) -> Json {
    match value {
        toml::Value::String(s) => Json::Text(s.clone()),
        toml::Value::Integer(n) if *n >= 0 => Json::Number(Number::Unsigned(*n as u64)),
        toml::Value::Integer(n) => Json::Number(Number::Negative(*n)),
        toml::Value::Float(f) => Json::Number(Number::Decimal(f.to_string())),
        toml::Value::Boolean(b) => Json::Bool(*b),
        toml::Value::Datetime(d) => {
            Json::Object(Object::new().with("$__toml_private_datetime", Json::Text(d.to_string())))
        }
        toml::Value::Array(list) => Json::List(list.iter().map(lib).collect()),
        toml::Value::Table(table) => {
            let mut object = Object::new();
            for (key, value) in table {
                object = object.with(key, lib(value));
            }
            Json::Object(object)
        }
    }
}

fn read_config(body: &str) -> Result<ServerConfig, Malformed> {
    let table: toml::Table = toml::from_str(body).unwrap();
    ServerConfig::read(&lib(&toml::Value::Table(table)))
}

/// Load a config from an inline TOML body.
fn load_config(body: &str) -> ServerConfig {
    read_config(body).unwrap()
}

#[test]
fn absent_file_is_all_defaults() {
    let config = ServerConfig::default();
    assert_eq!(
        config.resolve_lsp(false, None),
        LspSettings {
            enabled: false,
            bind: DEFAULT_LSP_BIND.to_string()
        }
    );
    assert_eq!(
        config.resolve_server(None, None, &vec![]),
        ServerSettings {
            transport: Transport::Stdio,
            bind: DEFAULT_MCP_BIND.to_string(),
            allowed_hosts: vec![],
        }
    );
    assert_eq!(config.resolve_log(None), DEFAULT_LOG);
    assert!(config.resolve_path_map(None).is_empty());
}

#[test]
fn a_full_file_supplies_every_setting() {
    // The whole of a deployment's startup, written down: this is the file
    // that replaces `HENKA_LOG=debug HENKA_PATH_MAP=/root=/Users/me/Projects
    // henka --transport http --allowed-host host.docker.internal --lsp`.
    let config = load_config(
        r#"
        [server]
        transport = "http"
        bind = "0.0.0.0:9181"
        allowed_hosts = ["host.docker.internal"]
        log = "debug"

        [path_map]
        "/root" = "/Users/me/Projects"

        [lsp]
        enabled = true
        bind = "0.0.0.0:9182"
        "#,
    );

    assert_eq!(
        config.resolve_server(None, None, &vec![]),
        ServerSettings {
            transport: Transport::Http,
            bind: "0.0.0.0:9181".to_string(),
            allowed_hosts: vec!["host.docker.internal".to_string()],
        }
    );
    assert_eq!(config.resolve_log(None), "debug");
    assert_eq!(
        config.resolve_lsp(false, None),
        LspSettings {
            enabled: true,
            bind: "0.0.0.0:9182".to_string()
        }
    );
    assert_eq!(
        config.resolve_path_map(None).map("/root/henka"),
        "/Users/me/Projects/henka"
    );
}

#[test]
fn an_absent_section_leaves_only_its_own_settings_at_the_default() {
    // `[server]` given, `[lsp]`/`[path_map]` absent: the file must not be
    // all-or-nothing.
    let config = load_config("[server]\ntransport = \"http\"\n");
    assert_eq!(config.resolve_server(None, None, &vec![]).transport, Transport::Http);
    assert_eq!(config.resolve_server(None, None, &vec![]).bind, DEFAULT_MCP_BIND);
    assert!(!config.resolve_lsp(false, None).enabled);
    assert!(config.resolve_path_map(None).is_empty());
}

#[test]
fn path_map_takes_more_than_one_entry() {
    let config = load_config(
        r#"
        [path_map]
        "/root" = "/Users/me/Projects"
        "/data/repos" = "/mnt/repos"
        "#,
    );
    let map = config.resolve_path_map(None);
    assert_eq!(
        map.map("/root/henka"),
        "/Users/me/Projects/henka"
    );
    assert_eq!(
        map.map("/data/repos/svc"),
        "/mnt/repos/svc"
    );
}

#[test]
fn transport_precedence_cli_over_file_over_default() {
    // No env form for `--transport`, so the ordering collapses to cli > file.
    let file = load_config("[server]\ntransport = \"http\"\n");
    let empty = ServerConfig::default();

    // default
    assert_eq!(
        empty.resolve_server(None, None, &vec![]).transport,
        Transport::Stdio
    );
    // file over default
    assert_eq!(
        file.resolve_server(None, None, &vec![]).transport,
        Transport::Http
    );
    // cli over file — including back to the value that is also the default,
    // which only a non-defaulted CLI option can express
    assert_eq!(
        file.resolve_server(Some(Transport::Stdio), None, &vec![]).transport,
        Transport::Stdio
    );
}

#[test]
fn bind_precedence_cli_over_file_over_default() {
    let file = load_config("[server]\nbind = \"0.0.0.0:9181\"\n");
    assert_eq!(
        ServerConfig::default().resolve_server(None, None, &vec![]).bind,
        DEFAULT_MCP_BIND
    );
    assert_eq!(file.resolve_server(None, None, &vec![]).bind, "0.0.0.0:9181");
    assert_eq!(
        file.resolve_server(None, Some("127.0.0.1:7000".to_string()), &vec![])
            .bind,
        "127.0.0.1:7000"
    );
}

#[test]
fn allowed_hosts_precedence_cli_or_env_over_file_over_default() {
    // clap folds `--allowed-host` over `HENKA_MCP_ALLOWED_HOST` before this
    // point, so both arrive as the same argument and both outrank the file.
    let file = load_config("[server]\nallowed_hosts = [\"from.file\"]\n");
    assert!(
        ServerConfig::default()
            .resolve_server(None, None, &vec![])
            .allowed_hosts
            .is_empty()
    );
    assert_eq!(
        file.resolve_server(None, None, &vec![]).allowed_hosts,
        vec!["from.file".to_string()]
    );
    assert_eq!(
        file.resolve_server(None, None, &vec!["from.cli".to_string()])
            .allowed_hosts,
        vec!["from.cli".to_string()]
    );
    // The CLI/env list replaces the file's rather than adding to it, so an
    // operator can narrow what a deployment's file trusts.
    assert_eq!(
        file.resolve_server(None, None, &vec!["a".to_string(), "b".to_string()])
            .allowed_hosts,
        vec!["a".to_string(), "b".to_string()]
    );
}

#[test]
fn log_precedence_env_over_file_over_default() {
    // No CLI flag for the log filter, so the environment is the top rung.
    let file = load_config("[server]\nlog = \"debug\"\n");
    assert_eq!(ServerConfig::default().resolve_log(None), DEFAULT_LOG);
    assert_eq!(file.resolve_log(None), "debug");
    assert_eq!(file.resolve_log(Some("trace".to_string())), "trace");
}

#[test]
fn path_map_precedence_env_over_file_over_default() {
    let file = load_config("[path_map]\n\"/root\" = \"/from/file\"\n");
    assert!(ServerConfig::default().resolve_path_map(None).is_empty());
    assert_eq!(
        file.resolve_path_map(None).map("/root/p"),
        "/from/file/p"
    );
    // The environment replaces the file's map wholesale.
    let env = file.resolve_path_map(Some("/root=/from/env".to_string()));
    assert_eq!(
        env.map("/root/p"),
        "/from/env/p"
    );
}

#[test]
fn lsp_precedence_cli_over_file_over_default() {
    let file = load_config("[lsp]\nenabled = true\nbind = \"0.0.0.0:9182\"\n");
    assert_eq!(
        ServerConfig::default().resolve_lsp(false, None),
        LspSettings {
            enabled: false,
            bind: DEFAULT_LSP_BIND.to_string()
        }
    );
    assert_eq!(
        file.resolve_lsp(false, None),
        LspSettings {
            enabled: true,
            bind: "0.0.0.0:9182".to_string()
        }
    );
    // `--lsp-bind` (or HENKA_LSP_BIND, folded in by clap) wins over the file.
    assert_eq!(
        file.resolve_lsp(false, Some("127.0.0.1:7000".to_string())).bind,
        "127.0.0.1:7000"
    );
}

#[test]
fn the_lsp_flag_only_ever_enables() {
    // `--lsp` is a bare flag: absent means "unset", not "disabled", so it
    // cannot turn off what the file switched on.
    let config = ServerConfig::default();
    assert!(config.resolve_lsp(true, None).enabled);
    assert_eq!(config.resolve_lsp(true, None).bind, DEFAULT_LSP_BIND);

    let file = config_enabled_false();
    assert!(!file.resolve_lsp(false, None).enabled);
    assert!(file.resolve_lsp(true, None).enabled);
}

fn config_enabled_false() -> ServerConfig {
    load_config("[lsp]\nenabled = false\n")
}

#[test]
fn blank_env_and_cli_values_do_not_shadow_the_file() {
    // A container that always exports the variable (or always passes the
    // flag) leaves a blank behind when it is unconfigured; that must fall
    // through to the file rather than wiping it.
    let file = load_config(
        r#"
        [server]
        bind = "0.0.0.0:9181"
        log = "debug"

        [path_map]
        "/root" = "/from/file"
        "#,
    );
    assert_eq!(
        file.resolve_server(None, Some("  ".to_string()), &vec![]).bind,
        "0.0.0.0:9181"
    );
    assert_eq!(
        file.resolve_server(None, None, &vec!["".to_string()])
            .allowed_hosts,
        Vec::<String>::new()
    );
    assert_eq!(file.resolve_log(Some("".to_string())), "debug");
    assert_eq!(
        file.resolve_path_map(Some("".to_string()))
            .map("/root/p"),
        "/from/file/p"
    );
}

#[test]
fn a_malformed_file_is_an_error_not_a_silent_default() {
    assert!(read_config("[lsp]\nenabled = \"not-a-bool\"\n").is_err());
}

#[test]
fn a_bad_transport_value_is_an_error() {
    assert!(read_config("[server]\ntransport = \"htp\"\n").is_err());
}

#[test]
fn a_misspelled_key_is_an_error_rather_than_silently_ignored() {
    // A setting that quietly did nothing is the failure mode this file
    // exists to avoid, so unknown keys are rejected at every level.
    for body in [
        "[server]\nalowed_hosts = [\"h\"]\n",
        "[lsp]\nenable = true\n",
        "[serverr]\ntransport = \"http\"\n",
    ] {
        assert!(read_config(body).is_err(), "expected an error for: {body}");
    }
}

#[test]
fn prefixes_are_listed_in_the_order_of_their_keys() {
    let config = load_config("[path_map]\n\"/b\" = \"/2\"\n\"/a/c\" = \"/3\"\n\"/a\" = \"/1\"\n");
    let keys: Vec<&str> = config.path_map.iter().map(|(k, _)| k.as_str()).collect();
    assert_eq!(keys, vec!["/a", "/a/c", "/b"]);
    let values: Vec<&str> = config.path_map.iter().map(|(_, v)| v.as_str()).collect();
    assert_eq!(values, vec!["/1", "/3", "/2"]);
}

#[test]
fn a_section_may_be_an_array_of_all_its_settings() {
    let config = load_config("lsp = [true, \"0.0.0.0:1\"]\nserver = [{ http = {} }, \"b\", [\"h\"], \"trace\"]\n");
    assert_eq!(config.lsp.enabled, Some(true));
    assert_eq!(config.lsp.bind.as_deref(), Some("0.0.0.0:1"));
    assert_eq!(config.server.transport, Some(Transport::Http));
    assert_eq!(config.server.allowed_hosts, Some(vec!["h".to_string()]));
    assert_eq!(config.server.log.as_deref(), Some("trace"));
    assert!(read_config("lsp = [true]\n").is_err());
    assert!(read_config("lsp = 3\n").is_err());
    assert!(read_config("[path_map]\n\"/a\" = 1\n").is_err());
    assert!(read_config("[server]\nallowed_hosts = [1]\n").is_err());
    assert!(read_config("[server]\nlog = 1979-05-27\n").is_err());
}

#[test]
fn the_configuration_file_is_where_the_environment_says() {
    assert_eq!(ServerConfig::default_path(Some("/e.toml"), Some("/d"), Some("/c"), Some("/h")), "/e.toml");
    assert_eq!(ServerConfig::default_path(None, Some("/d"), Some("/c"), Some("/h")), "/d/henka.toml");
    assert_eq!(ServerConfig::default_path(None, None, Some("/c"), Some("/h")), "/c/henka/henka.toml");
    assert_eq!(ServerConfig::default_path(None, None, Some(""), Some("/h")), "/h/.config/henka/henka.toml");
    assert_eq!(ServerConfig::default_path(None, None, None, None), ".config/henka/henka.toml");
}

#[test]
fn hosts_are_trimmed() {
    let config = load_config("[server]\nallowed_hosts = [\" a \", \"\", \"\\t\"]\n");
    assert_eq!(config.resolve_server(None, None, &vec![]).allowed_hosts, vec!["a".to_string()]);
}
