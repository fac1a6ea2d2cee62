//! The settings of the proxy, which come from the environment.

use crate::text;
use crate::view;
use vstd::prelude::*;

verus! {

/// Where the remote server is where nothing else is said.
pub const DEFAULT_URL: &'static str = "http://127.0.0.1:8181/mcp";

/// The settings of the proxy.
#[derive(Clone, Debug, PartialEq, Eq)]
pub struct Config {
    /// Where the remote server is.
    pub henka_url: String,
    /// The id of the project, where it is given and not looked up.
    pub project_override: Option<String>,
}

impl Config {
    /// The settings, by what the environment says of the server and of the
    /// project. An empty project counts as none.
    pub fn from_env(url: Option<String>, project: Option<String>) -> (r: Config)
        ensures
            r.henka_url@ == (match url {
                Some(u) => u@,
                None => DEFAULT_URL@,
            }),
            view::maybe(r.project_override) == (match project {
                Some(p) => if p@.len() == 0 {
                    None
                } else {
                    Some(p@)
                },
                None => None,
            }),
    {
        let henka_url = match url {
            Some(u) => u,
            None => DEFAULT_URL.to_owned(),
        };
        let project_override = match project {
            Some(p) => if text::is_empty(p.as_str()) {
                None
            } else {
                Some(p)
            },
            None => None,
        };
        Config { henka_url, project_override }
    }
}

} // verus!
