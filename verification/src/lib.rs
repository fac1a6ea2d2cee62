//! Semantics-aware code operations for many projects behind one server: which
//! operations there are, whom a request is handed to, how it runs, and what its
//! answer looks like.

pub mod analyzer;
pub mod convert;
pub mod edit;
pub mod error;
pub mod json;
pub mod language;
pub mod laws;
pub mod lsp;
pub mod mcp;
pub mod operation;
pub mod ops;
pub mod path;
pub mod pathmap;
pub mod project;
pub mod protocol;
pub mod proxy;
pub mod run;
pub mod server_config;
pub mod source;
pub mod text;
pub mod ts_ops;
pub mod uri;
pub mod view;
pub mod wire;
pub mod wire_edit;
pub mod workspace;
