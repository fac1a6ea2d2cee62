//! The proxy: a language server that hands the requests of an editor on to the
//! operations of a remote server.

pub mod backend;
pub mod config;
pub mod convert;
pub mod documents;
pub mod mcp;
pub mod project;
pub mod session;
