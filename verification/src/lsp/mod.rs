//! The language-server surface: the operations, as an editor asks for them.

pub mod mapping;
pub mod session;
