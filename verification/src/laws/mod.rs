//! What holds of the library as a whole, stated over what goes in and what
//! comes out. Values are read here by the names of their fields alone.

pub mod answers;
pub mod asking;
pub mod editors;
pub mod edits;
pub mod places;
pub mod proxies;
pub mod quotes;
pub mod reports;
pub mod requests;
pub mod routing;
pub mod runs;
pub mod settings;
pub mod shapes;
pub mod symbols;
pub mod texts;
