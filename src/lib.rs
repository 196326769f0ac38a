//! Entity registry and identifier formatting for a document-generation tool:
//! clients, their projects and the named counters that mint display numbers,
//! the references users type for them, and the small pure helpers around
//! document compilation (template types, message lookup, tool arguments).

pub mod clients;
mod clock;
pub mod compile;
pub mod counters;
pub mod doctype;
pub mod error;
pub mod ident;
pub mod laws;
pub mod locale;
pub mod models;
pub mod packages;
pub mod projects;
pub mod refs;
pub mod templates;
