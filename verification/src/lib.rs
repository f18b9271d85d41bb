//! Document and diagnostic orchestration for a language server: a position
//! codec between character columns and UTF-16 columns, the conversion of
//! front-end failures into diagnostics, a document store, prefix completion,
//! and the server's lifecycle decisions.

pub mod analysis;
pub mod completion;
pub mod position;
pub mod server;
pub mod store;
pub mod text;
pub mod uri;
