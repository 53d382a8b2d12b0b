//! Schema-driven records for a document database.
//!
//! The library holds the logic behind the `schema!` macro and the records it
//! generates: the grammar of a schema declaration over a flat token model
//! (`token`, `parse`), the plan of the code that a schema expands to
//! (`model`), and the behaviour of a generated record at run time
//! (`table`, `record`, with the equality of stored values in `json`), with
//! the identifiers of stored rows (`id`).

pub mod id;
pub mod json;
pub mod model;
pub mod parse;
pub mod record;
pub mod rtype;
pub mod shape;
pub mod table;
pub mod text;
pub mod token;
