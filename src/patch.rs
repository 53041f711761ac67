//! The query engine over one source text.

pub mod parser;
