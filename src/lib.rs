//! Structural patching of Go sources: declarations are located through
//! tree queries and shadowed, deleted or complemented as a manifest says.

pub mod cli;
pub mod edit;
pub mod fs_buffer;
pub mod guarantees;
pub mod manifest;
pub mod query;
pub mod patterns;
pub mod patch;
pub mod run;
pub mod engine;

pub use engine::{try_patch, Result};
