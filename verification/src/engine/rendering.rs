//! Turns a built query into SQL text.
pub mod query_rendering;
