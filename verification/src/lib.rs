//! Pine: a short query language that is turned into MySQL queries.
//!
//! A pine such as `users | s: id name | w: id = 3` is parsed, resolved against the
//! structure of the database (foreign keys tell us how to join tables), and rendered
//! as SQL.
/// Parsing pines, building queries, rendering SQL, and the database structure.
pub mod engine;
/// The error of the library.
pub mod error;
/// What the cache keeps, and under which names.
pub mod cache;
/// Named sets of connection parameters.
pub mod context;
/// What the command line gives.
pub mod cli;
/// Learning the structure of a database server.
pub mod analyze;
/// What the language server decides.
pub mod lsp;
