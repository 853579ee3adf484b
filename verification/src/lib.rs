//! Markdown notes kept as files on named shelves, and the rules that keep a
//! search index in step with them.
//!
//! The crate reads and writes no file, runs no query and starts no timer.
//! Every operation takes what was observed as plain values and returns what
//! is to be done, so that each decision is stated and proved once, for every
//! outcome of the work around it. The one thing it asks of the system is
//! where the user's documents are.

pub mod domain;
pub mod error;
pub mod paths;
pub mod search;
pub mod shelf;
pub mod text;
pub mod watcher;

pub use error::{OraError, OraResult};
