//! Keeping the index in step with the files: which changes count, how a
//! burst of changes to one file settles into one, and what each settled
//! change asks of the index.

pub mod debounce;
pub mod event;
pub mod handler;
pub mod index;
pub mod service;
