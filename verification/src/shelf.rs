//! Shelves: the directories that hold notes.

pub mod manager;
pub mod storage;
