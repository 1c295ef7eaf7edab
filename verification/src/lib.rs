//! An in-memory key-value store with expiring entries, its snapshot
//! records and the naming rules of its snapshot files.
pub mod api;
pub mod config;
pub mod engine;
pub mod storage;
pub mod utils;
