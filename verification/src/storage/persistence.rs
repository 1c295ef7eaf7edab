//! The snapshot records and the functions that take them from the store and
//! write them back, as the single-file snapshot uses them.
pub use crate::engine::persistence::{restore_rdb_file, save_rdb_file, Persistence};
