pub mod persistence;
pub mod rdb;
