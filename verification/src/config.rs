pub mod config;
pub mod log;
