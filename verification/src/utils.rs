pub mod clock;
pub mod common;
pub mod date;
pub mod text;
