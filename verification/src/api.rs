pub mod string_api;
