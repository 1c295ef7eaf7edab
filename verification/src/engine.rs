pub mod entry_map;
pub mod red_hare;
pub mod red_hare_hash;
pub mod red_hare_str;
pub mod store_laws;
pub mod persistence;
pub mod trigger_counter;
