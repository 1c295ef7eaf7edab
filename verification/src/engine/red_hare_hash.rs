//! Hash-typed entries: the operations are declared and do nothing yet.
use vstd::prelude::*;
use crate::engine::red_hare::RedHare;

verus! {

impl RedHare {
    /// Declared for hash entries; it has no effect yet.
    pub fn h_set_string(&self, k: String, field: String, v: Vec<u8>) {
    }

    /// Declared for hash entries with expiry; it has no effect yet.
    pub fn h_set_string_with_expire(&self, k: String, field: String, v: Vec<u8>) {
    }

    /// Declared for reading a field of a hash entry; it has no effect yet.
    pub fn h_get_string(&self, k: String, field: String) {
    }

    /// Declared for reading all fields of a hash entry; it has no effect yet.
    pub fn h_get_all_string(&self, k: String) {
    }
}

} // verus!
