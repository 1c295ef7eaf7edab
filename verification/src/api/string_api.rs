//! The rules of the string endpoints: what a save request holds and what a
//! read answers.
use vstd::prelude::*;

verus! {

/// A request to store a string under a key, with a time to live in
/// nanoseconds (zero: it never expires).
pub struct StringSaveRequest {
    pub key: String,
    pub value: String,
    pub expire_time: u128,
}

/// The time to live of a request that gives none: it never expires.
pub fn default_expire_time() -> (r: u128)
    ensures
        r == 0,
{
    0
}

/// The text of the error for a request with an empty key.
pub open spec fn empty_request_key_message() -> Seq<char> {
    "key cannot be empty"@
}

/// Accepts the key of a save request when it is not empty.
pub fn deserialize_non_empty_string(ret: String) -> (r: Result<String, String>)
    ensures
        ret@.len() == 0 ==> (r matches Err(e) && e@ == empty_request_key_message()),
        ret@.len() > 0 ==> (r matches Ok(s) && s@ == ret@),
{
    if ret.as_str().is_empty() {
        return Err(String::from_str("key cannot be empty"));
    }
    Ok(ret)
}

/// The body of the answer to a read: the string found, or the empty string
/// when there is none.
pub fn get_string(ret: Option<String>) -> (r: String)
    ensures
        ret matches Some(s) ==> r@ == s@,
        ret is None ==> r@.len() == 0,
{
    match ret {
        None => String::new(),
        Some(ret) => ret,
    }
}

} // verus!
