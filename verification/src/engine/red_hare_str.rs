//! String entries: a string is stored as its UTF-8 bytes under the tag
//! `STRING`, and read back by decoding them.
use vstd::prelude::*;
use vstd::utf8::{decode_utf8, encode_utf8, encode_utf8_decode_utf8, encode_utf8_valid_utf8, valid_utf8};
use crate::utils::clock::unix_time_nanos;
use crate::engine::red_hare::{
    empty_key_message, get_expire_time_at, opt_view, spec_after_lookup,
    spec_expire_time, spec_lookup, spec_put, MetaData, MetaDataView, RedHare, StoreView, STRING,
};
use crate::utils::common::{is_alive, overflow_message, time_or_latest};

verus! {

/// Calls `String::into_bytes`: the UTF-8 encoding of the string.
#[verifier::external_body]
fn string_into_bytes(s: String) -> (res: Vec<u8>)
    ensures
        res@ == encode_utf8(s@),
{
    s.into_bytes()
}

/// The text of the error that `String::from_utf8` reports for the bytes
/// (`FromUtf8Error::to_string`): it tells where the first invalid sequence
/// starts and how long it is, so it depends on the bytes alone.
pub uninterp spec fn utf8_error_text(bytes: Seq<u8>) -> Seq<char>;

/// Calls `String::from_utf8`: it succeeds exactly when the bytes are valid
/// UTF-8, with the characters that they encode; its error's text is named
/// by `utf8_error_text`.
#[verifier::external_body]
fn string_from_utf8(v: Vec<u8>) -> (res: Result<String, String>)
    ensures
        res is Ok <==> valid_utf8(v@),
        res matches Ok(s) ==> s@ == decode_utf8(v@),
        res matches Err(e) ==> e@ == utf8_error_text(v@),
{
    match String::from_utf8(v) {
        Ok(s) => Ok(s),
        Err(e) => Err(e.to_string()),
    }
}

/// The entry that stores the string `v` with the expiry time `expire_time`.
pub open spec fn spec_string_entry(v: Seq<char>, expire_time: Option<u128>) -> MetaDataView {
    (encode_utf8(v), expire_time, STRING@)
}

/// The text of the error for an entry that does not hold a string.
pub open spec fn not_string_message() -> Seq<char> {
    "data type is not string"@
}

/// Whether `r` is what a string read gives for the entry `d` that the
/// store handed out: nothing for no entry, an error for an entry of
/// another type or for bytes that are not UTF-8 (with the text that
/// `String::from_utf8` reports), else the decoded string.
pub open spec fn string_value_ok(d: Option<MetaDataView>, r: Result<Option<String>, String>) -> bool {
    match d {
        None => r matches Ok(o) && o is None,
        Some(d) => if d.2 != STRING@ {
            r matches Err(e) && e@ == not_string_message()
        } else if valid_utf8(d.0) {
            r matches Ok(o) && o matches Some(s) && s@ == decode_utf8(d.0)
        } else {
            r matches Err(e) && e@ == utf8_error_text(d.0)
        },
    }
}

/// The string that the entry `data` holds.
fn decode_string_value(data: Option<MetaData>) -> (r: Result<Option<String>, String>)
    ensures
        string_value_ok(opt_view(data), r),
{
    let data = match data {
        None => return Ok(None),
        Some(data) => data,
    };
    let string_type = String::from_str(STRING);
    if !(data.data_type == string_type) {
        return Err(String::from_str("data type is not string"));
    }
    match string_from_utf8(data.value) {
        Ok(s) => Ok(Some(s)),
        Err(e) => Err(e),
    }
}

impl RedHare {
    /// Stores the string `v` under `k` with a time to live of `expire_time`
    /// nanoseconds counted from the time `now`; zero means that it never
    /// expires. An empty key is refused, and so is a time to live that
    /// overflows the clock.
    pub fn set_string_with_expire_at(&mut self, k: String, v: String, expire_time: u128, now: u128) -> (r: Result<bool, String>)
        ensures
            k@.len() == 0 ==> (r matches Err(e) && e@ == empty_key_message() && final(self)@ == old(self)@),
            k@.len() > 0 && spec_expire_time(expire_time, now) is None ==> (r matches Err(e)
                && e@ == overflow_message() && final(self)@ == old(self)@),
            k@.len() > 0 && spec_expire_time(expire_time, now) is Some ==> (r matches Ok(b) && b
                && final(self)@ == spec_put(old(self)@, k@,
                    spec_string_entry(v@, spec_expire_time(expire_time, now).unwrap()), now)),
    {
        if k.as_str().is_empty() {
            return Err(String::from_str("key is empty"));
        }
        let expire_time = get_expire_time_at(expire_time, now)?;
        let value = string_into_bytes(v);
        let _ = self.put_at(
            k,
            MetaData { value, expire_time, data_type: String::from_str(STRING) },
            now,
        );
        Ok(true)
    }

    /// Stores the string `v` under `k` with a time to live of `expire_time`
    /// nanoseconds counted from the wall clock's reading `clock`; zero means
    /// that it never expires, whatever the clock said. An empty key is
    /// refused; so is a time to live when the clock could not be read (with
    /// the clock's error) or when the expiry overflows.
    pub fn set_string_with_expire_on_clock(
        &mut self,
        k: String,
        v: String,
        expire_time: u128,
        clock: Result<u128, String>,
    ) -> (r: Result<bool, String>)
        ensures
            k@.len() == 0 ==> (r matches Err(e) && e@ == empty_key_message() && final(self)@ == old(self)@),
            k@.len() > 0 && expire_time == 0 ==> (r matches Ok(b) && b
                && final(self)@ == old(self)@.insert(k@, spec_string_entry(v@, None))),
            k@.len() > 0 && expire_time != 0 && clock is Err ==> (r matches Err(e) && clock matches Err(c)
                && e@ == c@ && final(self)@ == old(self)@),
            clock matches Ok(now) ==> (k@.len() > 0 && spec_expire_time(expire_time, now) is None ==> (
                r matches Err(e) && e@ == overflow_message() && final(self)@ == old(self)@)),
            clock matches Ok(now) ==> (k@.len() > 0 && spec_expire_time(expire_time, now) is Some ==> (
                r matches Ok(b) && b && final(self)@ == spec_put(old(self)@, k@,
                    spec_string_entry(v@, spec_expire_time(expire_time, now).unwrap()), now))),
    {
        if k.as_str().is_empty() {
            return Err(String::from_str("key is empty"));
        }
        if expire_time == 0 {
            return self.set_string_with_expire_at(k, v, expire_time, 0);
        }
        match clock {
            Ok(now) => self.set_string_with_expire_at(k, v, expire_time, now),
            Err(e) => Err(e),
        }
    }

    /// Stores the string `v` under `k` with a time to live of `expire_time`
    /// nanoseconds counted from the wall clock's present reading; zero means
    /// that it never expires. An empty key is refused; so is a time to live
    /// when the clock cannot be read or the expiry overflows it.
    pub fn set_string_with_expire(&mut self, k: String, v: String, expire_time: u128) -> (r: Result<bool, String>)
        ensures
            k@.len() == 0 ==> (r matches Err(e) && e@ == empty_key_message() && final(self)@ == old(self)@),
            k@.len() > 0 && expire_time == 0 ==> (r matches Ok(b) && b
                && final(self)@ == old(self)@.insert(k@, spec_string_entry(v@, None))),
            k@.len() > 0 && r is Err ==> (expire_time != 0 && final(self)@ == old(self)@),
            r matches Ok(b) ==> b && k@.len() > 0 && exists|now: u128|
                #[trigger] spec_expire_time(expire_time, now) matches Some(o)
                && is_alive(o, now)
                && final(self)@ == old(self)@.insert(k@, spec_string_entry(v@, o)),
    {
        self.set_string_with_expire_on_clock(k, v, expire_time, unix_time_nanos())
    }

    /// Stores the string `v` under `k` with no expiry. An empty key is
    /// refused.
    pub fn set_string(&mut self, k: String, v: String) -> (r: Result<bool, String>)
        ensures
            k@.len() == 0 ==> (r matches Err(e) && e@ == empty_key_message() && final(self)@ == old(self)@),
            k@.len() > 0 ==> (r matches Ok(b) && b
                && final(self)@ == old(self)@.insert(k@, spec_string_entry(v@, None))),
    {
        self.set_string_with_expire(k, v, 0)
    }

    /// Reads the string under `k` at the time `now`. An empty key is
    /// refused; an expired entry is removed and reads as nothing.
    pub fn get_string_at(&mut self, k: &String, now: u128) -> (r: Result<Option<String>, String>)
        ensures
            k@.len() == 0 ==> (r matches Err(e) && e@ == empty_key_message() && final(self)@ == old(self)@),
            k@.len() > 0 ==> (string_value_ok(spec_lookup(old(self)@, k@, now), r)
                && final(self)@ == spec_after_lookup(old(self)@, k@, now)),
    {
        let data = self.get_at(k, now)?;
        decode_string_value(data)
    }

    /// Reads the string under `k` when the wall clock gave `clock` (see
    /// `get_on_clock`). An empty key is refused; for an entry with an expiry
    /// time the clock's error is handed on and the store is left as it is;
    /// otherwise the read is made at the reading, and an expired entry is
    /// removed and reads as nothing.
    pub fn get_string_on_clock(&mut self, k: &String, clock: Result<u128, String>) -> (r: Result<Option<String>, String>)
        ensures
            k@.len() == 0 ==> (r matches Err(e) && e@ == empty_key_message() && final(self)@ == old(self)@),
            k@.len() > 0 && clock is Err && old(self)@.contains_key(k@) && old(self)@[k@].1 is Some ==> (
                r matches Err(e) && clock matches Err(c) && e@ == c@ && final(self)@ == old(self)@),
            k@.len() > 0 && !(clock is Err && old(self)@.contains_key(k@) && old(self)@[k@].1 is Some) ==> (
                string_value_ok(spec_lookup(old(self)@, k@, time_or_latest(clock)), r)
                && final(self)@ == spec_after_lookup(old(self)@, k@, time_or_latest(clock))),
    {
        let data = self.get_on_clock(k, clock)?;
        decode_string_value(data)
    }

    /// Reads the string under `k` by the wall clock. An empty key is
    /// refused; an expired entry is removed and reads as nothing. When the
    /// clock cannot be read for an entry that has an expiry time, its error
    /// is handed on and the store is left as it is.
    pub fn get_string(&mut self, k: &String) -> (r: Result<Option<String>, String>)
        ensures
            k@.len() == 0 ==> (r matches Err(e) && e@ == empty_key_message() && final(self)@ == old(self)@),
            k@.len() > 0 ==> ((r is Err && final(self)@ == old(self)@ && old(self)@.contains_key(k@)
                && old(self)@[k@].1 is Some) || exists|now: u128|
                final(self)@ == #[trigger] spec_after_lookup(old(self)@, k@, now)
                && string_value_ok(spec_lookup(old(self)@, k@, now), r)),
    {
        self.get_string_on_clock(k, unix_time_nanos())
    }
}

/// A string that is written and then read back, while its entry is alive,
/// reads as the same string.
pub proof fn lemma_string_read_after_write(
    m: StoreView,
    k: Seq<char>,
    v: Seq<char>,
    expire_time: Option<u128>,
    written_at: u128,
    read_at: u128,
    r: Result<Option<String>, String>,
)
    requires
        is_alive(expire_time, written_at),
        is_alive(expire_time, read_at),
        string_value_ok(spec_lookup(spec_put(m, k, spec_string_entry(v, expire_time), written_at), k, read_at), r),
    ensures
        r matches Ok(o) && o matches Some(s) && s@ == v,
{
    encode_utf8_valid_utf8(v);
    encode_utf8_decode_utf8(v);
}

} // verus!
