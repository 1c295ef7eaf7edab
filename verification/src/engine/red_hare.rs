//! The store: a map from keys to entries that may carry an expiry time.
//! An expired entry is never handed out; it is removed when a read finds it.
use vstd::prelude::*;
use crate::engine::entry_map::{
    key_views, map_get, map_insert, map_keys, map_new, map_remove, stored_entries,
};
use crate::utils::clock::unix_time_nanos;
use crate::utils::common::{
    add_nanos_at, is_after, is_after_now_at, is_alive, overflow_message, spec_add_nanos, time_or_latest,
};

verus! {

/// The tag of an entry that holds a string.
pub const STRING: &'static str = "string";

/// An entry's value as plain values: its bytes, its expiry time in
/// nanoseconds since the Unix epoch (none: it never expires), and the tag of
/// its type.
pub type MetaDataView = (Seq<u8>, Option<u128>, Seq<char>);

/// The store's contents: the entry of each key.
pub type StoreView = Map<Seq<char>, MetaDataView>;

/// One entry of the store.
pub struct MetaData {
    pub value: Vec<u8>,
    pub expire_time: Option<u128>,
    pub data_type: String,
}

impl View for MetaData {
    type V = MetaDataView;

    open spec fn view(&self) -> MetaDataView {
        (self.value@, self.expire_time, self.data_type@)
    }
}

impl Clone for MetaData {
    fn clone(&self) -> (r: Self)
        ensures
            r@ == self@,
    {
        MetaData {
            value: self.value.clone(),
            expire_time: self.expire_time,
            data_type: self.data_type.clone(),
        }
    }
}

/// An optional entry as plain values.
pub open spec fn opt_view(o: Option<MetaData>) -> Option<MetaDataView> {
    match o {
        Some(m) => Some(m@),
        None => None,
    }
}

/// The key-value store.
pub struct RedHare {
    data: griddle::HashMap<String, MetaData>,
    cur_aof_size: u128,
}

impl View for RedHare {
    type V = StoreView;

    closed spec fn view(&self) -> StoreView {
        stored_entries(self.data)
    }
}

/// The text of the error for an empty key.
pub open spec fn empty_key_message() -> Seq<char> {
    "key is empty"@
}

/// The store after a write of `v` under `k` at the time `now`: an entry
/// that has already expired is not written.
pub open spec fn spec_put(m: StoreView, k: Seq<char>, v: MetaDataView, now: u128) -> StoreView {
    if is_alive(v.1, now) {
        m.insert(k, v)
    } else {
        m
    }
}

/// What a read of `k` at the time `now` finds: the entry, if there is one
/// and it is alive.
pub open spec fn spec_lookup(m: StoreView, k: Seq<char>, now: u128) -> Option<MetaDataView> {
    if m.contains_key(k) && is_alive(m[k].1, now) {
        Some(m[k])
    } else {
        None
    }
}

/// The store after a read of `k` at the time `now`: an expired entry that
/// the read finds is removed.
pub open spec fn spec_after_lookup(m: StoreView, k: Seq<char>, now: u128) -> StoreView {
    if m.contains_key(k) && !is_alive(m[k].1, now) {
        m.remove(k)
    } else {
        m
    }
}

/// The expiry time that a write with a time to live of `expire_time`
/// nanoseconds gets at the time `now`: none for zero, else `now` plus it.
pub open spec fn spec_expire_time(expire_time: u128, now: u128) -> Option<Option<u128>> {
    if expire_time == 0 {
        Some(None)
    } else {
        match spec_add_nanos(expire_time, now) {
            Some(t) => Some(Some(t)),
            None => None,
        }
    }
}

/// The expiry time for a time to live of `expire_time` nanoseconds counted
/// from the time `now`; zero means that the entry never expires.
pub fn get_expire_time_at(expire_time: u128, now: u128) -> (r: Result<Option<u128>, String>)
    ensures
        r matches Ok(o) ==> spec_expire_time(expire_time, now) == Some(o),
        r matches Err(e) ==> spec_expire_time(expire_time, now) is None && e@ == overflow_message(),
{
    if expire_time == 0 {
        Ok(None)
    } else {
        let ret = add_nanos_at(expire_time, now)?;
        Ok(Some(ret))
    }
}

/// The expiry time for a time to live of `expire_time` nanoseconds counted
/// from the wall clock's reading `clock`; zero means that the entry never
/// expires, whatever the clock said. It fails with the clock's error when the
/// clock could not be read, or when the expiry overflows.
pub fn get_expire_time_on_clock(expire_time: u128, clock: Result<u128, String>) -> (r: Result<Option<u128>, String>)
    ensures
        expire_time == 0 ==> (r matches Ok(o) && o is None),
        expire_time != 0 && clock is Err ==> (r matches Err(e) && clock matches Err(c) && e@ == c@),
        clock matches Ok(now) ==> (r matches Ok(o) ==> spec_expire_time(expire_time, now) == Some(o)),
        clock matches Ok(now) ==> (r matches Err(e) ==> spec_expire_time(expire_time, now) is None
            && e@ == overflow_message()),
        clock matches Ok(now) ==> (r is Ok <==> spec_expire_time(expire_time, now) is Some),
{
    if expire_time == 0 {
        return get_expire_time_at(expire_time, 0);
    }
    match clock {
        Ok(now) => get_expire_time_at(expire_time, now),
        Err(e) => Err(e),
    }
}

/// The expiry time for a time to live of `expire_time` nanoseconds counted
/// from the wall clock's present reading; zero means that the entry never
/// expires. It fails when the clock cannot be read or the expiry overflows
/// it.
pub fn get_expire_time(expire_time: u128) -> (r: Result<Option<u128>, String>)
    ensures
        expire_time == 0 ==> (r matches Ok(o) && o is None),
        r matches Ok(o) ==> exists|now: u128| #[trigger] spec_expire_time(expire_time, now) == Some(o),
        r is Err ==> expire_time != 0,
{
    get_expire_time_on_clock(expire_time, unix_time_nanos())
}

impl RedHare {
    /// An empty store.
    pub fn new() -> (r: Self)
        ensures
            (r@ == Map::<Seq<char>, MetaDataView>::empty()),
    {
        RedHare { data: map_new(), cur_aof_size: 0 }
    }

    /// Writes `v` under `k` at the time `now`, unless `v` has already
    /// expired then.
    pub fn put_at(&mut self, k: String, v: MetaData, now: u128) -> (r: Result<(), String>)
        ensures
            r is Ok,
            final(self)@ == spec_put(old(self)@, k@, v@, now),
    {
        if !is_after(v.expire_time, now) {
            return Ok(());
        }
        let _ = map_insert(&mut self.data, k, v);
        Ok(())
    }

    /// Writes `v` under `k` when the wall clock gave `clock`: an entry
    /// without expiry time is written whatever the clock said; one with an
    /// expiry time is written only when the clock was read and the expiry
    /// lies after the reading.
    pub fn put_on_clock(&mut self, k: String, v: MetaData, clock: Result<u128, String>) -> (r: Result<(), String>)
        ensures
            r is Ok,
            final(self)@ == spec_put(old(self)@, k@, v@, time_or_latest(clock)),
    {
        let alive = match is_after_now_at(v.expire_time, clock) {
            Ok(alive) => alive,
            Err(_) => return Ok(()),
        };
        if !alive {
            return Ok(());
        }
        let _ = map_insert(&mut self.data, k, v);
        Ok(())
    }

    /// Writes `v` under `k`, unless `v` has expired by the wall clock's
    /// present reading; when the clock cannot be read, an entry with an
    /// expiry time is not written.
    pub fn put(&mut self, k: String, v: MetaData, is_aof: bool) -> (r: Result<(), String>)
        ensures
            r is Ok,
            exists|now: u128| final(self)@ == #[trigger] spec_put(old(self)@, k@, v@, now),
            v@.1 is None ==> final(self)@ == old(self)@.insert(k@, v@),
    {
        let clock = unix_time_nanos();
        self.put_on_clock(k, v, clock)
    }

    /// Removes the entry of `k`, if there is one.
    pub fn delete(&mut self, k: &String, is_aof: bool) -> (r: Result<(), String>)
        ensures
            r is Ok,
            final(self)@ == old(self)@.remove(k@),
    {
        let _ = map_remove(&mut self.data, k);
        Ok(())
    }

    /// Reads the entry of `k` at the time `now`. An empty key is refused;
    /// an expired entry is removed and not handed out.
    pub fn get_at(&mut self, k: &String, now: u128) -> (r: Result<Option<MetaData>, String>)
        ensures
            k@.len() == 0 ==> (r matches Err(e) && e@ == empty_key_message() && final(self)@ == old(self)@),
            k@.len() > 0 ==> (r matches Ok(o) && opt_view(o) == spec_lookup(old(self)@, k@, now)
                && final(self)@ == spec_after_lookup(old(self)@, k@, now)),
    {
        if k.as_str().is_empty() {
            return Err(String::from_str("key is empty"));
        }
        let meta_data = match map_get(&self.data, k) {
            Some(meta_data) => meta_data,
            None => return Ok(None),
        };
        if !is_after(meta_data.expire_time, now) {
            let _ = self.delete(k, false);
            return Ok(None);
        }
        Ok(Some(meta_data.clone()))
    }

    /// Reads the entry of `k` when the wall clock gave `clock`. An empty key
    /// is refused. For an entry with an expiry time, the clock's error is
    /// handed on and the store is left as it is; otherwise the read is made
    /// at the reading: an expired entry is removed and not handed out.
    pub fn get_on_clock(&mut self, k: &String, clock: Result<u128, String>) -> (r: Result<Option<MetaData>, String>)
        ensures
            k@.len() == 0 ==> (r matches Err(e) && e@ == empty_key_message() && final(self)@ == old(self)@),
            k@.len() > 0 && clock is Err && old(self)@.contains_key(k@) && old(self)@[k@].1 is Some ==> (
                r matches Err(e) && clock matches Err(c) && e@ == c@ && final(self)@ == old(self)@),
            k@.len() > 0 && !(clock is Err && old(self)@.contains_key(k@) && old(self)@[k@].1 is Some) ==> (
                r matches Ok(o) && opt_view(o) == spec_lookup(old(self)@, k@, time_or_latest(clock))
                && final(self)@ == spec_after_lookup(old(self)@, k@, time_or_latest(clock))),
    {
        if k.as_str().is_empty() {
            return self.get_at(k, 0);
        }
        let needs_clock = match map_get(&self.data, k) {
            Some(meta_data) => meta_data.expire_time.is_some(),
            None => false,
        };
        match clock {
            Ok(now) => self.get_at(k, now),
            Err(e) => if needs_clock {
                Err(e)
            } else {
                self.get_at(k, u128::MAX)
            },
        }
    }

    /// Reads the entry of `k` by the wall clock. An empty key is refused;
    /// an expired entry is removed and not handed out. When the clock cannot
    /// be read for an entry that has an expiry time, its error is handed on
    /// and the store is left as it is.
    pub fn get(&mut self, k: &String) -> (r: Result<Option<MetaData>, String>)
        ensures
            k@.len() == 0 ==> (r matches Err(e) && e@ == empty_key_message() && final(self)@ == old(self)@),
            k@.len() > 0 && r is Err ==> (final(self)@ == old(self)@ && old(self)@.contains_key(k@)
                && old(self)@[k@].1 is Some),
            r matches Ok(o) ==> k@.len() > 0 && exists|now: u128|
                opt_view(o) == #[trigger] spec_lookup(old(self)@, k@, now)
                && final(self)@ == spec_after_lookup(old(self)@, k@, now),
    {
        let clock = unix_time_nanos();
        self.get_on_clock(k, clock)
    }

    /// The entry of `k` as it is stored, expiry time included, whether or
    /// not it has expired.
    pub fn get_meta_data_with_expire(&self, k: &String) -> (r: Result<Option<MetaData>, String>)
        ensures
            r matches Ok(o) && opt_view(o) == (if self@.contains_key(k@) {
                Some(self@[k@])
            } else {
                None
            }),
    {
        match map_get(&self.data, k) {
            Some(meta_data) => Ok(Some(meta_data.clone())),
            None => Ok(None),
        }
    }

    /// Every key of the store once, in an order that the map leaves open.
    pub fn keys_get(&self) -> (r: Vec<String>)
        ensures
            key_views(r@).no_duplicates(),
            key_views(r@).to_set() == self@.dom(),
    {
        map_keys(&self.data)
    }
}

} // verus!
