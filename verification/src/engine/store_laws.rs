//! What the store's operations promise together, stated over the store's
//! contents and proved from the definitions the operations are held to.
use vstd::prelude::*;
use crate::engine::red_hare::{spec_after_lookup, spec_lookup, spec_put, MetaDataView, StoreView};
use crate::utils::common::{is_alive, time_or_latest};

verus! {

/// A read of a key finds what was last written under it, as long as the
/// entry was alive when written and still is when read.
pub proof fn lemma_read_after_write(m: StoreView, k: Seq<char>, v: MetaDataView, written_at: u128, read_at: u128)
    requires
        is_alive(v.1, written_at),
        is_alive(v.1, read_at),
    ensures
        spec_lookup(spec_put(m, k, v, written_at), k, read_at) == Some(v),
        spec_after_lookup(spec_put(m, k, v, written_at), k, read_at) == spec_put(m, k, v, written_at),
{
}

/// An entry without expiry time that is written is read back at any time.
pub proof fn lemma_no_expiry_never_expires(m: StoreView, k: Seq<char>, value: Seq<u8>, data_type: Seq<char>, written_at: u128, read_at: u128)
    ensures
        spec_lookup(spec_put(m, k, (value, None, data_type), written_at), k, read_at)
            == Some((value, None::<u128>, data_type)),
{
}

/// A read never hands out an entry that has expired at the time of the
/// read.
pub proof fn lemma_read_is_alive(m: StoreView, k: Seq<char>, now: u128)
    ensures
        spec_lookup(m, k, now) matches Some(v) ==> is_alive(v.1, now) && m.contains_key(k) && m[k] == v,
{
}

/// A read that finds an expired entry removes it and nothing else; a read
/// of any other kind leaves the store as it is.
pub proof fn lemma_read_removes_only_expired(m: StoreView, k: Seq<char>, now: u128)
    ensures
        m.contains_key(k) && !is_alive(m[k].1, now) ==> spec_after_lookup(m, k, now) == m.remove(k)
            && spec_lookup(m, k, now) is None,
        !(m.contains_key(k) && !is_alive(m[k].1, now)) ==> spec_after_lookup(m, k, now) == m,
{
}

/// After an entry has expired, reads of its key find nothing, and a second
/// read finds the same as the first.
pub proof fn lemma_expired_reads_nothing(m: StoreView, k: Seq<char>, now: u128)
    requires
        m.contains_key(k),
        !is_alive(m[k].1, now),
    ensures
        spec_lookup(m, k, now) is None,
        spec_lookup(spec_after_lookup(m, k, now), k, now) is None,
{
}

/// Once a time has passed at which an entry is expired, it stays expired at
/// every later time.
pub proof fn lemma_expiry_is_permanent(expire_time: Option<u128>, t1: u128, t2: u128)
    requires
        t1 <= t2,
        !is_alive(expire_time, t1),
    ensures
        !is_alive(expire_time, t2),
{
}

/// After a key's entry is removed, a read of the key finds nothing.
pub proof fn lemma_read_after_delete(m: StoreView, k: Seq<char>, now: u128)
    ensures
        spec_lookup(m.remove(k), k, now) is None,
{
}

/// A write under one key leaves what reads of every other key find.
pub proof fn lemma_write_leaves_other_keys(m: StoreView, k: Seq<char>, v: MetaDataView, written_at: u128, other: Seq<char>, read_at: u128)
    requires
        k != other,
    ensures
        spec_lookup(spec_put(m, k, v, written_at), other, read_at) == spec_lookup(m, other, read_at),
{
}

/// A write of an entry that has already expired leaves the store as it is.
pub proof fn lemma_expired_write_is_dropped(m: StoreView, k: Seq<char>, v: MetaDataView, now: u128)
    requires
        !is_alive(v.1, now),
    ensures
        spec_put(m, k, v, now) == m,
{
}

/// A second write under a key replaces the first.
pub proof fn lemma_last_write_wins(m: StoreView, k: Seq<char>, v1: MetaDataView, v2: MetaDataView, now: u128)
    requires
        is_alive(v2.1, now),
    ensures
        spec_put(spec_put(m, k, v1, now), k, v2, now) == spec_put(m, k, v2, now),
{
    assert(spec_put(spec_put(m, k, v1, now), k, v2, now) =~= spec_put(m, k, v2, now));
}

/// Removing a key undoes a write under it: the store is as if the key had
/// been removed without the write.
pub proof fn lemma_delete_undoes_write(m: StoreView, k: Seq<char>, v: MetaDataView, now: u128)
    ensures
        spec_put(m, k, v, now).remove(k) == m.remove(k),
{
    assert(spec_put(m, k, v, now).remove(k) =~= m.remove(k));
}

/// A write made on a reading of the wall clock stores an entry without
/// expiry time whatever the clock said; it stores an entry with an expiry
/// time exactly when the clock was read and the expiry lies after the
/// reading, and otherwise leaves the store as it was. No other key is
/// touched.
pub proof fn lemma_put_on_clock(m: StoreView, k: Seq<char>, v: MetaDataView, clock: Result<u128, String>)
    ensures
        v.1 is None ==> spec_put(m, k, v, time_or_latest(clock)) == m.insert(k, v),
        clock matches Ok(now) ==> (v.1 matches Some(t) ==> (
            (t > now ==> spec_put(m, k, v, time_or_latest(clock)) == m.insert(k, v))
            && (t <= now ==> spec_put(m, k, v, time_or_latest(clock)) == m))),
        clock is Err && v.1 is Some ==> spec_put(m, k, v, time_or_latest(clock)) == m,
        forall|j: Seq<char>| j != k ==> (#[trigger] spec_put(m, k, v, time_or_latest(clock)).contains_key(j)
            == m.contains_key(j)),
        forall|j: Seq<char>| j != k && m.contains_key(j) ==> #[trigger] spec_put(m, k, v, time_or_latest(clock))[j]
            == m[j],
{
}

/// A read made on a reading of the wall clock hands out an entry without
/// expiry time and keeps it; an entry with an expiry time it hands out and
/// keeps when the expiry lies after the reading, and otherwise hands out
/// nothing and removes it. A key with no entry reads as nothing.
pub proof fn lemma_get_on_clock(m: StoreView, k: Seq<char>, clock: Result<u128, String>)
    ensures
        !m.contains_key(k) ==> spec_lookup(m, k, time_or_latest(clock)) is None
            && spec_after_lookup(m, k, time_or_latest(clock)) == m,
        m.contains_key(k) && m[k].1 is None ==> spec_lookup(m, k, time_or_latest(clock)) == Some(m[k])
            && spec_after_lookup(m, k, time_or_latest(clock)) == m,
        clock matches Ok(now) ==> (m.contains_key(k) ==> (m[k].1 matches Some(t) ==> (
            (t > now ==> spec_lookup(m, k, time_or_latest(clock)) == Some(m[k])
                && spec_after_lookup(m, k, time_or_latest(clock)) == m)
            && (t <= now ==> spec_lookup(m, k, time_or_latest(clock)) is None
                && spec_after_lookup(m, k, time_or_latest(clock)) == m.remove(k))))),
{
}

} // verus!
