//! Snapshots of the store: the records that a snapshot holds, how they are
//! taken from the store, and how they are written back into it.
use vstd::prelude::*;
use crate::engine::entry_map::key_views;
use crate::engine::red_hare::{spec_put, MetaData, MetaDataView, RedHare, StoreView};
use crate::utils::clock::unix_time_nanos;
use crate::utils::common::{is_after, is_alive, reading_time, time_or_latest};

verus! {

/// One record of a snapshot: a key and its entry.
pub struct Persistence {
    pub key: String,
    pub meta_data: MetaData,
}

/// A record as plain values.
pub type RecordView = (Seq<char>, MetaDataView);

impl View for Persistence {
    type V = RecordView;

    open spec fn view(&self) -> RecordView {
        (self.key@, self.meta_data@)
    }
}

/// The records of a snapshot as plain values.
pub open spec fn record_views(s: Seq<Persistence>) -> Seq<RecordView> {
    s.map_values(|p: Persistence| p@)
}

/// The keys of the records, in order.
pub open spec fn record_keys(s: Seq<RecordView>) -> Seq<Seq<char>> {
    s.map_values(|p: RecordView| p.0)
}

/// The contents that the records describe: each key with its last record.
pub open spec fn records_map(s: Seq<RecordView>) -> StoreView
    decreases s.len(),
{
    if s.len() == 0 {
        Map::empty()
    } else {
        records_map(s.drop_last()).insert(s.last().0, s.last().1)
    }
}

/// The entries of `m` that are alive at the time `now`.
pub open spec fn alive_part(m: StoreView, now: u128) -> StoreView {
    Map::new(|k: Seq<char>| m.contains_key(k) && is_alive(m[k].1, now), |k: Seq<char>| m[k])
}

/// The store after the records are written into it in order, the i-th at
/// the time `nows[i]`.
pub open spec fn spec_load(m: StoreView, s: Seq<RecordView>, nows: Seq<u128>) -> StoreView
    decreases s.len(),
{
    if s.len() == 0 || nows.len() == 0 {
        m
    } else {
        spec_put(spec_load(m, s.drop_last(), nows.drop_last()), s.last().0, s.last().1, nows.last())
    }
}

/// The same time `now`, `n` times.
pub open spec fn same_time(now: u128, n: nat) -> Seq<u128> {
    Seq::new(n, |i: int| now)
}

/// Writes the records into the store in order, all at the time `now`;
/// records that have expired by then are not written.
pub fn restore_rdb_file_at(red_hare: &mut RedHare, data: Vec<Persistence>, now: u128)
    ensures
        final(red_hare)@ == spec_load(old(red_hare)@, record_views(data@), same_time(now, data@.len())),
{
    let ghost views = record_views(data@);
    let ghost start = red_hare@;
    let n = data.len();
    let mut data = data;
    let mut i: usize = 0;
    while i < n
        invariant
            n == views.len(),
            data@.len() == n - i,
            record_views(data@) == views.skip(i as int),
            red_hare@ == spec_load(start, views.take(i as int), same_time(now, i as nat)),
        decreases n - i,
    {
        let ghost before = data@;
        let p = data.remove(0);
        proof {
            assert forall|j: int| 0 <= j < data@.len() implies #[trigger] record_views(data@)[j]
                == views.skip(i + 1)[j] by {
                assert(record_views(before)[j + 1] == views.skip(i as int)[j + 1]);
            }
            assert(record_views(data@) =~= views.skip(i + 1));
            assert(views.skip(i as int)[0] == views[i as int]);
            assert(p@ == views[i as int]);
        }
        let _ = red_hare.put_at(p.key, p.meta_data, now);
        proof {
            let t = views.take(i + 1);
            assert(t.drop_last() =~= views.take(i as int));
            assert(same_time(now, (i + 1) as nat).drop_last() =~= same_time(now, i as nat));
        }
        i = i + 1;
    }
    assert(views.take(n as int) =~= views);
}

/// Writes the records into the store in order, all at the wall clock's
/// reading `clock`; records that have expired by then are not written. When
/// the clock could not be read, no record that has an expiry time is
/// written.
pub fn restore_rdb_file_on_clock(red_hare: &mut RedHare, data: Vec<Persistence>, clock: Result<u128, String>)
    ensures
        final(red_hare)@ == spec_load(old(red_hare)@, record_views(data@),
            same_time(time_or_latest(clock), data@.len())),
{
    let now = reading_time(&clock);
    restore_rdb_file_at(red_hare, data, now)
}

/// Writes the records into the store in order, at one reading of the wall
/// clock; records that have expired by then are not written. When the clock
/// cannot be read, no record that has an expiry time is written.
pub fn restore_rdb_file(red_hare: &mut RedHare, data: Vec<Persistence>)
    ensures
        exists|now: u128|
            final(red_hare)@ == #[trigger] spec_load(old(red_hare)@, record_views(data@), same_time(now, data@.len())),
{
    restore_rdb_file_on_clock(red_hare, data, unix_time_nanos())
}

/// Appending a record adds its key, with its entry, to what the records
/// describe.
pub proof fn lemma_records_push(s: Seq<RecordView>, x: RecordView)
    ensures
        records_map(s.push(x)) == records_map(s).insert(x.0, x.1),
        record_keys(s.push(x)) == record_keys(s).push(x.0),
{
    assert(s.push(x).drop_last() =~= s);
    assert(record_keys(s.push(x)) =~= record_keys(s).push(x.0));
}

/// Every key that the records describe is the key of one of them.
pub proof fn lemma_records_map_keys(s: Seq<RecordView>)
    ensures
        records_map(s).dom() == record_keys(s).to_set(),
    decreases s.len(),
{
    if s.len() > 0 {
        lemma_records_map_keys(s.drop_last());
        assert(record_keys(s) =~= record_keys(s.drop_last()).push(s.last().0));
        record_keys(s.drop_last()).lemma_push_to_set_commute(s.last().0);
        assert(records_map(s).dom() =~= record_keys(s).to_set());
    } else {
        assert(record_keys(s).to_set() =~= Set::empty());
    }
}

/// In a list of distinct keys, the key at `i` is not among those before
/// it, and the first `i + 1` keys are the first `i` and that one.
pub proof fn lemma_next_key(kv: Seq<Seq<char>>, i: int)
    requires
        kv.no_duplicates(),
        0 <= i < kv.len(),
    ensures
        !kv.take(i).contains(kv[i]),
        kv.take(i + 1) == kv.take(i).push(kv[i]),
        forall|k: Seq<char>| #[trigger] kv.take(i + 1).contains(k) == (kv.take(i).contains(k) || k == kv[i]),
{
    assert(kv.take(i + 1) =~= kv.take(i).push(kv[i]));
    if kv.take(i).contains(kv[i]) {
        let j = choose|j: int| 0 <= j < i && kv.take(i)[j] == kv[i];
        assert(kv[j] == kv[i]);
    }
    assert forall|k: Seq<char>| #[trigger] kv.take(i + 1).contains(k) == (kv.take(i).contains(k) || k == kv[i]) by {
        vstd::seq_lib::lemma_seq_contains_after_push(kv.take(i), kv[i], k);
    }
}

/// Records taken from the first `i` of the distinct keys `kv` stay distinct
/// and taken from the first `i + 1` keys when the record of the key at `i`
/// is appended, or when nothing is.
pub proof fn lemma_record_step(prev: Seq<RecordView>, kv: Seq<Seq<char>>, i: int, rec: RecordView)
    requires
        kv.no_duplicates(),
        0 <= i < kv.len(),
        rec.0 == kv[i],
        record_keys(prev).no_duplicates(),
        forall|k: Seq<char>| #[trigger] record_keys(prev).contains(k) ==> kv.take(i).contains(k),
    ensures
        record_keys(prev.push(rec)).no_duplicates(),
        records_map(prev.push(rec)) == records_map(prev).insert(rec.0, rec.1),
        forall|k: Seq<char>| #[trigger] record_keys(prev.push(rec)).contains(k) ==> kv.take(i + 1).contains(k),
        forall|k: Seq<char>| #[trigger] record_keys(prev).contains(k) ==> kv.take(i + 1).contains(k),
{
    lemma_next_key(kv, i);
    lemma_records_push(prev, rec);
    let ks = record_keys(prev.push(rec));
    assert(!record_keys(prev).contains(rec.0));
    assert forall|a: int, b: int| 0 <= a < ks.len() && 0 <= b < ks.len() && a != b implies ks[a] != ks[b] by {
        if a < prev.len() {
            assert(record_keys(prev)[a] == ks[a]);
        }
        if b < prev.len() {
            assert(record_keys(prev)[b] == ks[b]);
        }
    }
    assert forall|k: Seq<char>| #[trigger] ks.contains(k) implies kv.take(i + 1).contains(k) by {
        let j = choose|j: int| 0 <= j < ks.len() && ks[j] == k;
        if j < prev.len() {
            assert(record_keys(prev)[j] == k);
            assert(record_keys(prev).contains(k));
        }
    }
}

/// The records of the entries of the store that are alive at the time
/// `now`, one per key, in an order that the store's map leaves open.
pub fn save_rdb_file_at(red_hare: &RedHare, now: u128) -> (r: Vec<Persistence>)
    ensures
        record_keys(record_views(r@)).no_duplicates(),
        records_map(record_views(r@)) == alive_part(red_hare@, now),
{
    let keys = red_hare.keys_get();
    let ghost kv = key_views(keys@);
    let ghost m = red_hare@;
    let mut data_vec: Vec<Persistence> = Vec::new();
    let n = keys.len();
    let mut i: usize = 0;
    while i < n
        invariant
            n == keys@.len(),
            kv == key_views(keys@),
            kv.no_duplicates(),
            kv.to_set() == m.dom(),
            m == red_hare@,
            i <= n,
            record_keys(record_views(data_vec@)).no_duplicates(),
            forall|k: Seq<char>| #[trigger] record_keys(record_views(data_vec@)).contains(k)
                ==> kv.take(i as int).contains(k),
            records_map(record_views(data_vec@)) == Map::new(
                |k: Seq<char>| kv.take(i as int).contains(k) && m.contains_key(k) && is_alive(m[k].1, now),
                |k: Seq<char>| m[k],
            ),
        decreases n - i,
    {
        let key = keys[i].clone();
        let ghost prev = record_views(data_vec@);
        proof {
            assert(kv[i as int] == key@);
            assert(kv.to_set().contains(key@));
            lemma_next_key(kv, i as int);
        }
        let ghost inv_map = Map::new(
            |k: Seq<char>| kv.take(i + 1).contains(k) && m.contains_key(k) && is_alive(m[k].1, now),
            |k: Seq<char>| m[k],
        );
        match red_hare.get_meta_data_with_expire(&key) {
            Ok(Some(meta_data)) => {
                if is_after(meta_data.expire_time, now) {
                    let ghost rec = (key@, meta_data@);
                    proof {
                        lemma_record_step(prev, kv, i as int, rec);
                    }
                    data_vec.push(Persistence { key, meta_data });
                    proof {
                        assert(record_views(data_vec@) =~= prev.push(rec));
                        assert(records_map(record_views(data_vec@)) =~= inv_map);
                    }
                } else {
                    proof {
                        lemma_record_step(prev, kv, i as int, (key@, meta_data@));
                        assert(records_map(record_views(data_vec@)) =~= inv_map);
                    }
                }
            },
            _ => {},
        }
        i = i + 1;
    }
    proof {
        assert(kv.take(n as int) =~= kv);
        assert(records_map(record_views(data_vec@)) =~= alive_part(m, now));
    }
    data_vec
}

/// The records of the entries of the store that are alive at the wall
/// clock's reading `clock`, one per key, in an order that the store's map
/// leaves open. When the clock could not be read, only the entries without
/// expiry time are recorded.
pub fn save_rdb_file_on_clock(red_hare: &RedHare, clock: Result<u128, String>) -> (r: Vec<Persistence>)
    ensures
        record_keys(record_views(r@)).no_duplicates(),
        records_map(record_views(r@)) == alive_part(red_hare@, time_or_latest(clock)),
{
    let now = reading_time(&clock);
    save_rdb_file_at(red_hare, now)
}

/// The records of the entries of the store that are alive at one reading of
/// the wall clock, one per key, in an order that the store's map leaves
/// open. When the clock cannot be read, only the entries without expiry
/// time are recorded.
pub fn save_rdb_file(red_hare: &RedHare) -> (r: Vec<Persistence>)
    ensures
        record_keys(record_views(r@)).no_duplicates(),
        exists|now: u128| records_map(record_views(r@)) == #[trigger] alive_part(red_hare@, now),
{
    save_rdb_file_on_clock(red_hare, unix_time_nanos())
}

/// Writing records with distinct keys into an empty store at the time
/// `now` gives the entries that they describe and that are alive then.
pub proof fn lemma_load_distinct_records(s: Seq<RecordView>, now: u128)
    requires
        record_keys(s).no_duplicates(),
    ensures
        spec_load(Map::empty(), s, same_time(now, s.len())) == alive_part(records_map(s), now),
    decreases s.len(),
{
    if s.len() == 0 {
        assert(alive_part(records_map(s), now) =~= Map::empty());
    } else {
        let init = s.drop_last();
        let x = s.last();
        assert(record_keys(init) =~= record_keys(s).drop_last());
        assert(record_keys(init).no_duplicates()) by {
            let ks = record_keys(init);
            assert forall|a: int, b: int| 0 <= a < ks.len() && 0 <= b < ks.len() && a != b
                implies ks[a] != ks[b] by {
                assert(ks[a] == record_keys(s)[a]);
                assert(ks[b] == record_keys(s)[b]);
            }
        }
        lemma_load_distinct_records(init, now);
        assert(same_time(now, s.len()).drop_last() =~= same_time(now, init.len()));
        lemma_records_map_keys(init);
        assert(!records_map(init).contains_key(x.0)) by {
            if record_keys(init).to_set().contains(x.0) {
                let j = choose|j: int| 0 <= j < init.len() && record_keys(init)[j] == x.0;
                assert(record_keys(s)[j] == record_keys(s)[s.len() - 1]);
            }
        }
        assert(spec_put(alive_part(records_map(init), now), x.0, x.1, now)
            =~= alive_part(records_map(init).insert(x.0, x.1), now));
    }
}

/// What is alive at a later time out of what was alive at an earlier time
/// is what is alive at the later time.
pub proof fn lemma_alive_part_later(m: StoreView, earlier: u128, later: u128)
    requires
        earlier <= later,
    ensures
        alive_part(alive_part(m, earlier), later) == alive_part(m, later),
{
    assert(alive_part(alive_part(m, earlier), later) =~= alive_part(m, later));
}

/// A snapshot taken at one time and written into an empty store at the
/// same or a later time gives back exactly the entries of the store it was
/// taken from that are still alive at the later time.
pub proof fn lemma_restore_after_save(m: StoreView, s: Seq<RecordView>, saved_at: u128, restored_at: u128)
    requires
        record_keys(s).no_duplicates(),
        records_map(s) == alive_part(m, saved_at),
        saved_at <= restored_at,
    ensures
        spec_load(Map::empty(), s, same_time(restored_at, s.len())) == alive_part(m, restored_at),
{
    lemma_load_distinct_records(s, restored_at);
    lemma_alive_part_later(m, saved_at, restored_at);
}

/// The keys of all records but the last are distinct when all keys are.
proof fn lemma_drop_last_distinct(s: Seq<RecordView>)
    requires
        s.len() > 0,
        record_keys(s).no_duplicates(),
    ensures
        record_keys(s.drop_last()) == record_keys(s).drop_last(),
        record_keys(s.drop_last()).no_duplicates(),
        !record_keys(s.drop_last()).contains(s.last().0),
{
    let init = s.drop_last();
    assert(record_keys(init) =~= record_keys(s).drop_last());
    let ks = record_keys(init);
    assert forall|a: int, b: int| 0 <= a < ks.len() && 0 <= b < ks.len() && a != b implies ks[a] != ks[b] by {
        assert(ks[a] == record_keys(s)[a]);
        assert(ks[b] == record_keys(s)[b]);
    }
    if ks.contains(s.last().0) {
        let j = choose|j: int| 0 <= j < ks.len() && ks[j] == s.last().0;
        assert(record_keys(s)[j] == record_keys(s)[s.len() - 1]);
    }
}

/// With distinct keys, what the records describe holds each record's entry
/// under its key, and no key that no record has.
pub proof fn lemma_records_map_distinct(s: Seq<RecordView>)
    requires
        record_keys(s).no_duplicates(),
    ensures
        forall|i: int| 0 <= i < s.len() ==> #[trigger] records_map(s).contains_key(s[i].0)
            && records_map(s)[s[i].0] == s[i].1,
        forall|k: Seq<char>| #[trigger] records_map(s).contains_key(k) <==> record_keys(s).contains(k),
    decreases s.len(),
{
    lemma_records_map_keys(s);
    if s.len() > 0 {
        let init = s.drop_last();
        lemma_drop_last_distinct(s);
        lemma_records_map_distinct(init);
        assert(records_map(s) == records_map(init).insert(s.last().0, s.last().1));
        assert forall|i: int| 0 <= i < s.len() implies #[trigger] records_map(s).contains_key(s[i].0)
            && records_map(s)[s[i].0] == s[i].1 by {
            if i < s.len() - 1 {
                assert(init[i] == s[i]);
                assert(record_keys(s)[i] == s[i].0);
                assert(record_keys(s)[s.len() - 1] == s.last().0);
                assert(s[i].0 != s.last().0);
                assert(records_map(init).contains_key(init[i].0));
            }
        }
    }
    assert forall|k: Seq<char>| #[trigger] records_map(s).contains_key(k) <==> record_keys(s).contains(k) by {
        assert(records_map(s).dom().contains(k) <==> record_keys(s).to_set().contains(k));
    }
}

/// Writing records with distinct keys into a store at the time `now` puts
/// the entries that they describe and that are alive then over the store's
/// own.
pub proof fn lemma_load_distinct_over(m: StoreView, s: Seq<RecordView>, now: u128)
    requires
        record_keys(s).no_duplicates(),
    ensures
        spec_load(m, s, same_time(now, s.len())) == m.union_prefer_right(alive_part(records_map(s), now)),
    decreases s.len(),
{
    if s.len() == 0 {
        assert(m.union_prefer_right(alive_part(records_map(s), now)) =~= m);
    } else {
        let init = s.drop_last();
        let x = s.last();
        lemma_drop_last_distinct(s);
        lemma_load_distinct_over(m, init, now);
        assert(same_time(now, s.len()).drop_last() =~= same_time(now, init.len()));
        lemma_records_map_keys(init);
        assert(!records_map(init).contains_key(x.0)) by {
            assert(!record_keys(init).to_set().contains(x.0));
        }
        assert(spec_put(m.union_prefer_right(alive_part(records_map(init), now)), x.0, x.1, now)
            =~= m.union_prefer_right(alive_part(records_map(init).insert(x.0, x.1), now)));
    }
}

/// Records with distinct keys restored on a reading of the wall clock: a
/// record whose entry has no expiry time is loaded whatever the clock said;
/// one with an expiry time is loaded exactly when the clock was read and the
/// expiry lies after the reading, and otherwise the store keeps what it had
/// under that key.
pub proof fn lemma_restore_on_clock(m: StoreView, s: Seq<RecordView>, clock: Result<u128, String>, i: int)
    requires
        record_keys(s).no_duplicates(),
        0 <= i < s.len(),
    ensures
        s[i].1.1 is None ==> spec_load(m, s, same_time(time_or_latest(clock), s.len())).contains_key(s[i].0)
            && spec_load(m, s, same_time(time_or_latest(clock), s.len()))[s[i].0] == s[i].1,
        clock matches Ok(now) ==> (s[i].1.1 matches Some(t) ==> (
            (t > now ==> spec_load(m, s, same_time(time_or_latest(clock), s.len())).contains_key(s[i].0)
                && spec_load(m, s, same_time(time_or_latest(clock), s.len()))[s[i].0] == s[i].1)
            && (t <= now ==> spec_load(m, s, same_time(time_or_latest(clock), s.len())).contains_key(s[i].0)
                == m.contains_key(s[i].0)))),
        (clock is Err && s[i].1.1 is Some) ==> spec_load(m, s, same_time(time_or_latest(clock), s.len())).contains_key(s[i].0)
            == m.contains_key(s[i].0),
        !is_alive(s[i].1.1, time_or_latest(clock)) && m.contains_key(s[i].0) ==> spec_load(m, s,
            same_time(time_or_latest(clock), s.len()))[s[i].0] == m[s[i].0],
{
    lemma_load_distinct_over(m, s, time_or_latest(clock));
    lemma_records_map_distinct(s);
    assert(records_map(s).contains_key(s[i].0));
}

/// Restoring records on a reading of the wall clock leaves every key that
/// no record has as it was.
pub proof fn lemma_restore_leaves_other_keys(m: StoreView, s: Seq<RecordView>, clock: Result<u128, String>, k: Seq<char>)
    requires
        record_keys(s).no_duplicates(),
        !record_keys(s).contains(k),
    ensures
        spec_load(m, s, same_time(time_or_latest(clock), s.len())).contains_key(k) == m.contains_key(k),
        m.contains_key(k) ==> spec_load(m, s, same_time(time_or_latest(clock), s.len()))[k] == m[k],
{
    lemma_load_distinct_over(m, s, time_or_latest(clock));
    lemma_records_map_distinct(s);
}

/// A snapshot saved on a reading of the wall clock records each entry
/// without expiry time; an entry with an expiry time it records exactly when
/// the clock was read and the expiry lies after the reading. A recorded
/// entry is the store's own, and a key the store does not hold is not
/// recorded.
pub proof fn lemma_save_on_clock(m: StoreView, s: Seq<RecordView>, clock: Result<u128, String>, k: Seq<char>)
    requires
        records_map(s) == alive_part(m, time_or_latest(clock)),
    ensures
        !m.contains_key(k) ==> !records_map(s).contains_key(k),
        records_map(s).contains_key(k) ==> records_map(s)[k] == m[k],
        m.contains_key(k) && m[k].1 is None ==> records_map(s).contains_key(k),
        clock matches Ok(now) ==> (m.contains_key(k) ==> (m[k].1 matches Some(t) ==> (
            records_map(s).contains_key(k) <==> t > now))),
        clock is Err && m.contains_key(k) && m[k].1 is Some ==> !records_map(s).contains_key(k),
{
}

} // verus!
