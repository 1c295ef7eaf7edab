//! Snapshot files: which files of the log directory are snapshots, which
//! one is the latest, how a new one is named, and how a snapshot is taken
//! from the store and loaded back into it.
use vstd::prelude::*;
pub use crate::engine::persistence::Persistence;
use crate::engine::entry_map::key_views;
use crate::engine::persistence::{
    alive_part, lemma_load_distinct_records, lemma_next_key, lemma_record_step, lemma_records_push,
    record_keys, save_rdb_file_at,
    same_time, RecordView, record_views, records_map, restore_rdb_file, spec_load,
};
use crate::engine::red_hare::{RedHare, StoreView};
use crate::utils::clock::unix_time_nanos;
use crate::utils::common::{is_alive, time_or_latest};
use crate::utils::text::{
    after_last_underscore, all_digits, chars_of, is_digit, lemma_after_last_underscore,
    lemma_decimal_digits, lemma_parse_decimal, occurs_at, contains_chars, decimal, last_piece_start,
    parse_u64_chars, push_decimal, rdb_extension, seq_contains_str, spec_parse_u64, strip_rdb,
    strip_rdb_chars,
};

verus! {

/// The stem that every snapshot file's name holds.
pub const RDB_BASIC_NAME: &'static str = "rdb_log_file";

/// The timestamp that a snapshot file's name carries: the last piece of
/// the name split at `_`, with `.rdb` removed, read as a `u64`.
pub open spec fn spec_rdb_timestamp(name: Seq<char>) -> Option<u64> {
    spec_parse_u64(strip_rdb(after_last_underscore(name)))
}

/// A file with this name is a snapshot file: its name holds the stem.
pub open spec fn is_rdb_file_name(name: Seq<char>) -> bool {
    seq_contains_str(name, RDB_BASIC_NAME@)
}

/// `a` comes no later than `b` when timestamps are compared, an absent
/// timestamp coming before every present one.
pub open spec fn timestamp_le(a: Option<u64>, b: Option<u64>) -> bool {
    match (a, b) {
        (None, _) => true,
        (Some(_), None) => false,
        (Some(x), Some(y)) => x <= y,
    }
}

/// The file at `i` is the one that is picked as the latest among `names`:
/// no file has a later timestamp, and every file after it has an earlier
/// one.
pub open spec fn is_latest(names: Seq<Seq<char>>, i: int) -> bool {
    &&& 0 <= i < names.len()
    &&& forall|j: int| 0 <= j < names.len() ==> timestamp_le(
        spec_rdb_timestamp(#[trigger] names[j]),
        spec_rdb_timestamp(names[i]),
    )
    &&& forall|j: int| i < j < names.len() ==> !timestamp_le(
        spec_rdb_timestamp(names[i]),
        spec_rdb_timestamp(#[trigger] names[j]),
    )
}

/// The name that the snapshot file for `time_stamp` gets.
pub open spec fn spec_rdb_file_name(time_stamp: u64) -> Seq<char> {
    RDB_BASIC_NAME@ + seq!['_'] + decimal(time_stamp as nat) + rdb_extension()
}

/// The name of the file that a snapshot is written to before it is renamed.
pub open spec fn spec_rdb_temp_file_name() -> Seq<char> {
    RDB_BASIC_NAME@ + seq!['_', 't', 'e', 'm', 'p', '.', 'r', 'd', 'b']
}

/// The timestamp that the snapshot file named `name` carries.
pub fn rdb_timestamp(name: &String) -> (r: Option<u64>)
    ensures
        r == spec_rdb_timestamp(name@),
{
    let chars = chars_of(name.as_str());
    let start = last_piece_start(&chars);
    let stripped = strip_rdb_chars(&chars, start);
    parse_u64_chars(&stripped)
}

/// The names of the snapshot files among `file_names`, in their order.
pub fn all_rdb_file_get(file_names: &Vec<String>) -> (r: Vec<String>)
    ensures
        key_views(r@) == key_views(file_names@).filter(|s: Seq<char>| is_rdb_file_name(s)),
{
    let stem = chars_of(RDB_BASIC_NAME);
    let mut path_list: Vec<String> = Vec::new();
    let n = file_names.len();
    let mut i: usize = 0;
    while i < n
        invariant
            n == file_names@.len(),
            i <= n,
            stem@ == RDB_BASIC_NAME@,
            key_views(path_list@) == key_views(file_names@).take(i as int).filter(
                |s: Seq<char>| is_rdb_file_name(s),
            ),
        decreases n - i,
    {
        let name = &file_names[i];
        let name_chars = chars_of(name.as_str());
        let ghost prev = path_list@;
        let keep = contains_chars(&name_chars, &stem);
        proof {
            let kv = key_views(file_names@);
            assert(kv.take(i + 1) =~= kv.take(i as int).push(name@));
            kv.take(i as int).lemma_filter_push(name@, |s: Seq<char>| is_rdb_file_name(s));
        }
        if keep {
            path_list.push(name.clone());
            proof {
                assert(key_views(path_list@) =~= key_views(prev).push(name@));
            }
        }
        i = i + 1;
    }
    proof {
        assert(key_views(file_names@).take(n as int) =~= key_views(file_names@));
    }
    path_list
}

/// Which of `file_names` holds the latest snapshot: the one with the
/// largest timestamp in its name, the last of them when several share it,
/// a name without timestamp counting as earlier than any with one. None
/// when there are no names.
pub fn last_rdb_file_get(file_names: &Vec<String>) -> (r: Option<usize>)
    ensures
        r is None <==> file_names@.len() == 0,
        r matches Some(i) ==> is_latest(key_views(file_names@), i as int),
{
    let n = file_names.len();
    if n == 0 {
        return None;
    }
    let ghost kv = key_views(file_names@);
    let mut best: usize = 0;
    let mut best_key = rdb_timestamp(&file_names[0]);
    let mut j: usize = 1;
    while j < n
        invariant
            n == file_names@.len(),
            kv == key_views(file_names@),
            1 <= j <= n,
            best < j,
            best_key == spec_rdb_timestamp(kv[best as int]),
            forall|k: int| 0 <= k < j ==> timestamp_le(spec_rdb_timestamp(#[trigger] kv[k]), best_key),
            forall|k: int| best < k < j ==> !timestamp_le(best_key, spec_rdb_timestamp(#[trigger] kv[k])),
        decreases n - j,
    {
        let key = rdb_timestamp(&file_names[j]);
        let later = match (best_key, key) {
            (None, _) => true,
            (Some(_), None) => false,
            (Some(x), Some(y)) => x <= y,
        };
        if later {
            best = j;
            best_key = key;
        }
        j = j + 1;
    }
    Some(best)
}

/// The name for the snapshot file of `time_stamp`.
pub fn rdb_file_name(time_stamp: u64) -> (r: String)
    ensures
        r@ == spec_rdb_file_name(time_stamp),
{
    proof {
        reveal_strlit("_");
        reveal_strlit(".rdb");
    }
    let mut name = String::from_str(RDB_BASIC_NAME);
    name.append("_");
    push_decimal(&mut name, time_stamp);
    name.append(".rdb");
    name
}

/// The name of the file that a snapshot is written to before it is renamed.
pub fn rdb_temp_file_name() -> (r: String)
    ensures
        r@ == spec_rdb_temp_file_name(),
{
    proof {
        reveal_strlit("_temp.rdb");
    }
    let mut name = String::from_str(RDB_BASIC_NAME);
    name.append("_temp.rdb");
    name
}

/// The entries of `m` that a snapshot taken at the time `now` holds: those
/// alive then, under keys that are not empty.
pub open spec fn dumped_part(m: StoreView, now: u128) -> StoreView {
    Map::new(|k: Seq<char>| m.contains_key(k) && k.len() > 0 && is_alive(m[k].1, now), |k: Seq<char>| m[k])
}

/// The store after a snapshot is taken at the time `now`: the expired
/// entries under keys that are not empty are gone.
pub open spec fn swept_part(m: StoreView, now: u128) -> StoreView {
    Map::new(
        |k: Seq<char>| m.contains_key(k) && (k.len() == 0 || is_alive(m[k].1, now)),
        |k: Seq<char>| m[k],
    )
}

/// Loads the records of a snapshot into the store, in order, at one reading
/// of the wall clock (see `restore_rdb_file`).
pub fn load_from_rdb(red_hare: &mut RedHare, data: Vec<Persistence>)
    ensures
        exists|now: u128|
            final(red_hare)@ == #[trigger] spec_load(old(red_hare)@, record_views(data@), same_time(now, data@.len())),
{
    restore_rdb_file(red_hare, data)
}

/// Takes a snapshot at the time `now` by reading every key of the store:
/// the records of the entries alive then, one per key, in an order that the
/// store's map leaves open. The reads remove the expired entries; an entry
/// under the empty key is refused by the read, so it is neither recorded
/// nor removed.
pub fn dump_to_rdb_at(red_hare: &mut RedHare, now: u128) -> (r: Vec<Persistence>)
    ensures
        record_keys(record_views(r@)).no_duplicates(),
        records_map(record_views(r@)) == dumped_part(old(red_hare)@, now),
        final(red_hare)@ == swept_part(old(red_hare)@, now),
{
    let keys = red_hare.keys_get();
    let ghost kv = key_views(keys@);
    let ghost m = red_hare@;
    let mut data_vec: Vec<Persistence> = Vec::new();
    let n = keys.len();
    let mut i: usize = 0;
    while i < n
        invariant
            n == keys@.len(),
            kv == key_views(keys@),
            kv.no_duplicates(),
            kv.to_set() == m.dom(),
            i <= n,
            red_hare@ == Map::new(
                |k: Seq<char>| m.contains_key(k) && (!kv.take(i as int).contains(k) || k.len() == 0
                    || is_alive(m[k].1, now)),
                |k: Seq<char>| m[k],
            ),
            record_keys(record_views(data_vec@)).no_duplicates(),
            forall|k: Seq<char>| #[trigger] record_keys(record_views(data_vec@)).contains(k)
                ==> kv.take(i as int).contains(k),
            records_map(record_views(data_vec@)) == Map::new(
                |k: Seq<char>| kv.take(i as int).contains(k) && m.contains_key(k) && k.len() > 0
                    && is_alive(m[k].1, now),
                |k: Seq<char>| m[k],
            ),
        decreases n - i,
    {
        let key = keys[i].clone();
        let ghost prev = record_views(data_vec@);
        proof {
            assert(kv[i as int] == key@);
            assert(kv.to_set().contains(key@));
            lemma_next_key(kv, i as int);
            lemma_record_step(prev, kv, i as int, (key@, m[key@]));
        }
        let ghost next_store = Map::new(
            |k: Seq<char>| m.contains_key(k) && (!kv.take(i + 1).contains(k) || k.len() == 0
                || is_alive(m[k].1, now)),
            |k: Seq<char>| m[k],
        );
        let ghost next_records = Map::new(
            |k: Seq<char>| kv.take(i + 1).contains(k) && m.contains_key(k) && k.len() > 0
                && is_alive(m[k].1, now),
            |k: Seq<char>| m[k],
        );
        match red_hare.get_at(&key, now) {
            Ok(Some(meta_data)) => {
                let ghost rec = (key@, meta_data@);
                data_vec.push(Persistence { key, meta_data });
                proof {
                    assert(record_views(data_vec@) =~= prev.push(rec));
                    assert(records_map(record_views(data_vec@)) =~= next_records);
                    assert(red_hare@ =~= next_store);
                }
            },
            _ => {
                proof {
                    assert(records_map(record_views(data_vec@)) =~= next_records);
                    assert(red_hare@ =~= next_store);
                }
            },
        }
        i = i + 1;
    }
    proof {
        assert(kv.take(n as int) =~= kv);
        assert(records_map(record_views(data_vec@)) =~= dumped_part(m, now));
        assert(red_hare@ =~= swept_part(m, now));
    }
    data_vec
}

/// The records, in their order, without the one under the empty key.
fn without_empty_key(data: Vec<Persistence>) -> (r: Vec<Persistence>)
    requires
        record_keys(record_views(data@)).no_duplicates(),
    ensures
        record_keys(record_views(r@)).no_duplicates(),
        records_map(record_views(r@)) == records_map(record_views(data@)).remove(Seq::<char>::empty()),
{
    let ghost views = record_views(data@);
    let ghost kv = record_keys(views);
    let n = data.len();
    let mut data = data;
    let mut out: Vec<Persistence> = Vec::new();
    let mut i: usize = 0;
    while i < n
        invariant
            n == views.len(),
            kv == record_keys(views),
            kv.no_duplicates(),
            data@.len() == n - i,
            record_views(data@) == views.skip(i as int),
            record_keys(record_views(out@)).no_duplicates(),
            forall|k: Seq<char>| #[trigger] record_keys(record_views(out@)).contains(k)
                ==> kv.take(i as int).contains(k),
            records_map(record_views(out@)) == records_map(views.take(i as int)).remove(Seq::<char>::empty()),
        decreases n - i,
    {
        let ghost before = data@;
        let p = data.remove(0);
        let ghost prev = record_views(out@);
        proof {
            assert forall|j: int| 0 <= j < data@.len() implies #[trigger] record_views(data@)[j]
                == views.skip(i + 1)[j] by {
                assert(record_views(before)[j + 1] == views.skip(i as int)[j + 1]);
            }
            assert(record_views(data@) =~= views.skip(i + 1));
            assert(views.skip(i as int)[0] == views[i as int]);
            assert(p@ == views[i as int]);
            assert(kv[i as int] == p@.0);
            lemma_record_step(prev, kv, i as int, p@);
            assert(views.take(i + 1) =~= views.take(i as int).push(p@));
            lemma_records_push(views.take(i as int), p@);
        }
        if p.key.as_str().is_empty() {
            proof {
                assert(p@.0 =~= Seq::<char>::empty());
                assert(records_map(views.take(i + 1)).remove(Seq::<char>::empty())
                    =~= records_map(views.take(i as int)).remove(Seq::<char>::empty()));
            }
        } else {
            let ghost rec = p@;
            out.push(p);
            proof {
                assert(record_views(out@) =~= prev.push(rec));
                assert(records_map(record_views(out@))
                    =~= records_map(views.take(i + 1)).remove(Seq::<char>::empty()));
            }
        }
        i = i + 1;
    }
    proof {
        assert(views.take(n as int) =~= views);
    }
    out
}

/// Takes a snapshot at the wall clock's reading `clock` (see
/// `dump_to_rdb_at`): when the clock was read, the records of the entries
/// alive at the reading, under keys that are not empty, and the store without
/// its expired entries. When the clock could not be read, the entries without
/// expiry time, under keys that are not empty, are recorded, and the store is
/// left as it is: the reads of entries with an expiry time fail then.
pub fn dump_to_rdb_on_clock(red_hare: &mut RedHare, clock: Result<u128, String>) -> (r: Vec<Persistence>)
    ensures
        record_keys(record_views(r@)).no_duplicates(),
        records_map(record_views(r@)) == dumped_part(old(red_hare)@, time_or_latest(clock)),
        clock matches Ok(now) ==> final(red_hare)@ == swept_part(old(red_hare)@, now),
        clock is Err ==> final(red_hare)@ == old(red_hare)@,
{
    match clock {
        Ok(now) => dump_to_rdb_at(red_hare, now),
        Err(_) => {
            let all = save_rdb_file_at(red_hare, u128::MAX);
            let r = without_empty_key(all);
            proof {
                assert forall|k: Seq<char>| #[trigger] k.len() == 0 implies k == Seq::<char>::empty() by {
                    assert(k =~= Seq::<char>::empty());
                }
                assert(records_map(record_views(r@)) =~= dumped_part(red_hare@, u128::MAX));
            }
            r
        },
    }
}

/// Takes a snapshot at one reading of the wall clock (see
/// `dump_to_rdb_on_clock`): the records of the entries alive then, under
/// keys that are not empty, and the store without its expired entries. When
/// the clock cannot be read, the entries without expiry time, under keys that
/// are not empty, are recorded, and the store is left as it is.
pub fn dump_to_rdb(red_hare: &mut RedHare) -> (r: Vec<Persistence>)
    ensures
        record_keys(record_views(r@)).no_duplicates(),
        (exists|now: u128| records_map(record_views(r@)) == #[trigger] dumped_part(old(red_hare)@, now)
            && final(red_hare)@ == swept_part(old(red_hare)@, now))
        || (records_map(record_views(r@)) == dumped_part(old(red_hare)@, u128::MAX)
            && final(red_hare)@ == old(red_hare)@),
{
    dump_to_rdb_on_clock(red_hare, unix_time_nanos())
}

/// A snapshot dumped on a reading of the wall clock: an entry under a key
/// that is not empty and without expiry time is recorded and kept; one with
/// an expiry time is recorded and kept when the clock was read and the
/// expiry lies after the reading, and is neither recorded nor kept when it
/// does not. When the clock could not be read, the store is left as it was
/// and no entry with an expiry time is recorded. The entry under the empty
/// key is never recorded and always kept; a recorded entry is the store's
/// own.
pub proof fn lemma_dump_on_clock(
    m: StoreView,
    clock: Result<u128, String>,
    s: Seq<RecordView>,
    after: StoreView,
    k: Seq<char>,
)
    requires
        records_map(s) == dumped_part(m, time_or_latest(clock)),
        clock matches Ok(now) ==> after == swept_part(m, now),
        clock is Err ==> after == m,
    ensures
        !m.contains_key(k) ==> !records_map(s).contains_key(k) && !after.contains_key(k),
        records_map(s).contains_key(k) ==> records_map(s)[k] == m[k],
        after.contains_key(k) ==> m.contains_key(k) && after[k] == m[k],
        k.len() == 0 ==> !records_map(s).contains_key(k) && after.contains_key(k) == m.contains_key(k),
        k.len() > 0 && m.contains_key(k) && m[k].1 is None ==> records_map(s).contains_key(k)
            && after.contains_key(k),
        clock matches Ok(now) ==> (k.len() > 0 && m.contains_key(k) ==> (m[k].1 matches Some(t) ==> (
            (t > now ==> records_map(s).contains_key(k) && after.contains_key(k))
            && (t <= now ==> !records_map(s).contains_key(k) && !after.contains_key(k))))),
        clock is Err ==> after == m && (m.contains_key(k) && m[k].1 is Some ==> !records_map(s).contains_key(k)),
{
}

/// A snapshot taken at one time and loaded into an empty store at the same
/// or a later time gives back exactly the entries of the store it was taken from,
/// under keys that are not empty, that are still alive at the later time.
pub proof fn lemma_load_after_dump(m: StoreView, s: Seq<RecordView>, dumped_at: u128, loaded_at: u128)
    requires
        record_keys(s).no_duplicates(),
        records_map(s) == dumped_part(m, dumped_at),
        dumped_at <= loaded_at,
    ensures
        spec_load(Map::empty(), s, same_time(loaded_at, s.len())) == dumped_part(m, loaded_at),
{
    lemma_load_distinct_records(s, loaded_at);
    assert(alive_part(dumped_part(m, dumped_at), loaded_at) =~= dumped_part(m, loaded_at));
}

/// Removing `.rdb` from digits followed by `.rdb` leaves the digits.
proof fn lemma_strip_digits_extension(d: Seq<char>)
    requires
        all_digits(d),
    ensures
        strip_rdb(d + rdb_extension()) == d,
    decreases d.len(),
{
    let s = d + rdb_extension();
    if d.len() == 0 {
        assert(s =~= rdb_extension());
        assert(s.take(4) =~= rdb_extension());
        assert(s.skip(4) =~= Seq::<char>::empty());
        assert(strip_rdb(s) == strip_rdb(s.skip(4)));
        assert(strip_rdb(Seq::<char>::empty()) == Seq::<char>::empty());
        assert(d =~= Seq::<char>::empty());
    } else {
        assert(is_digit(d[0]));
        assert(s[0] == d[0]);
        assert(s.take(4)[0] != rdb_extension()[0]);
        assert(s.skip(1) =~= d.skip(1) + rdb_extension());
        assert(all_digits(d.skip(1))) by {
            assert forall|i: int| 0 <= i < d.skip(1).len() implies is_digit(#[trigger] d.skip(1)[i]) by {
                assert(d.skip(1)[i] == d[i + 1]);
            }
        }
        lemma_strip_digits_extension(d.skip(1));
        assert(s.take(4) != rdb_extension());
        assert(strip_rdb(s) == seq![s[0]] + strip_rdb(s.skip(1)));
        assert(seq![d[0]] + d.skip(1) =~= d);
    }
}

/// A snapshot file's name carries the timestamp that it was named for, and
/// the file counts as a snapshot file.
pub proof fn lemma_rdb_file_name_timestamp(time_stamp: u64)
    ensures
        spec_rdb_timestamp(spec_rdb_file_name(time_stamp)) == Some(time_stamp),
        is_rdb_file_name(spec_rdb_file_name(time_stamp)),
{
    let stem = RDB_BASIC_NAME@;
    let d = decimal(time_stamp as nat);
    let name = spec_rdb_file_name(time_stamp);
    lemma_decimal_digits(time_stamp as nat);
    let i: int = stem.len() as int + 1;
    assert(name.skip(i) =~= d + rdb_extension());
    assert(name[i - 1] == '_');
    assert forall|j: int| i <= j < name.len() implies name[j] != '_' by {
        if j < i + d.len() {
            assert(name[j] == d[j - i]);
            assert(is_digit(d[j - i]));
        } else {
            assert(name[j] == rdb_extension()[j - i - d.len()]);
        }
    }
    lemma_after_last_underscore(name, i);
    lemma_strip_digits_extension(d);
    lemma_parse_decimal(time_stamp);
    assert(name.subrange(0, stem.len() as int) =~= stem);
    assert(occurs_at(name, stem, 0));
}

/// The file that a snapshot is first written to counts as a snapshot file
/// but carries no timestamp.
pub proof fn lemma_rdb_temp_file_name()
    ensures
        spec_rdb_timestamp(spec_rdb_temp_file_name()) is None,
        is_rdb_file_name(spec_rdb_temp_file_name()),
{
    let stem = RDB_BASIC_NAME@;
    let name = spec_rdb_temp_file_name();
    let tail = seq!['t', 'e', 'm', 'p', '.', 'r', 'd', 'b'];
    let i: int = stem.len() as int + 1;
    assert(name.skip(i) =~= tail);
    assert(name[i - 1] == '_');
    assert forall|j: int| i <= j < name.len() implies name[j] != '_' by {
        assert(name[j] == tail[j - i]);
    }
    lemma_after_last_underscore(name, i);
    assert(tail.take(4)[0] != rdb_extension()[0]);
    let stripped = strip_rdb(tail);
    assert(stripped == seq![tail[0]] + strip_rdb(tail.skip(1)));
    assert(stripped[0] == 't');
    assert(!is_digit(stripped[0]));
    assert(!all_digits(stripped));
    assert(name.subrange(0, stem.len() as int) =~= stem);
    assert(occurs_at(name, stem, 0));
}

/// The file picked as the latest carries a timestamp no earlier than that
/// of any other file; so a file that carries one is always preferred to
/// one that does not, such as the file a snapshot is first written to.
pub proof fn lemma_latest_has_largest_timestamp(names: Seq<Seq<char>>, i: int, j: int, t: u64)
    requires
        is_latest(names, i),
        0 <= j < names.len(),
        spec_rdb_timestamp(names[j]) == Some(t),
    ensures
        spec_rdb_timestamp(names[i]) matches Some(latest) && t <= latest,
{
    assert(timestamp_le(spec_rdb_timestamp(names[j]), spec_rdb_timestamp(names[i])));
}

} // verus!
