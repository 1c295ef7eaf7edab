use red_hare::engine::red_hare::{MetaData, RedHare};
use red_hare::engine::persistence::{restore_rdb_file_at, save_rdb_file_at};
use red_hare::storage::rdb::{
    all_rdb_file_get, dump_to_rdb, dump_to_rdb_at, last_rdb_file_get, load_from_rdb, rdb_file_name,
    rdb_temp_file_name, rdb_timestamp, RDB_BASIC_NAME,
};

fn names(list: &[&str]) -> Vec<String> {
    list.iter().map(|s| s.to_string()).collect()
}

fn entry(value: &[u8], expire_time: Option<u128>) -> MetaData {
    MetaData { value: value.to_vec(), expire_time, data_type: "string".to_string() }
}

#[test]
fn snapshot_name_carries_its_timestamp() {
    let name = rdb_file_name(1_700_000_123);
    assert_eq!(name, "rdb_log_file_1700000123.rdb");
    assert_eq!(rdb_timestamp(&name), Some(1_700_000_123));
    assert_eq!(rdb_file_name(0), "rdb_log_file_0.rdb");
    assert_eq!(rdb_timestamp(&rdb_file_name(u64::MAX)), Some(u64::MAX));
    assert!(name.contains(RDB_BASIC_NAME));
}

#[test]
fn temp_name_has_no_timestamp() {
    let name = rdb_temp_file_name();
    assert_eq!(name, "rdb_log_file_temp.rdb");
    assert_eq!(rdb_timestamp(&name), None);
}

#[test]
fn timestamp_parsing_edges() {
    assert_eq!(rdb_timestamp(&"rdb_log_file_+12.rdb".to_string()), Some(12));
    assert_eq!(rdb_timestamp(&"rdb_log_file_-1.rdb".to_string()), None);
    assert_eq!(rdb_timestamp(&"rdb_log_file_+.rdb".to_string()), None);
    assert_eq!(rdb_timestamp(&"rdb_log_file_18446744073709551615.rdb".to_string()), Some(u64::MAX));
    assert_eq!(rdb_timestamp(&"rdb_log_file_18446744073709551616.rdb".to_string()), None);
    assert_eq!(rdb_timestamp(&"rdb_log_file_12.rdb.rdb".to_string()), Some(12));
    assert_eq!(rdb_timestamp(&"rdb_log_file_1.rdb2".to_string()), Some(12));
    assert_eq!(rdb_timestamp(&"123".to_string()), Some(123));
    assert_eq!(rdb_timestamp(&"".to_string()), None);
    assert_eq!(rdb_timestamp(&"a_b_".to_string()), None);
    assert_eq!(rdb_timestamp(&"x_00042".to_string()), Some(42));
    assert_eq!(rdb_timestamp(&"x_４２".to_string()), None);
}

#[test]
fn snapshot_files_are_picked_by_stem() {
    let list = names(&["rdb_log_file_1.rdb", "aof_log_file.aof", "x_rdb_log_file", "rdb_log_fil_2.rdb"]);
    assert_eq!(all_rdb_file_get(&list), names(&["rdb_log_file_1.rdb", "x_rdb_log_file"]));
    assert!(all_rdb_file_get(&Vec::new()).is_empty());
}

#[test]
fn latest_snapshot_is_chosen() {
    let list = names(&[
        "rdb_log_file_5.rdb",
        "rdb_log_file_temp.rdb",
        "rdb_log_file_12.rdb",
        "rdb_log_file_3.rdb",
    ]);
    assert_eq!(last_rdb_file_get(&list), Some(2));
    assert_eq!(last_rdb_file_get(&names(&["a_7.rdb", "b_7.rdb", "c_6.rdb"])), Some(1));
    assert_eq!(last_rdb_file_get(&names(&["rdb_log_file_temp.rdb", "x"])), Some(1));
    assert_eq!(last_rdb_file_get(&Vec::new()), None);
}

#[test]
fn dump_takes_alive_entries_and_sweeps_expired_ones() {
    let mut store = RedHare::new();
    store.put_at("alive".to_string(), entry(b"a", Some(1000)), 0).unwrap();
    store.put_at("forever".to_string(), entry(b"f", None), 0).unwrap();
    store.put_at("old".to_string(), entry(b"o", Some(10)), 0).unwrap();
    store.put_at(String::new(), entry(b"e", None), 0).unwrap();
    let records = dump_to_rdb_at(&mut store, 500);
    let mut keys: Vec<String> = records.iter().map(|p| p.key.clone()).collect();
    keys.sort();
    assert_eq!(keys, names(&["alive", "forever"]));
    let mut left = store.keys_get();
    left.sort();
    assert_eq!(left, names(&["", "alive", "forever"]));
}

#[test]
fn load_after_dump_gives_back_alive_entries() {
    let mut store = RedHare::new();
    store.put_at("a".to_string(), entry(b"1", Some(1000)), 0).unwrap();
    store.put_at("b".to_string(), entry(b"2", Some(600)), 0).unwrap();
    store.put_at("c".to_string(), entry(b"3", None), 0).unwrap();
    let records = dump_to_rdb_at(&mut store, 500);
    assert_eq!(records.len(), 3);
    let mut restored = RedHare::new();
    restore_rdb_file_at(&mut restored, records, 700);
    let mut keys = restored.keys_get();
    keys.sort();
    assert_eq!(keys, names(&["a", "c"]));
    assert_eq!(restored.get_at(&"a".to_string(), 700).unwrap().unwrap().value, b"1".to_vec());
}

#[test]
fn save_does_not_change_the_store() {
    let mut store = RedHare::new();
    store.put_at("a".to_string(), entry(b"1", Some(10)), 0).unwrap();
    store.put_at("b".to_string(), entry(b"2", None), 0).unwrap();
    let records = save_rdb_file_at(&store, 50);
    assert_eq!(records.len(), 1);
    assert_eq!(records[0].key, "b");
    assert_eq!(store.keys_get().len(), 2);
}

#[test]
fn clock_dump_and_load() {
    let mut store = RedHare::new();
    store.set_string("k".to_string(), "v".to_string()).unwrap();
    store.put("gone".to_string(), entry(b"g", Some(1)), false).unwrap();
    let records = dump_to_rdb(&mut store);
    assert_eq!(records.len(), 1);
    let mut restored = RedHare::new();
    load_from_rdb(&mut restored, records);
    assert_eq!(restored.get_string(&"k".to_string()).unwrap().unwrap(), "v");
}

#[test]
fn clock_dump_removes_expired_entries() {
    let mut store = RedHare::new();
    store.put_at("gone".to_string(), entry(b"g", Some(1)), 0).unwrap();
    store.put_at("later".to_string(), entry(b"l", Some(u128::MAX)), 0).unwrap();
    let records = dump_to_rdb(&mut store);
    assert_eq!(records.len(), 1);
    assert_eq!(records[0].key, "later");
    assert_eq!(store.keys_get(), vec!["later".to_string()]);
}
