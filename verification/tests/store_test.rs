use red_hare::engine::red_hare::{get_expire_time, get_expire_time_at, MetaData, RedHare};
use red_hare::utils::common::{add_nanos, add_nanos_at, is_after, is_after_now_at};

fn entry(value: &[u8], expire_time: Option<u128>) -> MetaData {
    MetaData { value: value.to_vec(), expire_time, data_type: "string".to_string() }
}

#[test]
fn expired_entry_is_removed_by_read() {
    let mut store = RedHare::new();
    let key = "k".to_string();
    assert!(store.put_at(key.clone(), entry(b"v", Some(100)), 50).is_ok());
    let alive = store.get_at(&key, 99).unwrap().unwrap();
    assert_eq!(alive.value, b"v".to_vec());
    assert_eq!(alive.expire_time, Some(100));
    assert!(store.get_at(&key, 100).unwrap().is_none());
    assert!(store.get_meta_data_with_expire(&key).unwrap().is_none());
    assert!(store.keys_get().is_empty());
}

#[test]
fn read_before_expiry_keeps_entry() {
    let mut store = RedHare::new();
    let key = "k".to_string();
    store.put_at(key.clone(), entry(b"v", Some(100)), 0).unwrap();
    assert!(store.get_at(&key, 10).unwrap().is_some());
    assert!(store.get_meta_data_with_expire(&key).unwrap().is_some());
}

#[test]
fn expired_write_is_dropped() {
    let mut store = RedHare::new();
    let key = "k".to_string();
    store.put_at(key.clone(), entry(b"v", Some(20)), 20).unwrap();
    assert!(store.get_meta_data_with_expire(&key).unwrap().is_none());
    store.put(key.clone(), entry(b"v", Some(1)), false).unwrap();
    assert!(store.get_meta_data_with_expire(&key).unwrap().is_none());
}

#[test]
fn read_after_delete_finds_nothing() {
    let mut store = RedHare::new();
    let key = "k".to_string();
    store.put(key.clone(), entry(b"v", None), false).unwrap();
    assert!(store.get(&key).unwrap().is_some());
    store.delete(&key, false).unwrap();
    assert!(store.get(&key).unwrap().is_none());
}

#[test]
fn empty_key_read_is_refused() {
    let mut store = RedHare::new();
    assert_eq!(store.get(&String::new()).err().unwrap(), "key is empty");
    assert_eq!(store.get_at(&String::new(), 0).err().unwrap(), "key is empty");
    assert_eq!(store.get_string(&String::new()).err().unwrap(), "key is empty");
}

#[test]
fn last_write_wins() {
    let mut store = RedHare::new();
    store.set_string("k".to_string(), "first".to_string()).unwrap();
    store.set_string("k".to_string(), "second".to_string()).unwrap();
    assert_eq!(store.get_string(&"k".to_string()).unwrap().unwrap(), "second");
    assert_eq!(store.keys_get(), vec!["k".to_string()]);
}

#[test]
fn write_leaves_other_keys() {
    let mut store = RedHare::new();
    store.set_string("a".to_string(), "1".to_string()).unwrap();
    store.set_string("b".to_string(), "2".to_string()).unwrap();
    assert_eq!(store.get_string(&"a".to_string()).unwrap().unwrap(), "1");
    let mut keys = store.keys_get();
    keys.sort();
    assert_eq!(keys, vec!["a".to_string(), "b".to_string()]);
}

#[test]
fn string_is_stored_as_utf8() {
    let mut store = RedHare::new();
    store.set_string("k".to_string(), "héllo ✓".to_string()).unwrap();
    let stored = store.get_meta_data_with_expire(&"k".to_string()).unwrap().unwrap();
    assert_eq!(stored.value, "héllo ✓".as_bytes().to_vec());
    assert_eq!(stored.data_type, "string");
    assert_eq!(stored.expire_time, None);
    assert_eq!(store.get_string(&"k".to_string()).unwrap().unwrap(), "héllo ✓");
}

#[test]
fn non_string_entry_is_refused() {
    let mut store = RedHare::new();
    let md = MetaData { value: vec![1, 2], expire_time: None, data_type: "hash".to_string() };
    store.put("k".to_string(), md, false).unwrap();
    assert_eq!(store.get_string(&"k".to_string()).err().unwrap(), "data type is not string");
}

#[test]
fn invalid_utf8_is_refused() {
    let mut store = RedHare::new();
    store.put("k".to_string(), entry(&[0xff, 0xfe], None), false).unwrap();
    assert_eq!(store.get_string_at(&"k".to_string(), 0).err().unwrap(), "invalid utf-8 sequence of 1 bytes from index 0");
}

#[test]
fn string_with_expiry_read_back_in_time() {
    let mut store = RedHare::new();
    store.set_string_with_expire_at("k".to_string(), "v".to_string(), 5, 100).unwrap();
    let stored = store.get_meta_data_with_expire(&"k".to_string()).unwrap().unwrap();
    assert_eq!(stored.expire_time, Some(105));
    assert_eq!(store.get_string_at(&"k".to_string(), 104).unwrap().unwrap(), "v");
    assert_eq!(store.get_string_at(&"k".to_string(), 105).unwrap(), None);
}

#[test]
fn overflowing_time_to_live_is_refused() {
    let mut store = RedHare::new();
    let r = store.set_string_with_expire_at("k".to_string(), "v".to_string(), u128::MAX, 1);
    assert_eq!(r.err().unwrap(), "arithmetic overflow occurred when adding nanoseconds");
    assert!(store.keys_get().is_empty());
    let r = store.set_string_with_expire_at(String::new(), "v".to_string(), 0, 1);
    assert_eq!(r.err().unwrap(), "key is empty");
}

#[test]
fn expire_time_arithmetic() {
    assert_eq!(get_expire_time_at(0, 7).unwrap(), None);
    assert_eq!(get_expire_time_at(5, 10).unwrap(), Some(15));
    assert!(get_expire_time_at(u128::MAX, 1).is_err());
    assert_eq!(get_expire_time(0).unwrap(), None);
    assert!(get_expire_time(1).unwrap().unwrap() > 1);
    assert_eq!(add_nanos_at(3, 4).unwrap(), 7);
    assert_eq!(add_nanos_at(1, u128::MAX).err().unwrap(), "arithmetic overflow occurred when adding nanoseconds");
    assert!(add_nanos(5).unwrap() > 5);
}

#[test]
fn expiry_is_strict() {
    assert!(is_after(None, u128::MAX));
    assert!(is_after(Some(11), 10));
    assert!(!is_after(Some(10), 10));
    assert!(!is_after(Some(9), 10));
}

#[test]
fn clock_based_expiry_checks() {
    assert_eq!(red_hare::utils::common::is_after_now(None), Ok(true));
    assert_eq!(red_hare::utils::common::is_after_now(Some(0)), Ok(false));
    assert_eq!(red_hare::utils::common::is_after_now(Some(u128::MAX)), Ok(true));
    assert_eq!(red_hare::utils::date::is_after_now(None), Ok(false));
    assert_eq!(red_hare::utils::date::is_after_now(Some(u128::MAX)), Ok(true));
    assert!(red_hare::utils::date::add_nanos(1).unwrap() > 1);
}

#[test]
fn delete_undoes_write() {
    let mut store = RedHare::new();
    store.set_string("a".to_string(), "1".to_string()).unwrap();
    store.set_string("b".to_string(), "2".to_string()).unwrap();
    store.delete(&"b".to_string(), false).unwrap();
    assert_eq!(store.keys_get(), vec!["a".to_string()]);
    assert_eq!(store.get_string(&"b".to_string()).unwrap(), None);
    assert_eq!(store.get_string(&"a".to_string()).unwrap().unwrap(), "1");
}

#[test]
fn date_and_common_checks_agree_on_times() {
    for n in [0u128, 1, u128::MAX] {
        let d = red_hare::utils::date::is_after_now(Some(n));
        let c = red_hare::utils::common::is_after_now(Some(n));
        assert_eq!(d, c);
    }
}

#[test]
fn expiry_check_on_given_clock_results() {
    assert_eq!(is_after_now_at(None, Err("clock".to_string())), Ok(true));
    assert_eq!(is_after_now_at(Some(5), Err("clock".to_string())), Err("clock".to_string()));
    assert_eq!(is_after_now_at(Some(5), Ok(4)), Ok(true));
    assert_eq!(is_after_now_at(Some(5), Ok(5)), Ok(false));
}
