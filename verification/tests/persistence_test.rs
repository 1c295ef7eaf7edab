use red_hare::engine::red_hare::RedHare;
use red_hare::storage::persistence::{restore_rdb_file, save_rdb_file};

fn store_with_three_strings() -> RedHare {
    let mut red_hare = RedHare::new();
    let ret = red_hare.set_string("test_key1".to_string(), "test_value1".to_string());
    assert!(ret.is_ok());

    let ret = red_hare.set_string("test_key2".to_string(), "test_value2".to_string());
    assert!(ret.is_ok());

    let ret = red_hare.set_string("test_key3".to_string(), "test_value3".to_string());
    assert!(ret.is_ok());
    red_hare
}

#[test]
fn save_rdb_file_test() {
    let red_hare = store_with_three_strings();
    let records = save_rdb_file(&red_hare);
    assert_eq!(records.len(), 3);
    let mut keys: Vec<String> = records.iter().map(|p| p.key.clone()).collect();
    keys.sort();
    assert_eq!(keys, vec!["test_key1".to_string(), "test_key2".to_string(), "test_key3".to_string()]);
}

#[test]
fn restore_rdb_file_test() {
    let records = save_rdb_file(&store_with_three_strings());
    let mut red_hare = RedHare::new();
    restore_rdb_file(&mut red_hare, records);

    let ret = red_hare.get_string(&"test_key1".to_string());
    assert!(ret.is_ok());
    assert_eq!(ret.unwrap().unwrap(), "test_value1".to_string());

    let ret = red_hare.get_string(&"test_key2".to_string());
    assert!(ret.is_ok());
    assert_eq!(ret.unwrap().unwrap(), "test_value2".to_string());

    let ret = red_hare.get_string(&"test_key3".to_string());
    assert!(ret.is_ok());
    assert_eq!(ret.unwrap().unwrap(), "test_value3".to_string());
}
