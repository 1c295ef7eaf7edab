use red_hare::engine::red_hare::RedHare;

#[test]
fn red_hare_test_test_set_string_success() {
    let mut red_hare = RedHare::new();
    let result = red_hare.set_string("test_key".to_string(), "test_value".to_string());

    assert!(result.is_ok());
    assert_eq!(result.unwrap(), true);
}

#[test]
fn test_set_string_empty_key() {
    let mut red_hare = RedHare::new();
    let result = red_hare.set_string("".to_string(), "test_value".to_string());
    assert!(result.is_err());
    assert_eq!(result.err().unwrap(), "key is empty");
}

#[test]
fn test_get_string_success() {
    let mut red_hare = RedHare::new();
    let result = red_hare.set_string("test_key".to_string(), "test_value".to_string());
    assert!(result.is_ok());
    assert_eq!(result.unwrap(), true);

    let result = red_hare.get_string(&"test_key".to_string());
    assert!(result.is_ok());
    assert_eq!(result.unwrap().unwrap(), "test_value");
}

#[test]
fn test_get_string_with_expire_success() {
    let mut red_hare = RedHare::new();
    let result = red_hare.set_string_with_expire(
        "test_key".to_string(),
        "test_value".to_string(),
        10 * 1_000_000_000u128,
    );
    assert!(result.is_ok());
    assert_eq!(result.unwrap(), true);

    let result = red_hare.get_string(&"test_key".to_string());
    assert!(result.is_ok());
    assert_eq!(result.unwrap().unwrap(), "test_value");
}

#[test]
fn test_get_string_with_expire_fail() {
    let mut red_hare = RedHare::new();
    let three_seconds = std::time::Duration::from_secs(3);
    let result = red_hare.set_string_with_expire(
        "test_key".to_string(),
        "test_value".to_string(),
        three_seconds.as_nanos(),
    );
    assert!(result.is_ok());
    assert_eq!(result.unwrap(), true);
    let start = std::time::Instant::now();
    while start.elapsed() < std::time::Duration::from_secs(4) {}
    let result = red_hare.get_string(&"test_key".to_string());
    assert!(result.is_ok());
    assert_eq!(result.unwrap(), None);
}

// The same, with the times handed to the store.
#[test]
fn get_string_with_expire_fail_at() {
    let mut red_hare = RedHare::new();
    let three_seconds = std::time::Duration::from_secs(3);
    let written_at: u128 = 1_700_000_000_000_000_000;
    let result = red_hare.set_string_with_expire_at(
        "test_key".to_string(),
        "test_value".to_string(),
        three_seconds.as_nanos(),
        written_at,
    );
    assert!(result.is_ok());
    assert_eq!(result.unwrap(), true);
    let read_at = written_at + std::time::Duration::from_secs(4).as_nanos();
    let result = red_hare.get_string_at(&"test_key".to_string(), read_at);
    assert!(result.is_ok());
    assert_eq!(result.unwrap(), None);
}
