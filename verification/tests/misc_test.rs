use red_hare::api::string_api::{default_expire_time, deserialize_non_empty_string, get_string, StringSaveRequest};
use red_hare::config::log::{load_log_dir, load_manifest, LoggingConfig};
use red_hare::engine::trigger_counter::CounterWithTimeout;
use std::time::Duration;

#[test]
fn counter_fires_at_its_count_limit() {
    let mut counter = CounterWithTimeout::new(3, Duration::from_secs(3600).as_nanos());
    assert!(!counter.check_and_add(1));
    assert!(!counter.check_and_add(1));
    assert!(!counter.check_and_add(1));
    assert!(counter.check_and_add(1));
    assert!(!counter.check_and_add(2));
}

#[test]
fn counter_fires_at_its_time_limit() {
    let mut counter = CounterWithTimeout::new(100, Duration::from_secs(5).as_nanos());
    assert!(!counter.check_and_add_at(1, 4_999_999_999));
    assert!(counter.check_and_add_at(1, 5_000_000_000));
    assert!(!counter.check_and_add_at(100, 0));
    assert!(counter.check_and_add_at(1, 0));
    let mut zero = CounterWithTimeout::new(100, 0);
    assert!(zero.check_and_add(1));
}

#[test]
fn counter_reset_clears_count() {
    let mut counter = CounterWithTimeout::new(2, Duration::from_secs(3600).as_nanos());
    assert!(!counter.check_and_add(2));
    counter.reset();
    assert!(!counter.check_and_add(1));
}

#[test]
fn request_rules() {
    assert_eq!(default_expire_time(), 0);
    assert_eq!(deserialize_non_empty_string(String::new()).err().unwrap(), "key cannot be empty");
    assert_eq!(deserialize_non_empty_string("k".to_string()).unwrap(), "k");
    assert_eq!(get_string(None), "");
    assert_eq!(get_string(Some("v".to_string())), "v");
    let request = StringSaveRequest { key: "k".to_string(), value: "v".to_string(), expire_time: default_expire_time() };
    assert_eq!(request.expire_time, 0);
}

#[test]
fn log_settings() {
    let config = LoggingConfig { log_dir: "./logs".to_string(), manifest: "./logs/MANIFEST".to_string() };
    assert_eq!(load_log_dir(&config), "./logs");
    assert_eq!(load_manifest(&config), "./logs/MANIFEST");
}
