use reo::{HashMapStorage, Storage, StorageError};

fn read(storage: &HashMapStorage, key: &str) -> Option<Vec<u8>> {
    storage.get_record(key).expect("the volatile backend does not fail")
}

#[test]
fn empty_store_holds_nothing() {
    let storage = HashMapStorage::new();
    assert_eq!(read(&storage, "x"), None);
    assert_eq!(read(&storage, ""), None);
}

#[test]
fn written_value_is_readable_at_once() {
    let mut storage = HashMapStorage::new();
    assert_eq!(storage.add_record_at("x", "hello", 1, 1000), Ok(()));
    assert_eq!(read(&storage, "x"), Some(b"hello".to_vec()));
}

#[test]
fn value_is_gone_after_a_sweep_past_its_expiry() {
    let mut storage = HashMapStorage::new();
    storage.add_record_at("x", "hello", 1, 1000).unwrap();
    assert_eq!(read(&storage, "x"), Some(b"hello".to_vec()));
    assert_eq!(storage.invalidate_old_records_at(1002), Ok(()));
    assert_eq!(read(&storage, "x"), None);
}

#[test]
fn sweep_at_the_expiry_time_keeps_the_record() {
    let mut storage = HashMapStorage::new();
    storage.add_record_at("x", "hello", 1, 1000).unwrap();
    storage.invalidate_old_records_at(1000).unwrap();
    assert_eq!(read(&storage, "x"), Some(b"hello".to_vec()));
    storage.invalidate_old_records_at(1001).unwrap();
    assert_eq!(read(&storage, "x"), Some(b"hello".to_vec()));
    storage.invalidate_old_records_at(1002).unwrap();
    assert_eq!(read(&storage, "x"), None);
}

#[test]
fn expired_value_is_readable_until_swept() {
    let mut storage = HashMapStorage::new();
    storage.add_record_at("stale", "still here", 0, 5).unwrap();
    assert_eq!(read(&storage, "stale"), Some(b"still here".to_vec()));
}

#[test]
fn second_write_replaces_value_and_expiry() {
    let mut storage = HashMapStorage::new();
    storage.add_record_at("x", "v1", 100, 1000).unwrap();
    storage.add_record_at("x", "v2", 5, 1000).unwrap();
    assert_eq!(read(&storage, "x"), Some(b"v2".to_vec()));
    storage.invalidate_old_records_at(1005).unwrap();
    assert_eq!(read(&storage, "x"), Some(b"v2".to_vec()));
    storage.invalidate_old_records_at(1006).unwrap();
    assert_eq!(read(&storage, "x"), None);
}

#[test]
fn second_write_can_extend_the_expiry() {
    let mut storage = HashMapStorage::new();
    storage.add_record_at("x", "v1", 5, 1000).unwrap();
    storage.add_record_at("x", "v2", 100, 1000).unwrap();
    storage.invalidate_old_records_at(1050).unwrap();
    assert_eq!(read(&storage, "x"), Some(b"v2".to_vec()));
}

#[test]
fn sweep_removes_the_expired_and_nothing_else() {
    let mut storage = HashMapStorage::new();
    storage.add_record_at("old", "1", 10, 100).unwrap();
    storage.add_record_at("older", "2", 1, 100).unwrap();
    storage.add_record_at("edge", "3", 50, 100).unwrap();
    storage.add_record_at("fresh", "4", 500, 100).unwrap();
    storage.invalidate_old_records_at(150).unwrap();
    assert_eq!(read(&storage, "old"), None);
    assert_eq!(read(&storage, "older"), None);
    assert_eq!(read(&storage, "edge"), Some(b"3".to_vec()));
    assert_eq!(read(&storage, "fresh"), Some(b"4".to_vec()));
}

#[test]
fn swept_key_can_be_written_again() {
    let mut storage = HashMapStorage::new();
    storage.add_record_at("x", "first", 1, 10).unwrap();
    storage.invalidate_old_records_at(20).unwrap();
    assert_eq!(read(&storage, "x"), None);
    storage.add_record_at("x", "second", 1, 30).unwrap();
    assert_eq!(read(&storage, "x"), Some(b"second".to_vec()));
    storage.invalidate_old_records_at(31).unwrap();
    assert_eq!(read(&storage, "x"), Some(b"second".to_vec()));
    storage.invalidate_old_records_at(32).unwrap();
    assert_eq!(read(&storage, "x"), None);
}

#[test]
fn sweep_of_an_empty_store_does_nothing() {
    let mut storage = HashMapStorage::new();
    assert_eq!(storage.invalidate_old_records_at(u64::MAX), Ok(()));
    assert_eq!(read(&storage, "x"), None);
}

#[test]
fn values_are_kept_byte_for_byte() {
    let mut storage = HashMapStorage::new();
    storage.add_record_at("k", "a:b:c – é 😀", 1, 1).unwrap();
    assert_eq!(read(&storage, "k"), Some("a:b:c – é 😀".as_bytes().to_vec()));
    storage.add_record_at("", "empty key", 1, 1).unwrap();
    assert_eq!(read(&storage, ""), Some(b"empty key".to_vec()));
}

#[test]
fn record_at_the_end_of_time_is_never_swept() {
    let mut storage = HashMapStorage::new();
    storage.add_record_at("x", "forever", u64::MAX - 7, 7).unwrap();
    storage.invalidate_old_records_at(u64::MAX).unwrap();
    assert_eq!(read(&storage, "x"), Some(b"forever".to_vec()));
}

#[test]
fn write_by_the_clock_is_readable() {
    let mut storage = HashMapStorage::new();
    assert_eq!(storage.add_record("x", "hello", 3600), Ok(()));
    assert_eq!(read(&storage, "x"), Some(b"hello".to_vec()));
    assert_eq!(storage.invalidate_old_records(), Ok(()));
    assert_eq!(read(&storage, "x"), Some(b"hello".to_vec()));
}

#[test]
fn sweep_by_the_clock_removes_what_expired_long_ago() {
    let mut storage = HashMapStorage::new();
    storage.add_record_at("past", "gone", 1, 1000).unwrap();
    storage.add_record("present", "kept", 3600).unwrap();
    storage.invalidate_old_records().unwrap();
    assert_eq!(read(&storage, "past"), None);
    assert_eq!(read(&storage, "present"), Some(b"kept".to_vec()));
}

#[test]
fn expiry_beyond_the_clock_range_is_refused() {
    let mut storage = HashMapStorage::new();
    storage.add_record_at("x", "before", 10, 10).unwrap();
    assert_eq!(storage.add_record("x", "after", u64::MAX), Err(StorageError::ExpiryOverflow));
    assert_eq!(read(&storage, "x"), Some(b"before".to_vec()));
    assert_eq!(storage.add_record("y", "never", u64::MAX), Err(StorageError::ExpiryOverflow));
    assert_eq!(read(&storage, "y"), None);
}

#[test]
fn sweeps_run_once_a_minute() {
    assert_eq!(reo::SWEEP_INTERVAL_SECONDS, 60);
}
