use train_db::storage::{database_info, decode_value, utf8_keys, DatabaseInfo, StorageError};

#[test]
fn decode_value_missing_key_reads_none() {
    assert!(matches!(decode_value(None), Ok(None)));
}

#[test]
fn decode_value_reads_stored_string() {
    let v = decode_value(Some("value1".as_bytes().to_vec())).unwrap();
    assert_eq!(v, Some("value1".to_string()));
}

#[test]
fn decode_value_reads_multibyte_string() {
    let v = decode_value(Some("héllo, 世界".as_bytes().to_vec())).unwrap();
    assert_eq!(v, Some("héllo, 世界".to_string()));
}

#[test]
fn decode_value_rejects_invalid_utf8() {
    match decode_value(Some(vec![0xff, 0xfe])) {
        Err(StorageError::InvalidUtf8(m)) => assert!(!m.is_empty()),
        other => panic!("unexpected: {:?}", other),
    }
}

#[test]
fn decode_value_rejects_surrogate_encoding() {
    // An encoded UTF-16 surrogate is not valid UTF-8.
    assert!(matches!(decode_value(Some(vec![0xed, 0xa0, 0x80])), Err(StorageError::InvalidUtf8(_))));
}

#[test]
fn utf8_keys_keeps_valid_keys_in_order() {
    let raw = vec![b"key2".to_vec(), vec![0xc3, 0x28], b"key3".to_vec(), Vec::new()];
    assert_eq!(utf8_keys(raw), vec!["key2".to_string(), "key3".to_string(), String::new()]);
}

#[test]
fn utf8_keys_of_nothing_is_empty() {
    assert!(utf8_keys(Vec::new()).is_empty());
}

#[test]
fn database_info_counts_entries_and_bytes() {
    let info = database_info(&vec![(4, 6), (4, 6), (0, 0), (10, 1)]);
    assert_eq!(info, DatabaseInfo { key_count: 4, size_bytes: 31 });
}

#[test]
fn database_info_of_empty_store() {
    assert_eq!(database_info(&Vec::new()), DatabaseInfo { key_count: 0, size_bytes: 0 });
}

#[test]
fn storage_error_message_is_kept() {
    assert_eq!(StorageError::Backend("disk full".to_string()).message(), "disk full");
    assert_eq!(StorageError::InvalidUtf8("bad byte".to_string()).message(), "bad byte");
}
