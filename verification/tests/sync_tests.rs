use std::collections::BTreeMap;
use std::sync::Mutex;
use train_db::storage::{DatabaseInfo, Storage, StorageError};
use train_db::sync::{
    apply_sync_message, broadcast, decode_sync_message, delete_key_outcome, encode_sync_message,
    get_key_outcome, handle_command, list_keys_outcome, set_key_outcome, sync_operation_from_fields,
    NetworkCommand, NodeAction, StorageOperation, SyncOperation, SyncOutcome,
};

struct MemStore(Mutex<BTreeMap<String, String>>);

impl MemStore {
    fn new() -> Self {
        MemStore(Mutex::new(BTreeMap::new()))
    }
}

impl Storage for MemStore {
    fn get(&self, key: &str) -> Result<Option<String>, StorageError> {
        Ok(self.0.lock().unwrap().get(key).cloned())
    }
    fn set(&self, key: &str, value: &str) -> Result<(), StorageError> {
        self.0.lock().unwrap().insert(key.to_string(), value.to_string());
        Ok(())
    }
    fn delete(&self, key: &str) -> Result<(), StorageError> {
        self.0.lock().unwrap().remove(key);
        Ok(())
    }
    fn list_keys(&self) -> Result<Vec<String>, StorageError> {
        Ok(self.0.lock().unwrap().keys().cloned().collect())
    }
    fn info(&self) -> Result<DatabaseInfo, StorageError> {
        let m = self.0.lock().unwrap();
        Ok(DatabaseInfo { key_count: m.len(), size_bytes: m.iter().map(|(k, v)| (k.len() + v.len()) as u64).sum() })
    }
    fn key_exists(&self, key: &str) -> Result<bool, StorageError> {
        Ok(self.0.lock().unwrap().contains_key(key))
    }
}

struct BrokenStore;

impl Storage for BrokenStore {
    fn get(&self, _key: &str) -> Result<Option<String>, StorageError> {
        Err(StorageError::Backend("io error".to_string()))
    }
    fn set(&self, _key: &str, _value: &str) -> Result<(), StorageError> {
        Err(StorageError::Backend("io error".to_string()))
    }
    fn delete(&self, _key: &str) -> Result<(), StorageError> {
        Err(StorageError::Backend("io error".to_string()))
    }
    fn list_keys(&self) -> Result<Vec<String>, StorageError> {
        Err(StorageError::Backend("io error".to_string()))
    }
    fn info(&self) -> Result<DatabaseInfo, StorageError> {
        Err(StorageError::Backend("io error".to_string()))
    }
    fn key_exists(&self, _key: &str) -> Result<bool, StorageError> {
        Err(StorageError::Backend("io error".to_string()))
    }
}

fn is_store(op: &SyncOperation, k: &str, v: &str) -> bool {
    matches!(op, SyncOperation::Store { key, value } if key == k && value == v)
}

fn json_of(bytes: &[u8]) -> serde_json::Value {
    serde_json::from_slice(bytes).unwrap()
}

#[test]
fn set_command_writes_and_broadcasts() {
    let s = MemStore::new();
    let a = handle_command(&s, NetworkCommand::SetKey { key: "k".into(), value: "v".into() }, 1700000000);
    match a {
        NodeAction::Broadcast { ref change, message: ref m } => {
            assert!(is_store(change, "k", "v"));
            let doc = json_of(m);
            assert_eq!(doc["operation"], "set");
            assert_eq!(doc["key"], "k");
            assert_eq!(doc["value"], "v");
            assert_eq!(doc["timestamp"], 1700000000);
        },
        _ => panic!("expected a broadcast with a message"),
    }
    assert_eq!(s.get("k").unwrap(), Some("v".to_string()));
}

#[test]
fn get_command_reports_value_or_absence() {
    let s = MemStore::new();
    s.set("a", "1").unwrap();
    let a = handle_command(&s, NetworkCommand::GetKey { key: "a".into() }, 0);
    assert!(matches!(a, NodeAction::ReportValue { ref key, value: Some(ref v) } if key == "a" && v == "1"));
    let a = handle_command(&s, NetworkCommand::GetKey { key: "b".into() }, 0);
    assert!(matches!(a, NodeAction::ReportValue { ref key, value: None } if key == "b"));
}

#[test]
fn delete_command_removes_and_broadcasts() {
    let s = MemStore::new();
    s.set("a", "1").unwrap();
    let a = handle_command(&s, NetworkCommand::DeleteKey { key: "a".into() }, 42);
    match a {
        NodeAction::Broadcast { change: SyncOperation::Delete { ref key }, message: ref m } => {
            assert_eq!(key, "a");
            let doc = json_of(m);
            assert_eq!(doc["operation"], "delete");
            assert_eq!(doc["key"], "a");
            assert!(doc.get("value").is_none());
            assert_eq!(doc["timestamp"], 42);
        },
        _ => panic!("expected a broadcast of the removal"),
    }
    assert_eq!(s.get("a").unwrap(), None);
}

#[test]
fn list_and_broadcast_commands() {
    let s = MemStore::new();
    s.set("x", "1").unwrap();
    s.set("y", "2").unwrap();
    let a = handle_command(&s, NetworkCommand::ListKeys, 0);
    assert!(matches!(a, NodeAction::ReportKeys(ref k) if *k == vec!["x".to_string(), "y".to_string()]));
    let a = handle_command(&s, NetworkCommand::BroadcastMessage { message: vec![1, 2, 3] }, 0);
    assert!(matches!(a, NodeAction::Publish(ref m) if *m == vec![1, 2, 3]));
}

#[test]
fn failing_store_reports_instead_of_broadcasting() {
    let s = BrokenStore;
    let cases = [
        (NetworkCommand::SetKey { key: "k".into(), value: "v".into() }, StorageOperation::Write),
        (NetworkCommand::GetKey { key: "k".into() }, StorageOperation::Read),
        (NetworkCommand::DeleteKey { key: "k".into() }, StorageOperation::Delete),
        (NetworkCommand::ListKeys, StorageOperation::List),
    ];
    for (cmd, op) in cases {
        let a = handle_command(&s, cmd, 0);
        assert!(matches!(a, NodeAction::StorageFailed { operation, ref message } if operation == op && message == "io error"));
    }
}

#[test]
fn outcome_functions_map_each_result() {
    let e = || StorageError::Backend("boom".to_string());
    assert!(matches!(set_key_outcome("k".into(), "v".into(), 5, Ok(())), NodeAction::Broadcast { ref change, message: _ } if is_store(change, "k", "v")));
    assert!(matches!(set_key_outcome("k".into(), "v".into(), 5, Err(e())), NodeAction::StorageFailed { operation: StorageOperation::Write, ref message } if message == "boom"));
    assert!(matches!(get_key_outcome("k".into(), Err(e())), NodeAction::StorageFailed { operation: StorageOperation::Read, .. }));
    assert!(matches!(delete_key_outcome("k".into(), 5, Ok(())), NodeAction::Broadcast { change: SyncOperation::Delete { .. }, message: _ }));
    assert!(matches!(delete_key_outcome("k".into(), 5, Err(e())), NodeAction::StorageFailed { operation: StorageOperation::Delete, .. }));
    assert!(matches!(list_keys_outcome(Err(e())), NodeAction::StorageFailed { operation: StorageOperation::List, .. }));
}

#[test]
fn decode_set_and_delete_messages() {
    let set = br#"{"operation":"set","key":"k1","value":"v1","timestamp":1700000000}"#;
    assert!(matches!(decode_sync_message(set), Some(ref op) if is_store(op, "k1", "v1")));
    let del = br#"{"operation":"delete","key":"k1","timestamp":1}"#;
    assert!(matches!(decode_sync_message(del), Some(SyncOperation::Delete { ref key }) if key == "k1"));
}

#[test]
fn decode_rejects_malformed_messages() {
    assert!(decode_sync_message(b"not json").is_none());
    assert!(decode_sync_message(br#"{"operation":"set","key":"k"}"#).is_none());
    assert!(decode_sync_message(br#"{"operation":"set","key":"k","value":5}"#).is_none());
    assert!(decode_sync_message(br#"{"operation":"rename","key":"k"}"#).is_none());
    assert!(decode_sync_message(br#"{"operation":7,"key":"k"}"#).is_none());
    assert!(decode_sync_message(br#"["operation","set"]"#).is_none());
    assert!(decode_sync_message(br#"{"key":"k","value":"v"}"#).is_none());
}

#[test]
fn fields_describe_operation() {
    assert!(matches!(sync_operation_from_fields(Some("set".into()), Some("a".into()), Some("b".into())), Some(ref op) if is_store(op, "a", "b")));
    assert!(matches!(sync_operation_from_fields(Some("delete".into()), Some("a".into()), None), Some(SyncOperation::Delete { .. })));
    assert!(sync_operation_from_fields(Some("delete".into()), None, Some("b".into())).is_none());
    assert!(sync_operation_from_fields(None, Some("a".into()), Some("b".into())).is_none());
}

#[test]
fn applying_peer_messages_changes_the_store() {
    let s = MemStore::new();
    let r = apply_sync_message(&s, br#"{"operation":"set","key":"train","value":"on time"}"#);
    assert!(matches!(r, SyncOutcome::Applied(ref op) if is_store(op, "train", "on time")));
    assert_eq!(s.get("train").unwrap(), Some("on time".to_string()));
    let r = apply_sync_message(&s, br#"{"operation":"delete","key":"train"}"#);
    assert!(matches!(r, SyncOutcome::Applied(SyncOperation::Delete { .. })));
    assert_eq!(s.get("train").unwrap(), None);
    assert!(matches!(apply_sync_message(&s, b"{}"), SyncOutcome::Ignored));
    let r = apply_sync_message(&BrokenStore, br#"{"operation":"delete","key":"x"}"#);
    assert!(matches!(r, SyncOutcome::Failed(SyncOperation::Delete { .. }, ref m) if m == "io error"));
}

#[test]
fn broadcast_round_trips_through_json() {
    // What a node publishes for a change is read back by its peers as that change.
    let op = SyncOperation::Store { key: "k \"q\"".into(), value: "v w\n".into() };
    let bytes = encode_sync_message(&op, 12345);
    assert!(matches!(decode_sync_message(&bytes), Some(ref back) if is_store(back, "k \"q\"", "v w\n")));
    assert_eq!(json_of(&bytes)["timestamp"], 12345);
    let del = SyncOperation::Delete { key: "gone".into() };
    let bytes = encode_sync_message(&del, -3);
    assert!(matches!(decode_sync_message(&bytes), Some(SyncOperation::Delete { ref key }) if key == "gone"));
    assert_eq!(del.operation_name(), "delete");
    assert_eq!(del.key(), "gone");
    assert_eq!(del.value(), None);
}

#[test]
fn published_change_is_applied_by_a_peer() {
    let a = MemStore::new();
    let b = MemStore::new();
    let action = handle_command(&a, NetworkCommand::SetKey { key: "train".into(), value: "late".into() }, 7);
    let data = match action {
        NodeAction::Broadcast { message, .. } => message,
        _ => panic!("expected a broadcast"),
    };
    assert!(matches!(apply_sync_message(&b, &data), SyncOutcome::Applied(_)));
    assert_eq!(b.get("train").unwrap(), a.get("train").unwrap());
    let action = handle_command(&a, NetworkCommand::DeleteKey { key: "train".into() }, 8);
    let data = match action {
        NodeAction::Broadcast { message, .. } => message,
        _ => panic!("expected a broadcast"),
    };
    assert!(matches!(apply_sync_message(&b, &data), SyncOutcome::Applied(SyncOperation::Delete { .. })));
    assert_eq!(b.get("train").unwrap(), None);
}

#[test]
fn broadcast_action_carries_the_encoded_change() {
    let action = broadcast(SyncOperation::Delete { key: "x".into() }, 99);
    match action {
        NodeAction::Broadcast { change: SyncOperation::Delete { ref key }, message: ref m } => {
            assert_eq!(key, "x");
            assert_eq!(json_of(m)["operation"], "delete");
            assert_eq!(json_of(m)["timestamp"], 99);
        },
        _ => panic!("expected a broadcast"),
    }
}
