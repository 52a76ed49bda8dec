use std::collections::BTreeMap;
use std::sync::Mutex;
use train_db::dashboard::{database_keys_from, get_database_keys, Dashboard, PeerInfo, MAX_ACTIVITIES};
use train_db::storage::{DatabaseInfo, Storage, StorageError};

struct Store(Mutex<BTreeMap<String, Result<String, ()>>>);

impl Storage for Store {
    fn get(&self, key: &str) -> Result<Option<String>, StorageError> {
        match self.0.lock().unwrap().get(key) {
            None => Ok(None),
            Some(Ok(v)) => Ok(Some(v.clone())),
            Some(Err(())) => Err(StorageError::InvalidUtf8("bad value".into())),
        }
    }
    fn set(&self, key: &str, value: &str) -> Result<(), StorageError> {
        self.0.lock().unwrap().insert(key.into(), Ok(value.into()));
        Ok(())
    }
    fn delete(&self, key: &str) -> Result<(), StorageError> {
        self.0.lock().unwrap().remove(key);
        Ok(())
    }
    fn list_keys(&self) -> Result<Vec<String>, StorageError> {
        Ok(self.0.lock().unwrap().keys().cloned().collect())
    }
    fn info(&self) -> Result<DatabaseInfo, StorageError> {
        Ok(DatabaseInfo { key_count: self.0.lock().unwrap().len(), size_bytes: 0 })
    }
    fn key_exists(&self, key: &str) -> Result<bool, StorageError> {
        Ok(self.0.lock().unwrap().contains_key(key))
    }
}

fn store() -> Store {
    Store(Mutex::new(BTreeMap::new()))
}

fn peer(id: &str, transport: &str) -> PeerInfo {
    PeerInfo { peer_id: id.into(), transport: transport.into(), last_seen: "now".into(), is_connected: true }
}

fn data(d: &Dashboard, s: &Store) -> train_db::dashboard::DashboardData {
    d.get_dashboard_data(s, "me".into(), vec!["/ip4/1.2.3.4/tcp/1".into()], 7, false, "t0".into()).unwrap()
}

#[test]
fn new_dashboard_is_empty() {
    let d = Dashboard::new();
    let s = store();
    let dd = data(&d, &s);
    assert!(dd.peers.is_empty());
    assert!(dd.recent_activity.is_empty());
    assert_eq!(dd.node_stats.messages_sent, 0);
    assert_eq!(dd.node_stats.messages_received, 0);
    assert_eq!(dd.node_stats.total_keys, 0);
    assert_eq!(dd.node_stats.peer_id, "me");
    assert_eq!(dd.node_stats.uptime_seconds, 7);
    assert_eq!(dd.node_stats.last_activity, "t0");
}

#[test]
fn counters_count_messages() {
    let mut d = Dashboard::new();
    d.increment_messages_sent();
    d.increment_messages_sent();
    d.increment_messages_received();
    let st = d.node_stats(3, "p".into(), vec![], 0, true, "x".into());
    assert_eq!(st.messages_sent, 2);
    assert_eq!(st.messages_received, 1);
    assert_eq!(st.total_keys, 3);
    assert!(st.bluetooth_enabled);
}

#[test]
fn activity_log_keeps_newest_fifty() {
    let mut d = Dashboard::new();
    for i in 0..(MAX_ACTIVITIES + 7) {
        d.add_activity(format!("event {}", i));
    }
    let dd = data(&d, &store());
    assert_eq!(dd.recent_activity.len(), MAX_ACTIVITIES);
    assert_eq!(dd.recent_activity[0], "event 7");
    assert_eq!(dd.recent_activity[MAX_ACTIVITIES - 1], format!("event {}", MAX_ACTIVITIES + 6));
}

#[test]
fn activity_log_below_capacity_keeps_all() {
    let mut d = Dashboard::new();
    d.add_activity("a".into());
    d.add_activity("b".into());
    assert_eq!(data(&d, &store()).recent_activity, vec!["a".to_string(), "b".to_string()]);
}

#[test]
fn add_peer_replaces_same_id() {
    let mut d = Dashboard::new();
    d.add_peer(peer("p1", "wifi"));
    d.add_peer(peer("p2", "bluetooth"));
    d.add_peer(peer("p1", "bluetooth"));
    let dd = data(&d, &store());
    let ids: Vec<&str> = dd.peers.iter().map(|p| p.peer_id.as_str()).collect();
    assert_eq!(ids, vec!["p2", "p1"]);
    assert_eq!(dd.peers[1].transport, "bluetooth");
    assert_eq!(dd.node_stats.connected_peers, vec!["p2".to_string(), "p1".to_string()]);
}

#[test]
fn remove_peer_after_add_restores_list() {
    let mut d = Dashboard::new();
    d.add_peer(peer("p1", "wifi"));
    d.add_peer(peer("p2", "wifi"));
    d.remove_peer("p2");
    let ids: Vec<String> = data(&d, &store()).peers.into_iter().map(|p| p.peer_id).collect();
    assert_eq!(ids, vec!["p1".to_string()]);
    d.remove_peer("absent");
    assert_eq!(data(&d, &store()).peers.len(), 1);
}

#[test]
fn network_state_update_keeps_peers() {
    let mut d = Dashboard::new();
    d.add_peer(peer("p1", "wifi"));
    d.update_network_state("node".into(), vec!["a".into()]);
    assert_eq!(data(&d, &store()).peers.len(), 1);
}

#[test]
fn database_keys_list_values_and_skip_failed_reads() {
    let s = store();
    s.set("a", "1").unwrap();
    s.set("b", "2").unwrap();
    s.0.lock().unwrap().insert("c".into(), Err(()));
    let keys = get_database_keys(&s).unwrap();
    assert_eq!(keys.total_count, 2);
    assert_eq!(keys.keys[0].key, "a");
    assert_eq!(keys.keys[0].value, Some("1".to_string()));
    assert_eq!(keys.keys[1].key, "b");
}

#[test]
fn database_keys_keep_keys_without_value() {
    let r = database_keys_from(
        vec!["x".into(), "y".into(), "z".into()],
        vec![Ok(None), Err(StorageError::Backend("e".into())), Ok(Some("3".into()))],
    );
    assert_eq!(r.total_count, 2);
    assert_eq!(r.keys[0].key, "x");
    assert_eq!(r.keys[0].value, None);
    assert_eq!(r.keys[1].value, Some("3".to_string()));
}

#[test]
fn total_keys_counts_stored_keys() {
    let s = store();
    s.set("a", "1").unwrap();
    s.set("b", "2").unwrap();
    let d = Dashboard::new();
    assert_eq!(data(&d, &s).node_stats.total_keys, 2);
}
