use train_db::mesh::{discovery_step, DiscoveryStep, MeshError, MeshState, PeerTable, TransportHealth, TransportType};

#[test]
fn table_insert_replaces_and_counts() {
    let mut t = PeerTable::new();
    t.insert(vec![1], TransportType::Wifi);
    t.insert(vec![2], TransportType::Bluetooth);
    t.insert(vec![3], TransportType::Wifi);
    t.insert(vec![1], TransportType::Bluetooth);
    assert_eq!(t.len(), 3);
    assert_eq!(t.count(TransportType::Wifi), 1);
    assert_eq!(t.count(TransportType::Bluetooth), 2);
    assert_eq!(t.count(TransportType::Wifi) + t.count(TransportType::Bluetooth), t.len());
    assert_eq!(t.transport_for(&vec![1]), Some(TransportType::Bluetooth));
    assert_eq!(t.transport_for(&vec![3]), Some(TransportType::Wifi));
    assert_eq!(t.transport_for(&vec![9]), None);
}

#[test]
fn health_starts_with_wifi_up() {
    let h = TransportHealth::new(false);
    assert!(h.is_healthy(TransportType::Wifi));
    assert!(!h.is_healthy(TransportType::Bluetooth));
    let mut h = TransportHealth::new(true);
    h.set(TransportType::Wifi, false);
    assert!(!h.wifi && h.bluetooth);
}

#[test]
fn discovery_steps() {
    assert_eq!(discovery_step(TransportType::Wifi, false, 0), DiscoveryStep::StillDown);
    assert_eq!(discovery_step(TransportType::Wifi, false, 3), DiscoveryStep::Recover(3));
    assert_eq!(discovery_step(TransportType::Bluetooth, false, 2), DiscoveryStep::Recover(2));
    assert_eq!(discovery_step(TransportType::Wifi, true, 2), DiscoveryStep::RecordPeers(2));
    assert_eq!(discovery_step(TransportType::Wifi, true, 0), DiscoveryStep::MarkDown);
    assert_eq!(discovery_step(TransportType::Bluetooth, true, 0), DiscoveryStep::NothingFound);
    assert_eq!(discovery_step(TransportType::Bluetooth, true, 1), DiscoveryStep::RecordPeers(1));
}

#[test]
fn start_runs_once() {
    let mut m = MeshState::new(true);
    assert!(m.start(Some(false)));
    assert!(m.is_running);
    assert!(!m.health.bluetooth);
    assert!(!m.start(Some(true)));
    assert!(!m.health.bluetooth);
}

#[test]
fn wifi_round_without_peers_marks_wifi_down() {
    let mut m = MeshState::new(false);
    assert_eq!(m.apply_discovery(TransportType::Wifi, vec![]), DiscoveryStep::MarkDown);
    assert!(!m.health.wifi);
    assert_eq!(m.apply_discovery(TransportType::Wifi, vec![]), DiscoveryStep::StillDown);
    assert!(!m.health.wifi);
    assert_eq!(m.peers.len(), 0);
}

#[test]
fn wifi_recovers_when_peers_come_back() {
    let mut m = MeshState::new(false);
    assert_eq!(m.apply_discovery(TransportType::Wifi, vec![vec![9]]), DiscoveryStep::RecordPeers(1));
    assert_eq!(m.apply_discovery(TransportType::Wifi, vec![]), DiscoveryStep::MarkDown);
    assert!(!m.status().wifi_healthy);
    assert_eq!(m.apply_discovery(TransportType::Wifi, vec![vec![1], vec![2]]), DiscoveryStep::Recover(2));
    let st = m.status();
    assert!(st.wifi_healthy);
    assert_eq!(st.total_peers, 3);
    assert_eq!(m.route_message(&vec![1]), Ok(TransportType::Wifi));
    // The peer found before the outage is still known.
    assert_eq!(m.route_message(&vec![9]), Ok(TransportType::Wifi));
}

#[test]
fn discovered_peers_are_counted_and_routed() {
    let mut m = MeshState::new(true);
    assert_eq!(m.apply_discovery(TransportType::Wifi, vec![vec![1], vec![2]]), DiscoveryStep::RecordPeers(2));
    assert_eq!(m.apply_discovery(TransportType::Bluetooth, vec![vec![3]]), DiscoveryStep::RecordPeers(1));
    let st = m.status();
    assert_eq!((st.total_peers, st.wifi_peers, st.bluetooth_peers), (3, 2, 1));
    assert!(st.wifi_healthy && st.bluetooth_healthy);
    assert_eq!(m.route_message(&vec![3]), Ok(TransportType::Bluetooth));
    assert_eq!(m.route_message(&vec![1]), Ok(TransportType::Wifi));
    assert_eq!(m.route_message(&vec![7]), Err(MeshError::PeerNotFound));
}

#[test]
fn bluetooth_round_without_peers_changes_nothing() {
    let mut m = MeshState::new(true);
    assert_eq!(m.apply_discovery(TransportType::Bluetooth, vec![]), DiscoveryStep::NothingFound);
    assert!(m.health.bluetooth);
}
