use train_db::bluetooth::{
    accepts_device, device_key_bytes, device_peer_id, discover_peer_ids, is_peer_device_name, should_connect,
    BluetoothConnectionManager, BluetoothMessageHandler, DiscoveredDevice,
};
use train_db::text::{contains, remove_dashes};

fn expected_peer_id(key: &[u8]) -> Option<Vec<u8>> {
    libp2p::identity::ed25519::PublicKey::try_from_bytes(key)
        .ok()
        .map(|k| libp2p::PeerId::from_public_key(&libp2p::identity::PublicKey::from(k)).to_bytes())
}

#[test]
fn contains_matches_std() {
    let cases = [("TrainDB-node", "TrainDB"), ("abc", ""), ("", "a"), ("aaab", "aab"), ("héllo", "ll"), ("ab", "abc")];
    for (s, p) in cases.iter() {
        assert_eq!(contains(s, p), s.contains(p), "{:?} {:?}", s, p);
    }
}

#[test]
fn peer_device_names() {
    assert!(is_peer_device_name("TrainDB node 3"));
    assert!(is_peer_device_name("My MacBook Pro"));
    assert!(is_peer_device_name("amengade_in-mac"));
    assert!(!is_peer_device_name("Pixel 7"));
    assert!(!is_peer_device_name("traindb"));
    assert!(accepts_device(&None));
    assert!(accepts_device(&Some("TrainDB".into())));
    assert!(!accepts_device(&Some("Headphones".into())));
}

#[test]
fn connect_only_to_traindb_names() {
    assert!(should_connect(&Some("xx TrainDB xx".into())));
    assert!(!should_connect(&Some("MacBook".into())));
    assert!(!should_connect(&None));
}

#[test]
fn dashes_are_removed() {
    assert_eq!(remove_dashes("a1-b2--c3-"), "a1b2c3");
    assert_eq!(remove_dashes(""), "");
}

#[test]
fn device_key_from_hex_id() {
    let k = device_key_bytes("0011-22AA-ff");
    let mut expected = vec![0u8; 32];
    expected[..5].copy_from_slice(&[0x00, 0x11, 0x22, 0xaa, 0xff]);
    assert_eq!(k, expected);
}

#[test]
fn device_key_keeps_first_32_bytes() {
    let id: String = (0..40).map(|i| format!("{:02x}", i)).collect();
    let k = device_key_bytes(&id);
    let expected: Vec<u8> = (0..32).collect();
    assert_eq!(k, expected);
}

#[test]
fn device_key_of_non_hex_id_is_zero() {
    assert_eq!(device_key_bytes("hci0/dev_AA_BB"), vec![0u8; 32]);
    assert_eq!(device_key_bytes("abc"), vec![0u8; 32]);
}

#[test]
fn device_peer_id_matches_libp2p() {
    for id in ["", "0011-2233", "d75a980182b10ab7d54bfed3c964073a0ee172f3daa62325af021a68f707511a"] {
        let key = device_key_bytes(id);
        assert_eq!(device_peer_id(id), expected_peer_id(&key), "id {:?}", id);
    }
}

#[test]
fn discovery_keeps_accepted_devices_with_valid_keys() {
    let good = "d75a980182b10ab7d54bfed3c964073a0ee172f3daa62325af021a68f707511a";
    let devices = vec![
        DiscoveredDevice { device_id: good.into(), name: Some("TrainDB 1".into()) },
        DiscoveredDevice { device_id: good.into(), name: Some("Speaker".into()) },
        DiscoveredDevice { device_id: good.into(), name: None },
    ];
    let ids = discover_peer_ids(&devices);
    let expected = expected_peer_id(&device_key_bytes(good)).unwrap();
    assert_eq!(ids, vec![expected.clone(), expected]);
}

#[test]
fn connections_connect_and_disconnect() {
    let mut m = BluetoothConnectionManager::new();
    m.connect_to_peer("AA:BB".into());
    m.connect_to_peer("AA:BB".into());
    m.connect_to_peer("CC:DD".into());
    m.disconnect_from_peer("AA:BB".into());
    m.disconnect_from_peer("EE:FF".into());
    assert!(m.get_connections().is_empty());
}

#[test]
fn message_queue_hands_back_newest_first() {
    let mut h = BluetoothMessageHandler::new();
    h.send_message("peer-a".into(), vec![1, 2], 10);
    h.send_message("peer-b".into(), vec![3], 20);
    let got = h.handle_incoming_messages();
    assert_eq!(got.len(), 2);
    assert_eq!(got[0].to, "peer-b");
    assert_eq!(got[0].data, vec![3]);
    assert_eq!(got[0].timestamp_millis, 20);
    assert_eq!(got[1].to, "peer-a");
    assert_eq!(got[1].from, "local");
    assert!(h.handle_incoming_messages().is_empty());
}

#[test]
fn peer_id_is_the_inlined_key() {
    // The RFC 8032 test key is a valid point: its peer id is the identity
    // multihash of the key's protobuf encoding.
    let id = "d75a980182b10ab7d54bfed3c964073a0ee172f3daa62325af021a68f707511a";
    let key = device_key_bytes(id);
    let mut expected = vec![0x00u8, 0x24, 0x08, 0x01, 0x12, 0x20];
    expected.extend_from_slice(&key);
    assert_eq!(device_peer_id(id), Some(expected));
}
