use chainquest_idle::compression::compress;
use chainquest_idle::message::GameMessage;
use chainquest_idle::network::{
    NetworkEvent, NetworkManager, RateLimit, TransportError, TransportEvent,
};

fn connected(peers: &[u32]) -> NetworkManager {
    let mut nm = NetworkManager::default();
    let events: Vec<TransportEvent> =
        peers.iter().map(|&p| TransportEvent::Connect { peer_id: p }).collect();
    nm.process_events(&events, 0);
    nm
}

#[test]
fn eleventh_send_in_window_is_rate_limited() {
    let mut nm = connected(&[1]);
    for t in 0..10u64 {
        assert!(nm.send_packet(1, b"hello", true, t * 50).is_ok());
    }
    assert_eq!(nm.send_packet(1, b"hello", true, 999).unwrap_err(), TransportError::RateLimited);
    assert_eq!(nm.get_stats().rate_limit_violations, 1);
    let packet = nm.send_packet(1, b"hello", true, 1000).expect("new window");
    assert_eq!(packet.payload, b"hello".to_vec());
    assert_eq!(nm.peer_rate_limits[&1].packets_sent, 1);
    assert_eq!(nm.peer_rate_limits[&1].last_reset, 1000);
}

#[test]
fn refused_send_is_not_counted() {
    let mut rl = RateLimit::new(0, 10);
    rl.max_packets_per_second = 1;
    assert!(rl.try_acquire(10));
    assert!(!rl.try_acquire(20));
    assert_eq!(rl.packets_sent, 1);
    assert!(rl.try_acquire(1010));
    assert_eq!(rl.packets_sent, 1);
}

#[test]
fn send_to_unknown_peer_fails() {
    let mut nm = connected(&[1]);
    assert_eq!(nm.send_packet(2, b"x", false, 0).unwrap_err(), TransportError::PeerNotFound);
    assert!(nm.check_rate_limit(2, 0));
}

#[test]
fn set_rate_limit_only_for_tracked_peer() {
    let mut nm = connected(&[1]);
    nm.set_peer_rate_limit(1, 2);
    nm.set_peer_rate_limit(9, 2);
    assert!(!nm.peer_rate_limits.contains_key(&9));
    assert!(nm.send_packet(1, b"a", true, 0).is_ok());
    assert!(nm.send_packet(1, b"a", true, 0).is_ok());
    assert_eq!(nm.send_packet(1, b"a", true, 0).unwrap_err(), TransportError::RateLimited);
}

#[test]
fn large_payload_is_compressed_and_counted() {
    let mut nm = connected(&[4]);
    let data = vec![b'z'; 500];
    let packet = nm.send_packet(4, &data, true, 0).unwrap();
    assert!(packet.compressed);
    assert_eq!(packet.uncompressed_len, 500);
    assert_eq!(&packet.payload[..2], &[0x1f, 0x8b]);
    nm.record_sent(&packet);
    let stats = nm.get_stats();
    assert_eq!(stats.packets_sent, 1);
    assert_eq!(stats.bytes_sent, packet.payload.len() as u64);
    assert_eq!(stats.last_uncompressed_bytes, 500);
    assert_eq!(stats.last_compressed_bytes, packet.payload.len() as u64);
}

#[test]
fn compression_can_be_switched_off() {
    let mut nm = connected(&[4]);
    nm.compression_enabled = false;
    let data = vec![b'z'; 500];
    let packet = nm.send_packet(4, &data, false, 0).unwrap();
    assert!(!packet.compressed);
    assert_eq!(packet.payload, data);
}

#[test]
fn broadcast_reaches_every_peer_despite_failures() {
    let mut nm = connected(&[1, 2, 3]);
    nm.set_peer_rate_limit(2, 0);
    let mut attempts = nm.broadcast(b"tick", false, 5);
    attempts.sort_by_key(|a| a.0);
    assert_eq!(attempts.len(), 3);
    assert_eq!(attempts[0].0, 1);
    assert!(attempts[0].1.is_ok());
    assert_eq!(attempts[1].0, 2);
    assert_eq!(attempts[1].1.as_ref().unwrap_err(), &TransportError::RateLimited);
    assert_eq!(attempts[2].0, 3);
    assert_eq!(attempts[2].1.as_ref().unwrap().payload, b"tick".to_vec());
    assert_eq!(nm.get_stats().rate_limit_violations, 1);
}

#[test]
fn events_register_and_drop_peers() {
    let mut nm = NetworkManager::default();
    let events = vec![
        TransportEvent::Connect { peer_id: 5 },
        TransportEvent::Connect { peer_id: 6 },
        TransportEvent::Disconnect { peer_id: 5, reason: 0 },
    ];
    let out = nm.process_events(&events, 42);
    assert_eq!(out.len(), 3);
    assert!(matches!(out[0], NetworkEvent::PeerConnected(5)));
    assert!(matches!(out[1], NetworkEvent::PeerConnected(6)));
    assert!(matches!(out[2], NetworkEvent::PeerDisconnected(5)));
    assert!(!nm.peer_rate_limits.contains_key(&5));
    assert_eq!(nm.peer_rate_limits[&6], RateLimit::new(42, 10));
    assert_eq!(nm.peer_rate_limits[&6].max_packets_per_second, 10);
}

#[test]
fn malformed_packet_is_dropped_without_side_effects() {
    let mut nm = connected(&[1, 2]);
    let good = GameMessage::Chat { player_id: 2, message: "gg".to_string() };
    let events = vec![
        TransportEvent::Receive { peer_id: 1, data: vec![0xee, 1, 2], channel: 0 },
        TransportEvent::Receive { peer_id: 2, data: good.to_bytes(), channel: 1 },
        TransportEvent::Receive { peer_id: 1, data: vec![0x1f, 0x8b, 9, 9, 9, 9], channel: 0 },
        TransportEvent::Receive { peer_id: 2, data: GameMessage::Ping.to_bytes(), channel: 0 },
    ];
    let out = nm.process_events(&events, 10);
    assert_eq!(out.len(), 2);
    match &out[0] {
        NetworkEvent::DataReceived { peer_id, message } => {
            assert_eq!(*peer_id, 2);
            assert_eq!(message, &good);
        }
        other => panic!("unexpected event {:?}", other),
    }
    assert!(matches!(&out[1], NetworkEvent::DataReceived { peer_id: 2, message: GameMessage::Ping }));
    assert!(nm.peer_rate_limits.contains_key(&1));
    assert_eq!(nm.get_stats().packets_received, 4);
    assert_eq!(nm.get_stats().bytes_received, (3 + 15 + 6 + 1) as u64);
}

#[test]
fn compressed_message_is_decoded_on_receipt() {
    let mut nm = connected(&[3]);
    let long = GameMessage::Chat { player_id: 3, message: "a".repeat(300) };
    let wire = compress(&long.to_bytes());
    assert_eq!(wire[0], 0x1f);
    let out = nm.process_events(&vec![TransportEvent::Receive { peer_id: 3, data: wire, channel: 0 }], 0);
    assert_eq!(out.len(), 1);
    match &out[0] {
        NetworkEvent::DataReceived { message, .. } => assert_eq!(message, &long),
        other => panic!("unexpected event {:?}", other),
    }
}

#[test]
fn peer_ids_lists_each_connected_peer() {
    let nm = connected(&[8, 3, 5]);
    let mut ids = nm.peer_ids();
    ids.sort();
    assert_eq!(ids, vec![3, 5, 8]);
}

#[test]
fn default_budget_is_configurable() {
    let mut nm = NetworkManager::default();
    assert_eq!(nm.default_max_packets_per_second, 10);
    nm.default_max_packets_per_second = 2;
    nm.process_events(&vec![TransportEvent::Connect { peer_id: 1 }], 100);
    assert_eq!(nm.peer_rate_limits[&1], RateLimit::new(100, 2));
    assert!(nm.send_packet(1, b"a", true, 100).is_ok());
    assert!(nm.send_packet(1, b"a", true, 600).is_ok());
    assert_eq!(nm.send_packet(1, b"a", true, 1099).unwrap_err(), TransportError::RateLimited);
    assert!(nm.send_packet(1, b"a", true, 1100).is_ok());
}
