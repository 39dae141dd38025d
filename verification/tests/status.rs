use joycon_rumble_bridge::osc::{OscArgument, OscPacket};
use joycon_rumble_bridge::status::{IpKey, PeerAddress, StatusRegistry};

fn peer(ip: u32, port: u16) -> PeerAddress {
    PeerAddress {
        ip: IpKey::V4(ip),
        port,
        flowinfo: 0,
        scope_id: 0,
    }
}

fn registration(port: i32) -> OscPacket {
    OscPacket {
        address: "/avatar/parameters/joycon/status/port".into(),
        arguments: vec![OscArgument::Int(port)],
    }
}

#[test]
fn registers_ports_per_ip_and_rejects_invalid_ones() {
    let mut registry = StatusRegistry::new();
    assert!(registry.register(&registration(9001), peer(1, 5000)));
    assert!(!registry.register(&registration(9001), peer(1, 6000)));
    assert!(registry.register(&registration(9002), peer(1, 5000)));
    assert!(!registry.register(&registration(0), peer(1, 5000)));
    assert!(!registry.register(&registration(70000), peer(1, 5000)));
    let float = OscPacket {
        address: "/x".into(),
        arguments: vec![OscArgument::Float(1)],
    };
    assert!(!registry.register(&float, peer(1, 5000)));
    assert_eq!(
        registry.targets_for(peer(1, 7777)),
        Some(vec![peer(1, 9001), peer(1, 9002)])
    );
    assert_eq!(registry.targets_for(peer(2, 5000)), None);
}

#[test]
fn unregistered_heartbeat_senders_are_reported_once_until_they_register() {
    let mut registry = StatusRegistry::new();
    assert!(registry.note_unregistered(peer(3, 4000)));
    assert!(!registry.note_unregistered(peer(3, 4000)));
    assert!(registry.register(&registration(9000), peer(3, 4000)));
    assert!(registry.note_unregistered(peer(3, 4000)));
}

#[test]
fn failed_targets_are_dropped_and_reset_clears_all() {
    let mut registry = StatusRegistry::new();
    registry.register(&registration(9001), peer(1, 1));
    registry.register(&registration(9002), peer(1, 1));
    registry.remove_targets(&vec![peer(1, 9001)]);
    assert_eq!(registry.targets_for(peer(1, 1)), Some(vec![peer(1, 9002)]));
    assert_eq!(registry.reset(), 1);
    assert_eq!(registry.targets_for(peer(1, 1)), None);
}
