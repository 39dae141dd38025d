use joycon_rumble_bridge::osc::{encode_int_message, OscArgument, OscPacket};
use joycon_rumble_bridge::runtime::{Acknowledgement, OscRuntime};
use joycon_rumble_bridge::signal::{HapticEvent, Target};
use joycon_rumble_bridge::status::{IpKey, PeerAddress};
use joycon_rumble_bridge::transport::ReceivedPacket;

fn peer(ip: u32, port: u16) -> PeerAddress {
    PeerAddress {
        ip: IpKey::V4(ip),
        port,
        flowinfo: 0,
        scope_id: 0,
    }
}

fn message(address: &str, argument: OscArgument) -> OscPacket {
    OscPacket {
        address: address.into(),
        arguments: vec![argument],
    }
}

fn runtime() -> OscRuntime {
    OscRuntime::new(
        "joycon",
        2_000_000_000,
        vec![("left".into(), Target::Left), ("right".into(), Target::Right)],
    )
}

#[test]
fn builds_the_addresses_of_a_namespace() {
    let runtime = runtime();
    assert_eq!(runtime.heartbeat_address(), "/avatar/parameters/joycon/heartbeat");
    assert_eq!(runtime.status_port_address(), "/avatar/parameters/joycon/status/port");
    assert_eq!(
        runtime.status_heartbeat_address(),
        "/avatar/parameters/joycon/status/heartbeat"
    );
    assert!(!runtime.router().heartbeat_valid(0));
}

#[test]
fn heartbeat_in_the_same_batch_as_its_registration_is_acknowledged() {
    let mut runtime = runtime();
    let sender = peer(0x7f00_0001, 50000);
    let batch = vec![
        ReceivedPacket {
            packet: message("/avatar/parameters/joycon/heartbeat", OscArgument::Int(7)),
            peer: sender,
        },
        ReceivedPacket {
            packet: message("/avatar/parameters/joycon/status/port", OscArgument::Int(9100)),
            peer: sender,
        },
    ];
    let added = runtime.register_batch(&batch);
    assert_eq!(added, vec![(sender, peer(0x7f00_0001, 9100))]);

    let (event, ack) = runtime.handle_packet(&batch[0].packet, sender, 1_000);
    assert_eq!(event, Some(HapticEvent::HeartbeatRestored));
    match ack {
        Acknowledgement::Send { reply, targets } => {
            assert_eq!(
                reply,
                encode_int_message("/avatar/parameters/joycon/status/heartbeat", 7).unwrap()
            );
            assert_eq!(targets, vec![peer(0x7f00_0001, 9100)]);
        }
        other => panic!("expected an acknowledgement, got {other:?}"),
    }
}

#[test]
fn heartbeat_without_registration_is_reported_once() {
    let mut runtime = runtime();
    let sender = peer(10, 1234);
    let heartbeat = message("/avatar/parameters/joycon/heartbeat", OscArgument::Int(1));
    let (_, ack) = runtime.handle_packet(&heartbeat, sender, 1);
    assert!(matches!(ack, Acknowledgement::Unregistered { first: true }));
    let (_, ack) = runtime.handle_packet(&heartbeat, sender, 2);
    assert!(matches!(ack, Acknowledgement::Unregistered { first: false }));

    let channel = message(
        "/avatar/parameters/joycon/channel/left/force",
        OscArgument::Float(0.5_f32.to_bits()),
    );
    let (event, ack) = runtime.handle_packet(&channel, sender, 3);
    assert!(matches!(ack, Acknowledgement::NotHeartbeat));
    assert!(matches!(event, Some(HapticEvent::Sensation { .. })));
    assert_eq!(runtime.router().state().left.force, 0.5_f32.to_bits());
}

#[test]
fn failed_and_reset_targets_are_forgotten() {
    let mut runtime = runtime();
    let sender = peer(10, 1234);
    runtime.register_batch(&vec![ReceivedPacket {
        packet: message("/avatar/parameters/joycon/status/port", OscArgument::Int(9000)),
        peer: sender,
    }]);
    runtime.targets_failed(&vec![peer(10, 9000)]);
    let heartbeat = message("/avatar/parameters/joycon/heartbeat", OscArgument::Int(1));
    let (_, ack) = runtime.handle_packet(&heartbeat, sender, 1);
    assert!(matches!(ack, Acknowledgement::Unregistered { first: true }));

    runtime.register_batch(&vec![ReceivedPacket {
        packet: message("/avatar/parameters/joycon/status/port", OscArgument::Int(9001)),
        peer: sender,
    }]);
    assert_eq!(runtime.reset_status_targets(), 1);
    assert!(!runtime.take_timeout(2));
    assert!(runtime.take_timeout(5_000_000_000));
}
