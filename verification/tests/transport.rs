use joycon_rumble_bridge::osc::OscArgument;
use joycon_rumble_bridge::transport::{batch_has_room, DrainResult, MAX_PACKET_BATCH};

fn encode_float(address: &str, value: f32) -> Vec<u8> {
    let mut bytes = Vec::new();
    bytes.extend_from_slice(address.as_bytes());
    bytes.push(0);
    while bytes.len() % 4 != 0 {
        bytes.push(0);
    }
    bytes.extend_from_slice(b",f\0\0");
    bytes.extend_from_slice(&value.to_bits().to_be_bytes());
    bytes
}

#[test]
fn coalesces_two_hundred_updates_to_the_latest_zero() {
    let address = "/avatar/parameters/joycon/channel/left/force";
    let mut result: DrainResult<u16> = DrainResult::new();
    let mut received = 0;
    for index in 0..200 {
        let value = (index + 1) as f32 / 200.0;
        result.accept_datagram(&encode_float(address, value), 1);
        received += 1;
    }
    result.accept_datagram(&encode_float(address, 0.0), 2);
    received += 1;
    result.finish(received);

    assert_eq!(result.packets.len(), 1);
    assert_eq!(result.packets[0].packet.address, address);
    assert_eq!(result.packets[0].peer, 2);
    assert_eq!(
        result.packets[0].packet.arguments,
        vec![OscArgument::Float(0.0_f32.to_bits())]
    );
    assert!(!result.saturated);
}

#[test]
fn keeps_distinct_addresses_independent_and_ignores_malformed_packets() {
    let mut result: DrainResult<u16> = DrainResult::new();
    result.accept_datagram(&encode_float("/channel/left", 0.25), 1);
    result.accept_datagram(b"not osc", 2);
    result.accept_datagram(&encode_float("/channel/right", 0.75), 3);
    result.finish(3);
    assert_eq!(result.packets.len(), 2);
    assert_eq!(result.malformed.len(), 1);
    assert_eq!(result.malformed, vec![(2, "unterminated OSC string".to_string())]);
}

#[test]
fn a_later_packet_replaces_the_earlier_one_in_place() {
    let mut result: DrainResult<u16> = DrainResult::new();
    result.accept_datagram(&encode_float("/channel/left", 0.25), 1);
    result.accept_datagram(&encode_float("/channel/right", 0.75), 3);
    result.accept_datagram(&encode_float("/channel/left", 0.5), 4);
    result.finish(3);
    assert_eq!(result.packets.len(), 2);
    assert_eq!(result.packets[0].packet.address, "/channel/left");
    assert_eq!(result.packets[0].peer, 4);
    assert_eq!(
        result.packets[0].packet.arguments,
        vec![OscArgument::Float(0.5_f32.to_bits())]
    );
    assert_eq!(result.packets[1].packet.address, "/channel/right");
}

#[test]
fn a_full_batch_is_saturated_and_resets_are_recorded() {
    let mut result: DrainResult<u16> = DrainResult::new();
    assert!(!result.connection_reset);
    result.mark_connection_reset();
    result.finish(MAX_PACKET_BATCH);
    assert!(result.saturated);
    assert!(result.connection_reset);
    assert!(result.packets.is_empty());
}

#[test]
fn a_batch_stops_at_its_bound() {
    assert!(batch_has_room(0));
    assert!(batch_has_room(MAX_PACKET_BATCH - 1));
    assert!(!batch_has_room(MAX_PACKET_BATCH));
}
