use joycon_rumble_bridge::osc::{OscArgument, OscPacket};
use joycon_rumble_bridge::signal::{HapticEvent, HapticRouter, Sensation, Target};

fn secs(value: u64) -> u64 {
    std::time::Duration::from_secs(value).as_nanos() as u64
}

fn ms(value: u64) -> u64 {
    std::time::Duration::from_millis(value).as_nanos() as u64
}

fn bits(value: f32) -> u32 {
    value.to_bits()
}

fn packet(address: &str, argument: OscArgument) -> OscPacket {
    OscPacket {
        address: address.into(),
        arguments: vec![argument],
    }
}

fn router() -> HapticRouter {
    HapticRouter::new(
        "joycon",
        secs(2),
        vec![("left".into(), Target::Left), ("right".into(), Target::Right)],
    )
}

#[test]
fn routes_independent_sensations() {
    let now = secs(100);
    let mut router = router();
    router.route_packet(
        &packet(
            "/avatar/parameters/joycon/channel/left/vibration",
            OscArgument::Float(bits(0.25)),
        ),
        now,
    );
    router.route_packet(
        &packet(
            "/avatar/parameters/joycon/channel/left/pain",
            OscArgument::Float(bits(0.75)),
        ),
        now,
    );
    assert_eq!(f32::from_bits(router.state().left.vibration), 0.25);
    assert_eq!(f32::from_bits(router.state().left.pain), 0.75);
    assert_eq!(f32::from_bits(router.state().left.force), 0.0);
}

#[test]
fn rejects_unknown_sensation() {
    let mut router = router();
    assert_eq!(
        router.route_packet(
            &packet(
                "/avatar/parameters/joycon/channel/left/temperature",
                OscArgument::Float(bits(0.5)),
            ),
            secs(100),
        ),
        None
    );
}

#[test]
fn heartbeat_expires_once_after_two_seconds() {
    let start = secs(100);
    let mut router = router();
    router.route_packet(
        &packet("/avatar/parameters/joycon/heartbeat", OscArgument::Int(0)),
        start,
    );
    assert!(!router.take_timeout(start + ms(1999)));
    assert!(router.take_timeout(start + secs(2)));
    assert!(!router.take_timeout(start + secs(3)));
}

#[test]
fn routes_custom_target_name() {
    let mut router = HapticRouter::new("joycon", secs(2), vec![("waist".into(), Target::Right)]);
    router.route_packet(
        &packet(
            "/avatar/parameters/joycon/channel/waist/force",
            OscArgument::Float(bits(0.6)),
        ),
        secs(100),
    );
    assert_eq!(f32::from_bits(router.state().right.force), 0.6);
}

#[test]
fn values_are_clamped_and_non_finite_values_ignored() {
    let mut router = router();
    let event = router.route_packet(
        &packet(
            "/avatar/parameters/joycon/channel/right/force",
            OscArgument::Float(bits(3.5)),
        ),
        secs(1),
    );
    assert_eq!(
        event,
        Some(HapticEvent::Sensation {
            target: Target::Right,
            sensation: Sensation::Force,
            value: bits(1.0),
        })
    );
    router.route_packet(
        &packet(
            "/avatar/parameters/joycon/channel/right/pain",
            OscArgument::Float(bits(-0.5)),
        ),
        secs(1),
    );
    assert_eq!(f32::from_bits(router.state().right.pain), 0.0);
    let event = router.route_packet(
        &packet(
            "/avatar/parameters/joycon/channel/right/vibration",
            OscArgument::Float(bits(f32::NAN)),
        ),
        secs(1),
    );
    assert_eq!(event, None);
    assert_eq!(router.state().right.vibration, 0);
}

#[test]
fn first_heartbeat_restores_and_later_ones_do_not() {
    let mut router = router();
    assert!(!router.heartbeat_valid(secs(1)));
    assert_eq!(
        router.route_packet(&packet("/avatar/parameters/joycon/heartbeat", OscArgument::Int(1)), secs(1)),
        Some(HapticEvent::HeartbeatRestored)
    );
    assert!(router.heartbeat_valid(secs(2)));
    assert_eq!(
        router.route_packet(&packet("/avatar/parameters/joycon/heartbeat", OscArgument::Int(2)), secs(2)),
        None
    );
    assert!(!router.heartbeat_valid(secs(4)));
    assert_eq!(
        router.route_packet(&packet("/avatar/parameters/joycon/heartbeat", OscArgument::Int(3)), secs(5)),
        Some(HapticEvent::HeartbeatRestored)
    );
}

#[test]
fn malformed_channel_addresses_are_ignored() {
    let mut router = router();
    for address in [
        "/avatar/parameters/joycon/channel/left",
        "/avatar/parameters/joycon/channel/left/force/extra",
        "/avatar/parameters/joycon/channel/middle/force",
        "/avatar/parameters/other/channel/left/force",
    ] {
        assert_eq!(router.route_packet(&packet(address, OscArgument::Float(bits(0.5))), secs(1)), None);
    }
    assert_eq!(
        router.route_packet(
            &packet("/avatar/parameters/joycon/channel/left/force", OscArgument::Int(1)),
            secs(1)
        ),
        None
    );
    assert_eq!(
        router.route_packet(&packet("/avatar/parameters/joycon/heartbeat", OscArgument::Bool(true)), secs(1)),
        None
    );
}
