use joycon_rumble_bridge::config::{DeviceConfig, DeviceSide};
use joycon_rumble_bridge::joycon::{
    check_sweep_timing,
    accepts_serial, binding_index, clamp_test_duration_ms, device_to_open, hid_listing_header,
    hid_listing_line, joycon_model,
    listing_header, listing_line, padded_report, parse_u64, ImuSample, parse_accelerometer_samples, parse_joycon_side, player_light_mask,
    rumble_report, subcommand_report, target_index, JoyConSide, PacketCounter, NEUTRAL_RUMBLE,
};
use joycon_rumble_bridge::gui::{CliCommand, GuiState};
use joycon_rumble_bridge::signal::Target;

fn device(side: DeviceSide, address: &str) -> DeviceConfig {
    DeviceConfig {
        side,
        bluetooth_address: address.into(),
        osc_address: "x".into(),
        id: 1,
    }
}

#[test]
fn assigns_player_led_patterns() {
    assert_eq!(player_light_mask(1), 0x01);
    assert_eq!(player_light_mask(2), 0x03);
    assert_eq!(player_light_mask(4), 0x0f);
}

#[test]
fn parses_three_accelerometer_samples_from_standard_report() {
    let mut report = [0_u8; 49];
    report[0] = 0x30;
    for (sample_index, values) in [[1_i16, -2, 3], [4, -5, 6], [7, -8, 9]]
        .into_iter()
        .enumerate()
    {
        let offset = 13 + sample_index * 12;
        for (axis, value) in values.into_iter().enumerate() {
            report[offset + axis * 2..offset + axis * 2 + 2].copy_from_slice(&value.to_le_bytes());
        }
    }
    assert_eq!(
        parse_accelerometer_samples(&report),
        vec![[1, -2, 3], [4, -5, 6], [7, -8, 9]]
    );
}

#[test]
fn ignores_non_imu_reports() {
    assert!(parse_accelerometer_samples(&[0x21; 49]).is_empty());
    assert!(parse_accelerometer_samples(&[0x30; 48]).is_empty());
}

#[test]
fn recognizes_joycon_models_and_sides() {
    assert_eq!(joycon_model(0x057e, 0x2006), Some(JoyConSide::Left));
    assert_eq!(joycon_model(0x057e, 0x2007), Some(JoyConSide::Right));
    assert_eq!(joycon_model(0x057e, 0x2009), None);
    assert_eq!(joycon_model(0x1234, 0x2006), None);
    assert_eq!(parse_joycon_side("l"), Some(JoyConSide::Left));
    assert_eq!(parse_joycon_side("right"), Some(JoyConSide::Right));
    assert_eq!(parse_joycon_side("both"), None);
    assert_eq!(JoyConSide::Left.product_id(), 0x2006);
    assert_eq!(JoyConSide::Right.label(), "Right");
    assert_eq!(JoyConSide::Right.device_side(), DeviceSide::Right);
    assert_eq!(target_index(Target::Left), 0);
    assert_eq!(target_index(Target::Right), 1);
}

#[test]
fn rumble_test_duration_is_clamped() {
    assert_eq!(clamp_test_duration_ms(5), 20);
    assert_eq!(clamp_test_duration_ms(300), 300);
    assert_eq!(clamp_test_duration_ms(5000), 1000);
}

#[test]
fn bindings_accept_matching_controllers() {
    let devices = vec![device(DeviceSide::Left, "auto"), device(DeviceSide::Right, "001122334455")];
    assert_eq!(binding_index(&devices, DeviceSide::Right), Some(1));
    assert!(accepts_serial("auto", "anything"));
    assert!(accepts_serial("001122334455", "00:11:22:33:44:55"));
    assert!(!accepts_serial("001122334455", "00:11:22:33:44:56"));
    assert_eq!(
        device_to_open(0x057e, 0x2006, "", false, false, &devices),
        Some((JoyConSide::Left, 0))
    );
    assert_eq!(device_to_open(0x057e, 0x2006, "", true, false, &devices), None);
    assert_eq!(
        device_to_open(0x057e, 0x2007, "00-11-22-33-44-55", false, false, &devices),
        Some((JoyConSide::Right, 1))
    );
    assert_eq!(device_to_open(0x057e, 0x2007, "ffffffffffff", false, false, &devices), None);
    assert_eq!(device_to_open(0x057e, 0x2007, "", false, false, &devices[..1].to_vec()), None);
}

#[test]
fn output_reports_are_numbered_modulo_sixteen() {
    let mut counter = PacketCounter::new();
    let numbers: Vec<u8> = (0..18).map(|_| counter.next()).collect();
    assert_eq!(numbers[0], 0);
    assert_eq!(numbers[15], 15);
    assert_eq!(numbers[16], 0);
    assert_eq!(numbers[17], 1);
}

#[test]
fn builds_rumble_and_subcommand_reports() {
    assert_eq!(
        rumble_report(3, NEUTRAL_RUMBLE),
        vec![0x10, 3, 0x00, 0x01, 0x40, 0x40, 0x00, 0x01, 0x40, 0x40]
    );
    assert_eq!(
        subcommand_report(4, NEUTRAL_RUMBLE, 0x30, &[0x0f]),
        vec![0x01, 4, 0x00, 0x01, 0x40, 0x40, 0x00, 0x01, 0x40, 0x40, 0x30, 0x0f]
    );
    let padded = padded_report(&[1, 2, 3]);
    assert_eq!(&padded[..3], &[1, 2, 3]);
    assert!(padded[3..].iter().all(|byte| *byte == 0));
    let long = [7_u8; 60];
    assert_eq!(padded_report(&long), [7_u8; 49]);
}

#[test]
fn listing_lines_match_the_device_listing_format() {
    assert_eq!(listing_header(2), "Found 2 Joy-Con HID device(s):");
    assert_eq!(listing_header(0), "Found 0 Joy-Con HID device(s):");
    assert_eq!(
        listing_line(0, "Left", 0x057e, 0x2006, "Joy-Con (L)", "AA:BB", "/dev/hidraw3"),
        "1. Left Joy-Con 057e:2006 product=\"Joy-Con (L)\" serial=\"AA:BB\" path=\"/dev/hidraw3\""
    );
    assert_eq!(
        listing_line(11, "Right", 0x00ff, 0xabcd, "", "", ""),
        "12. Right Joy-Con 00ff:abcd product=\"\" serial=\"\" path=\"\""
    );
}

#[test]
fn a_listed_joycon_is_detected_by_the_window() {
    let mut output = listing_header(1);
    output.push('\n');
    output.push_str(&listing_line(0, JoyConSide::Right.label(), 0x057e, 0x2007, "Joy-Con (R)", "x", "p"));
    output.push_str("\n   open: ok\n");
    let mut app = GuiState::new();
    app.finish_command(CliCommand::DeviceScan, true, &output);
    assert!(app.right_detected && !app.left_detected);
}

#[test]
fn utility_integers_name_the_option_on_error() {
    assert_eq!(parse_u64("500", "--measure-ms"), Ok(500));
    assert_eq!(parse_u64("5.0", "--measure-ms"), Err("--measure-ms must be integer".to_string()));
    let sample = ImuSample {
        target: Target::Left,
        acceleration: [1, -2, 3],
    };
    assert_eq!(sample.acceleration[1], -2);
}

#[test]
fn hid_listing_lines_show_ids_usage_and_interface() {
    assert_eq!(hid_listing_header(3), "Found 3 HID device(s):");
    assert_eq!(
        hid_listing_line(2, 0x057e, 0x2006, "Nintendo", "Joy-Con (L)", "s", 0x0001, 0x0005, -1, "p"),
        "3. 057e:2006 manufacturer=\"Nintendo\" product=\"Joy-Con (L)\" serial=\"s\" usage_page=0x0001 usage=0x0005 interface=-1 path=\"p\""
    );
    assert_eq!(
        hid_listing_line(0, 0, 0xffff, "", "", "", 0xff00, 0x10, i32::MIN, ""),
        "1. 0000:ffff manufacturer=\"\" product=\"\" serial=\"\" usage_page=0xff00 usage=0x0010 interface=-2147483648 path=\"\""
    );
}

#[test]
fn sweep_timing_is_bounded() {
    assert_eq!(check_sweep_timing(100, 10_000), Ok(()));
    let message = "--measure-ms must be >= 100 and --settle-ms must be <= 10000".to_string();
    assert_eq!(check_sweep_timing(99, 0), Err(message.clone()));
    assert_eq!(check_sweep_timing(500, 10_001), Err(message));
}
