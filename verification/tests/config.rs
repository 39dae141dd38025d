use joycon_rumble_bridge::config::{
    default_devices, find_config_path, normalize_binding_address, normalize_bluetooth_address,
    parse_cli_option, parse_device, CliSettings, parse_u16, parse_u64, upsert_device, validate_config,
    validate_path_segment, value, CliOption, DeviceConfig, DeviceSide, DEFAULT_CONFIG_PATH,
};

fn args(values: &[&str]) -> Vec<String> {
    values.iter().map(|value| value.to_string()).collect()
}

fn device(side: DeviceSide, address: &str, osc: &str, id: u8) -> DeviceConfig {
    DeviceConfig {
        side,
        bluetooth_address: address.into(),
        osc_address: osc.into(),
        id,
    }
}

#[test]
fn normalizes_bluetooth_address() {
    assert_eq!(
        normalize_bluetooth_address("00:11:22:33:44:55").unwrap(),
        "001122334455"
    );
}

#[test]
fn parses_device_override() {
    assert_eq!(
        parse_device("left,00-11-22-33-44-55,hand-left,3").unwrap(),
        DeviceConfig {
            side: DeviceSide::Left,
            bluetooth_address: "001122334455".into(),
            osc_address: "hand-left".into(),
            id: 3,
        }
    );
}

#[test]
fn parses_automatic_device_binding() {
    assert_eq!(
        parse_device("right,auto,right,2")
            .unwrap()
            .bluetooth_address,
        "auto"
    );
}

#[test]
fn address_normalization_lowercases_and_rejects_bad_input() {
    assert_eq!(normalize_bluetooth_address("AA BB-cc:DD EE FF").unwrap(), "aabbccddeeff");
    assert_eq!(
        normalize_bluetooth_address("00:11:22:33:44").unwrap_err().message,
        "Bluetooth address must contain exactly 12 hexadecimal digits"
    );
    assert!(normalize_bluetooth_address("00:11:22:33:44:5g").is_err());
    assert_eq!(normalize_binding_address("AUTO").unwrap(), "auto");
    assert_eq!(normalize_binding_address("0011223344aA").unwrap(), "0011223344aa");
}

#[test]
fn device_parsing_reports_each_error() {
    assert_eq!(
        parse_device("left,auto,left").unwrap_err().message,
        "--device must be SIDE,AUTO_OR_BLUETOOTH_ADDRESS,OSC_ADDRESS,ID"
    );
    assert_eq!(
        parse_device("middle,auto,left,1").unwrap_err().message,
        "device side must be left or right"
    );
    assert_eq!(
        parse_device("left,auto,left,one").unwrap_err().message,
        "device id must be an integer"
    );
    assert_eq!(
        parse_device("R , auto , hand , 4 ").unwrap(),
        device(DeviceSide::Right, "auto", "hand", 4)
    );
}

#[test]
fn path_segments_allow_only_safe_characters() {
    assert!(validate_path_segment("joy-con_1.x", "namespace").is_ok());
    assert_eq!(
        validate_path_segment("joy con", "namespace").unwrap_err().message,
        "namespace must use only ASCII letters, digits, '.', '-' or '_'"
    );
    assert!(validate_path_segment("", "namespace").is_err());
}

#[test]
fn option_values_and_numbers() {
    let list = args(&["--namespace", "joycon", "--listen-port"]);
    assert_eq!(value(&list, 0, "--namespace").unwrap(), "joycon");
    assert_eq!(
        value(&list, 2, "--listen-port").unwrap_err().message,
        "--listen-port requires a value"
    );
    assert_eq!(parse_u64("+2000", "--heartbeat-timeout-ms").unwrap(), 2000);
    assert_eq!(
        parse_u64("-1", "--heartbeat-timeout-ms").unwrap_err().message,
        "--heartbeat-timeout-ms must be an integer"
    );
    assert_eq!(parse_u16("65535", "--listen-port").unwrap(), 65535);
    assert_eq!(
        parse_u16("65536", "--listen-port").unwrap_err().message,
        "--listen-port must be an integer in 1..65535"
    );
}

#[test]
fn config_path_comes_from_the_last_config_option() {
    assert_eq!(find_config_path(&args(&["--dry-run"])).unwrap(), DEFAULT_CONFIG_PATH);
    assert_eq!(
        find_config_path(&args(&["--config", "a.toml", "--namespace", "x", "--config", "b.toml"]))
            .unwrap(),
        "b.toml"
    );
    assert_eq!(
        find_config_path(&args(&["--config"])).unwrap_err().message,
        "--config requires a value"
    );
}

#[test]
fn command_line_options_are_read_one_at_a_time() {
    let list = args(&[
        "--listen-port", "9010", "--device", "left,001122334455,left,3", "--save-config",
        "--listen", "127.0.0.1:7000", "--bogus",
    ]);
    assert_eq!(parse_cli_option(&list, 0).unwrap(), (CliOption::ListenPort(9010), 2));
    assert_eq!(
        parse_cli_option(&list, 2).unwrap(),
        (
            CliOption::Device(device(DeviceSide::Left, "001122334455", "left", 3)),
            4
        )
    );
    assert_eq!(parse_cli_option(&list, 4).unwrap(), (CliOption::SaveConfig, 5));
    assert_eq!(
        parse_cli_option(&list, 5).unwrap(),
        (CliOption::Listen("127.0.0.1:7000".into()), 7)
    );
    assert_eq!(
        parse_cli_option(&list, 7).unwrap_err().message,
        "unknown argument: --bogus"
    );
    assert_eq!(parse_cli_option(&args(&["-h"]), 0).unwrap(), (CliOption::Help, 1));
}

#[test]
fn device_override_replaces_the_binding_of_its_side() {
    let mut devices = default_devices();
    upsert_device(&mut devices, device(DeviceSide::Left, "001122334455", "left", 3));
    assert_eq!(devices.len(), 2);
    assert_eq!(devices[0], device(DeviceSide::Left, "001122334455", "left", 3));
    assert_eq!(devices[1], device(DeviceSide::Right, "auto", "right", 2));

    let mut only_left = vec![device(DeviceSide::Left, "auto", "left", 1)];
    upsert_device(&mut only_left, device(DeviceSide::Right, "auto", "right", 2));
    assert_eq!(only_left.len(), 2);
}

#[test]
fn validation_normalizes_and_reports_the_first_problem() {
    let mut devices = vec![
        device(DeviceSide::Left, "00:11:22:33:44:55", "left", 1),
        device(DeviceSide::Right, "Auto", "right", 2),
    ];
    assert!(validate_config("joycon", 9010, 2000, &mut devices).is_ok());
    assert_eq!(devices[0].bluetooth_address, "001122334455");
    assert_eq!(devices[1].bluetooth_address, "auto");
    let saved = devices.clone();
    assert!(validate_config("joycon", 9010, 2000, &mut devices).is_ok());
    assert_eq!(devices, saved);

    let mut defaults = default_devices();
    assert_eq!(
        validate_config("bad space", 9010, 2000, &mut defaults).unwrap_err().message,
        "namespace must use only ASCII letters, digits, '.', '-' or '_'"
    );
    assert_eq!(
        validate_config("joycon", 0, 2000, &mut defaults).unwrap_err().message,
        "listen port must be in 1..65535"
    );
    assert_eq!(
        validate_config("joycon", 9010, 0, &mut defaults).unwrap_err().message,
        "heartbeat_timeout_ms must be greater than zero"
    );
    let mut two_left = vec![
        device(DeviceSide::Left, "auto", "a", 1),
        device(DeviceSide::Left, "auto", "b", 2),
    ];
    assert_eq!(
        validate_config("joycon", 9010, 2000, &mut two_left).unwrap_err().message,
        "config must contain one left and one right device"
    );
    let mut bad_id = vec![
        device(DeviceSide::Left, "auto", "a", 5),
        device(DeviceSide::Right, "auto", "b", 2),
    ];
    assert_eq!(
        validate_config("joycon", 9010, 2000, &mut bad_id).unwrap_err().message,
        "device id must be in 1..4"
    );
    let mut same_channel = vec![
        device(DeviceSide::Left, "auto", "same", 1),
        device(DeviceSide::Right, "auto", "same", 2),
    ];
    assert_eq!(
        validate_config("joycon", 9010, 2000, &mut same_channel).unwrap_err().message,
        "left and right device osc_address values must be unique"
    );
}

#[test]
fn side_labels() {
    assert_eq!(DeviceSide::Left.label(), "left");
    assert_eq!(DeviceSide::Right.label(), "right");
}

#[test]
fn normalized_binding_addresses_normalize_to_themselves() {
    for input in ["AA-BB-CC-DD-EE-FF", "aUtO", "00 11 22 33 44 55"] {
        let once = normalize_binding_address(input).unwrap();
        assert_eq!(normalize_binding_address(&once).unwrap(), once);
    }
}

#[test]
fn a_side_label_round_trips_through_a_device_value() {
    for side in [DeviceSide::Left, DeviceSide::Right] {
        let value = format!("{},auto,x,1", side.label());
        assert_eq!(parse_device(&value).unwrap(), device(side, "auto", "x", 1));
    }
}

#[test]
fn later_options_win_and_listen_port_keeps_the_host() {
    let list = args(&[
        "--namespace", "a", "--listen", "10.0.0.1:7000", "--listen-port", "9010",
        "--namespace", "b", "--device", "right,auto,hand,4", "--dry-run", "--save-config",
    ]);
    let mut settings = CliSettings::new();
    let mut devices = default_devices();
    let mut index = 0;
    while index < list.len() {
        let (option, next) = parse_cli_option(&list, index).unwrap();
        settings.apply(&mut devices, option);
        index = next;
    }
    assert_eq!(settings.namespace.as_deref(), Some("b"));
    assert_eq!(settings.listen.as_deref(), Some("10.0.0.1:7000"));
    assert_eq!(settings.listen_port, Some(9010));
    assert!(settings.dry_run && settings.save_config);
    assert_eq!(devices[1], device(DeviceSide::Right, "auto", "hand", 4));

    let (option, _) = parse_cli_option(&args(&["--listen", "1.2.3.4:5"]), 0).unwrap();
    settings.apply(&mut devices, option);
    assert_eq!(settings.listen_port, None);
    assert_eq!(settings.listen.as_deref(), Some("1.2.3.4:5"));
}
