use joycon_rumble_bridge::joycon::JoyConSide;
use joycon_rumble_bridge::utility::{rumble_test_option, sweep_option, RumbleTestOption, SweepOption};

fn args(values: &[&str]) -> Vec<String> {
    values.iter().map(|value| value.to_string()).collect()
}

#[test]
fn rumble_test_options_are_read_in_order() {
    let list = args(&["--side", "l", "--duration-ms", "5000", "--intensity", "0.5", "-h"]);
    assert_eq!(rumble_test_option(&list, 0), Ok((RumbleTestOption::Side(JoyConSide::Left), 2)));
    assert_eq!(rumble_test_option(&list, 2), Ok((RumbleTestOption::DurationMs(1000), 4)));
    assert_eq!(
        rumble_test_option(&list, 4),
        Ok((RumbleTestOption::Intensity("0.5".to_string()), 6))
    );
    assert_eq!(rumble_test_option(&list, 6), Ok((RumbleTestOption::Help, 7)));
}

#[test]
fn rumble_test_options_report_each_error() {
    assert_eq!(
        rumble_test_option(&args(&["--side", "up"]), 0),
        Err("--side must be left or right, got up".to_string())
    );
    assert_eq!(
        rumble_test_option(&args(&["--low-freq"]), 0),
        Err("--low-freq needs a value".to_string())
    );
    assert_eq!(
        rumble_test_option(&args(&["--duration-ms", "x"]), 0),
        Err("--duration-ms must be integer".to_string())
    );
    assert_eq!(
        rumble_test_option(&args(&["--bogus"]), 0),
        Err("unknown joycon-rumble-test argument: --bogus".to_string())
    );
}

#[test]
fn sweep_options_are_read_in_order() {
    let list = args(&[
        "--side", "right", "--amplitudes", "0.5,1.0", "--measure-ms", "400", "--settle-ms", "0",
        "--output", "out.csv", "--profile", "p.toml", "--help",
    ]);
    assert_eq!(sweep_option(&list, 0), Ok((SweepOption::Side(JoyConSide::Right), 2)));
    assert_eq!(sweep_option(&list, 2), Ok((SweepOption::Amplitudes("0.5,1.0".to_string()), 4)));
    assert_eq!(sweep_option(&list, 4), Ok((SweepOption::MeasureMs(400), 6)));
    assert_eq!(sweep_option(&list, 6), Ok((SweepOption::SettleMs(0), 8)));
    assert_eq!(sweep_option(&list, 8), Ok((SweepOption::Output("out.csv".to_string()), 10)));
    assert_eq!(sweep_option(&list, 10), Ok((SweepOption::Profile("p.toml".to_string()), 12)));
    assert_eq!(sweep_option(&list, 12), Ok((SweepOption::Help, 13)));
    assert_eq!(
        sweep_option(&args(&["--low-start"]), 0),
        Err("--low-start needs a value".to_string())
    );
    assert_eq!(
        sweep_option(&args(&["--frequency"]), 0),
        Err("unknown joycon-imu-sweep argument: --frequency".to_string())
    );
}
