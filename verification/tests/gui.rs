use joycon_rumble_bridge::gui::{
    bridge_state, connection_state, localize_cli_output, plugin_state, CliCommand, GuiState,
    Indicator, Side,
};
use joycon_rumble_bridge::statuslog::{joycon_status_line, last_status, plugin_status_line};

#[test]
fn localizes_device_and_measurement_output() {
    let localized = localize_cli_output(
        "Found 1 Joy-Con HID device(s):\nLeft Joy-Con open: ok\n\
         amplitude=1.00 low=90.0 high=180.0 samples=100 rms=1200.0\n\
         optimized profile saved: joycon-rumble-profiles.toml",
    );
    assert!(localized.contains("検出数: 1 台のJoy-Con"));
    assert!(localized.contains("Joy-Con (L) 接続可能"));
    assert!(localized.contains("振幅=1.00 Low=90.0 High=180.0 サンプル数=100 RMS=1200.0"));
    assert!(localized.contains("最適化プロファイル保存先:"));
}

#[test]
fn reads_latest_bridge_status_value() {
    let log = "bridge-status plugin=connected\nbridge-status plugin=disconnected\n";
    assert_eq!(last_status(log, "plugin"), Some("disconnected"));
}

#[test]
fn stopped_bridge_reports_detection_snapshot_not_connection() {
    assert_eq!(
        connection_state(false, false, true, true),
        (Indicator::Active, "検出済み")
    );
    assert_eq!(
        connection_state(true, true, false, false),
        (Indicator::Active, "接続")
    );
}

#[test]
fn waiting_for_a_peer_is_not_reported_as_a_fault() {
    let (indicator, _) = connection_state(true, false, false, false);
    assert_eq!(indicator, Indicator::Pending);

    let idle = GuiState::default();
    let (indicator, title) = idle.headline();
    assert_eq!(indicator, Indicator::Inactive);
    assert_eq!(title, "停止中");
}

#[test]
fn every_indicator_has_a_distinct_shape_as_well_as_a_color() {
    let glyphs = [
        Indicator::Active,
        Indicator::Pending,
        Indicator::Inactive,
        Indicator::Fault,
    ]
    .map(Indicator::glyph);
    let unique: std::collections::HashSet<_> = glyphs.iter().collect();
    assert_eq!(unique.len(), glyphs.len());
}

#[test]
fn a_failure_reveals_the_log_it_tells_the_user_to_read() {
    let mut app = GuiState::default();
    assert!(!app.log_expanded);
    app.finish_command(CliCommand::DeviceScan, false, "failed");
    assert!(app.log_expanded);
    assert!(app.status.contains("動作ログ"));
}

#[test]
fn calibration_options_are_hidden_by_default() {
    let mut app = GuiState::default();
    assert!(!app.calibration_expanded);
    app.toggle_calibration();
    assert!(app.calibration_expanded);
}

#[test]
fn window_opens_idle_on_the_right_controller() {
    let app = GuiState::new();
    assert_eq!(app.side, Side::Right);
    assert_eq!(app.status, "Joy-Conの接続を確認してから、振動を開始してください。");
    assert!(app.log.is_empty());
    assert!(!app.busy && !app.bridge_running && !app.scan_completed);
}

#[test]
fn indicator_glyphs_match_the_design() {
    assert_eq!(Indicator::Active.glyph(), "●");
    assert_eq!(Indicator::Pending.glyph(), "○");
    assert_eq!(Indicator::Inactive.glyph(), "－");
    assert_eq!(Indicator::Fault.glyph(), "×");
}

#[test]
fn connection_rows_cover_every_state() {
    assert_eq!(connection_state(true, false, true, true), (Indicator::Pending, "接続待ち"));
    assert_eq!(connection_state(false, true, false, true), (Indicator::Inactive, "未確認"));
    assert_eq!(connection_state(false, false, true, false), (Indicator::Fault, "未検出"));
}

#[test]
fn headline_reports_vibration_waiting_and_failure() {
    assert_eq!(bridge_state(true, true, false), (Indicator::Active, "振動中"));
    assert_eq!(bridge_state(true, false, true), (Indicator::Pending, "待機中"));
    assert_eq!(bridge_state(false, true, true), (Indicator::Fault, "停止しました"));
    assert_eq!(bridge_state(false, false, false), (Indicator::Inactive, "停止中"));
}

#[test]
fn plugin_row_is_unchecked_while_stopped() {
    assert_eq!(plugin_state(false, true), (Indicator::Inactive, "未確認"));
    assert_eq!(plugin_state(true, true), (Indicator::Active, "接続"));
    assert_eq!(plugin_state(true, false), (Indicator::Pending, "接続待ち"));
}

#[test]
fn side_names_and_arguments() {
    assert_eq!(Side::default(), Side::Right);
    assert_eq!(Side::Left.argument(), "left");
    assert_eq!(Side::Right.argument(), "right");
    assert_eq!(Side::Left.display_name(), "Joy-Con (L)");
    assert_eq!(Side::Right.display_name(), "Joy-Con (R)");
    assert_eq!(CliCommand::DeviceScan.title(), "デバイス検索");
    assert_eq!(CliCommand::Optimize.title(), "振動の最適化");
}

#[test]
fn last_status_searches_backwards_and_ignores_other_lines() {
    let log = "bridge-status joycon-left=connected joycon-right=disconnected\r\n\
               osc listening plugin=connected\n\
               bridge-status plugin=connected\n";
    assert_eq!(last_status(log, "joycon-left"), Some("connected"));
    assert_eq!(last_status(log, "joycon-right"), Some("disconnected"));
    assert_eq!(last_status(log, "plugin"), Some("connected"));
    assert_eq!(last_status(log, "missing"), None);
    assert_eq!(last_status("", "plugin"), None);
    assert_eq!(last_status("bridge-status plugin=on", "plugin"), Some("on"));
}

#[test]
fn status_lines_written_by_the_service_are_read_back() {
    let mut log = String::from("loaded\n");
    log.push_str(&joycon_status_line(true, false));
    log.push('\n');
    log.push_str(&plugin_status_line(true));
    log.push('\n');
    assert_eq!(plugin_status_line(false), "bridge-status plugin=disconnected");
    assert_eq!(
        joycon_status_line(true, true),
        "bridge-status joycon-left=connected joycon-right=connected"
    );
    assert_eq!(last_status(&log, "plugin"), Some("connected"));
    assert_eq!(last_status(&log, "joycon-left"), Some("connected"));
    assert_eq!(last_status(&log, "joycon-right"), Some("disconnected"));
}

#[test]
fn localization_leaves_other_text_alone() {
    assert_eq!(localize_cli_output("nothing to translate"), "nothing to translate");
    assert_eq!(
        localize_cli_output("No Joy-Con HID devices found via hidapi."),
        "Joy-Conが見つかりませんでした。"
    );
    assert_eq!(
        localize_cli_output("Keep the Right Joy-Con stationary. Stabilizing IMU..."),
        "Joy-Con (R)を動かさないでください。IMUを安定化中…"
    );
}

#[test]
fn scan_finds_only_the_left_controller_and_switches_side() {
    let mut app = GuiState::new();
    assert!(app.begin_scan());
    assert!(app.busy);
    assert_eq!(app.status, "Joy-Conを検索しています…");
    assert!(!app.begin_scan());
    app.finish_command(CliCommand::DeviceScan, true, "Found 1 Joy-Con HID device(s):\nLeft Joy-Con open: ok\n");
    assert!(!app.busy);
    assert!(app.scan_completed);
    assert!(app.left_detected && !app.right_detected);
    assert_eq!(app.side, Side::Left);
    assert_eq!(app.status, "接続済みJoy-Conを更新しました。");
    assert_eq!(app.log, "Joy-Con (L)だけが見つかりました。Joy-Con (R)を接続してください。");
    assert!(!app.log_expanded);
    assert!(app.measure_enabled());
}

#[test]
fn scan_reports_both_or_none() {
    let mut app = GuiState::new();
    app.finish_command(CliCommand::DeviceScan, true, "Left Joy-Con\nRight Joy-Con\n");
    assert_eq!(app.log, "左右両方のJoy-Conが見つかりました。");
    assert_eq!(app.side, Side::Right);
    app.finish_command(CliCommand::DeviceScan, true, "No Joy-Con HID devices found via hidapi.");
    assert!(!app.left_detected && !app.right_detected);
    assert_eq!(app.status, "Joy-Conが見つかりません。ボタンを押して再検索してください。");
    assert_eq!(app.log, "Joy-Conが見つかりませんでした。");
}

#[test]
fn measurement_builds_the_sweep_command_and_reports_its_outcome() {
    let mut app = GuiState::new();
    app.select_side(Side::Left);
    assert!(app.can_measure());
    let args = app.begin_measure("out.csv", "profile.toml");
    assert_eq!(
        args,
        vec![
            "joycon-imu-sweep", "--side", "left", "--output", "out.csv", "--profile",
            "profile.toml"
        ]
    );
    assert!(app.busy);
    assert_eq!(app.status, "Joy-Con (L)を測定しています。約1分間、動かさないでください…");
    app.finish_command(CliCommand::Optimize, true, "ignored");
    assert_eq!(app.status, "振動の最適化が正常に完了しました。");
    assert_eq!(app.log, "振動の最適化が完了しました。");
    app.finish_command(CliCommand::Optimize, false, "Found 0");
    assert_eq!(app.status, "振動の最適化に失敗しました。下の動作ログを確認してください。");
    assert_eq!(app.log, "検出数: 0");
    assert!(app.log_expanded);
}

#[test]
fn measurement_preparation_failure_opens_the_log() {
    let mut app = GuiState::new();
    app.measure_failed("disk full".to_string());
    assert_eq!(app.status, "測定を開始できませんでした。下の動作ログを確認してください。");
    assert_eq!(app.log, "disk full");
    assert!(app.log_expanded);
}

#[test]
fn starting_the_bridge_invalidates_the_scan_snapshot() {
    let mut app = GuiState::new();
    app.finish_command(CliCommand::DeviceScan, true, "Left Joy-Con Right Joy-Con");
    assert!(app.begin_start());
    assert!(!app.scan_completed && !app.left_detected && !app.right_detected);
    app.bridge_started();
    assert!(app.bridge_running);
    assert_eq!(app.status, "BYO Hapticsからの接続を待っています。");
    assert!(!app.begin_start());
    assert!(!app.can_measure());
    assert_eq!(app.headline(), (Indicator::Pending, "待機中"));
}

#[test]
fn bridge_start_failure_opens_the_log() {
    let mut app = GuiState::new();
    assert!(app.begin_start());
    app.bridge_start_failed("spawn failed".to_string());
    assert!(!app.bridge_running);
    assert_eq!(app.status, "ブリッジを起動できませんでした。下の動作ログを確認してください。");
    assert_eq!(app.log, "spawn failed");
    assert!(app.log_expanded);
}

#[test]
fn refresh_follows_the_service_log() {
    let mut app = GuiState::new();
    app.bridge_started();
    app.refresh_from_log("bridge-status joycon-left=connected joycon-right=connected\n");
    assert!(app.bridge_left_connected && app.bridge_right_connected);
    assert!(!app.plugin_connected);
    assert_eq!(app.status, "BYO Hapticsからの接続を待っています。");
    app.refresh_from_log("bridge-status plugin=connected\n");
    assert!(app.plugin_connected);
    assert!(!app.bridge_left_connected);
    assert_eq!(app.status, "BYO Hapticsからの信号でJoy-Conが振動します。");
    assert_eq!(app.headline(), (Indicator::Active, "振動中"));
}

#[test]
fn unexpected_exit_reports_a_fault_and_shows_the_log() {
    let mut app = GuiState::new();
    app.bridge_started();
    app.bridge_exited(Ok("both configured Joy-Cons must be connected".to_string()));
    assert!(!app.bridge_running && app.bridge_failed && app.log_expanded);
    assert_eq!(app.status, "振動が予期せず停止しました。動作ログを確認してください。");
    assert_eq!(app.log, "設定された左右両方のJoy-Conを接続してください");
    assert_eq!(app.headline(), (Indicator::Fault, "停止しました"));
    app.bridge_exited(Err("log missing".to_string()));
    assert_eq!(app.log, "log missing");
}

#[test]
fn stopping_returns_to_the_idle_prompt() {
    let mut app = GuiState::new();
    assert!(!app.stop_bridge());
    app.bridge_started();
    assert!(app.stop_bridge());
    assert!(!app.bridge_running);
    assert_eq!(app.status, "Joy-Conの接続を確認してから、振動を開始してください。");
    app.toggle_log();
    assert!(app.log_expanded);
    app.toggle_log();
    assert!(!app.log_expanded);
}

#[test]
fn every_failure_message_points_at_the_log() {
    let mut app = GuiState::new();
    app.measure_failed("e".to_string());
    assert!(app.status.contains("動作ログ") && app.log_expanded);
    let mut app = GuiState::new();
    app.bridge_start_failed("e".to_string());
    assert!(app.status.contains("動作ログ") && app.log_expanded);
    let mut app = GuiState::new();
    app.finish_command(CliCommand::Optimize, false, "e");
    assert!(app.status.contains("動作ログ") && app.log_expanded);
    let mut app = GuiState::new();
    app.bridge_exited(Err("e".to_string()));
    assert!(app.status.contains("動作ログ") && app.log_expanded);
}
