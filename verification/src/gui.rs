//! What the control window shows and how it reacts, apart from drawing it and
//! running processes: status indicators, localized command output, and the
//! window's state machine.
use vstd::prelude::*;
use vstd::string::StringExecFns;

use crate::joycon::{decimal_spec, listing_line_spec, JoyConSide};
use crate::statuslog::{last_status, last_status_spec};
use crate::text::{chars_of, contains_chars, contains_spec, replace_chars, replace_spec, string_of};

verus! {

broadcast use vstd::string::group_string_axioms;

/// A state shown by shape and color together.
#[derive(Debug, Clone, Copy, PartialEq, Eq, Structural)]
pub enum Indicator {
    Active,
    Pending,
    Inactive,
    Fault,
}

/// The shape of each indicator.
pub open spec fn glyph_spec(indicator: Indicator) -> Seq<char> {
    match indicator {
        Indicator::Active => "●"@,
        Indicator::Pending => "○"@,
        Indicator::Inactive => "－"@,
        Indicator::Fault => "×"@,
    }
}

impl Indicator {
    /// The shape that shows this state.
    pub fn glyph(self) -> (r: &'static str)
        ensures
            r@ == glyph_spec(self),
    {
        match self {
            Indicator::Active => "●",
            Indicator::Pending => "○",
            Indicator::Inactive => "－",
            Indicator::Fault => "×",
        }
    }
}

/// The controller chosen for measurement.
#[derive(Debug, Clone, Copy, PartialEq, Eq, Structural)]
pub enum Side {
    Left,
    Right,
}

impl Default for Side {
    /// The right controller.
    fn default() -> (s: Self)
        ensures
            s == Side::Right,
    {
        Side::Right
    }
}

impl Side {
    /// The value of the `--side` argument for this controller.
    pub fn argument(self) -> (r: &'static str)
        ensures
            r@ == (match self {
                Side::Left => "left"@,
                Side::Right => "right"@,
            }),
    {
        match self {
            Side::Left => "left",
            Side::Right => "right",
        }
    }

    /// The name of this controller as shown to the user.
    pub fn display_name(self) -> (r: &'static str)
        ensures
            r@ == side_name(self),
    {
        match self {
            Side::Left => "Joy-Con (L)",
            Side::Right => "Joy-Con (R)",
        }
    }
}

/// The name of a controller as shown to the user.
pub open spec fn side_name(side: Side) -> Seq<char> {
    match side {
        Side::Left => "Joy-Con (L)"@,
        Side::Right => "Joy-Con (R)"@,
    }
}

/// The indicator and text of one controller row: live connection while the
/// service runs, the last manual check while it is stopped.
pub open spec fn connection_state_spec(bridge_running: bool, bridge_connected: bool, scan_completed: bool, detected: bool) -> (Indicator, Seq<char>) {
    if bridge_running && bridge_connected {
        (Indicator::Active, "接続"@)
    } else if bridge_running {
        (Indicator::Pending, "接続待ち"@)
    } else if !scan_completed {
        (Indicator::Inactive, "未確認"@)
    } else if detected {
        (Indicator::Active, "検出済み"@)
    } else {
        (Indicator::Fault, "未検出"@)
    }
}

/// The indicator and text of one controller row.
pub fn connection_state(bridge_running: bool, bridge_connected: bool, scan_completed: bool, detected: bool) -> (r: (Indicator, &'static str))
    ensures
        (r.0, r.1@) == connection_state_spec(bridge_running, bridge_connected, scan_completed, detected),
{
    if bridge_running && bridge_connected {
        (Indicator::Active, "接続")
    } else if bridge_running {
        (Indicator::Pending, "接続待ち")
    } else if !scan_completed {
        (Indicator::Inactive, "未確認")
    } else if detected {
        (Indicator::Active, "検出済み")
    } else {
        (Indicator::Fault, "未検出")
    }
}

/// The headline of the window: whether vibration works right now.
pub open spec fn bridge_state_spec(bridge_running: bool, plugin_connected: bool, bridge_failed: bool) -> (Indicator, Seq<char>) {
    if bridge_running {
        if plugin_connected {
            (Indicator::Active, "振動中"@)
        } else {
            (Indicator::Pending, "待機中"@)
        }
    } else if bridge_failed {
        (Indicator::Fault, "停止しました"@)
    } else {
        (Indicator::Inactive, "停止中"@)
    }
}

/// The headline of the window.
pub fn bridge_state(bridge_running: bool, plugin_connected: bool, bridge_failed: bool) -> (r: (Indicator, &'static str))
    ensures
        (r.0, r.1@) == bridge_state_spec(bridge_running, plugin_connected, bridge_failed),
{
    if bridge_running {
        if plugin_connected {
            (Indicator::Active, "振動中")
        } else {
            (Indicator::Pending, "待機中")
        }
    } else if bridge_failed {
        (Indicator::Fault, "停止しました")
    } else {
        (Indicator::Inactive, "停止中")
    }
}

/// The localized form of command output: each English phrase of the
/// service replaced by its Japanese wording, phrase after phrase.
pub open spec fn localize_spec(output: Seq<char>) -> Seq<char> {
    let s0 = replace_spec(output, "No Joy-Con HID devices found via hidapi."@, "Joy-Conが見つかりませんでした。"@);
    let s1 = replace_spec(s0, "both configured Joy-Cons must be connected"@, "設定された左右両方のJoy-Conを接続してください"@);
    let s2 = replace_spec(s1, "Expected Nintendo VID 057e with PID 2006 (L) or 2007 (R)."@, "Nintendo VID 057e、PID 2006（L）または2007（R）を検索しました。"@);
    let s3 = replace_spec(s2, "Found "@, "検出数: "@);
    let s4 = replace_spec(s3, " Joy-Con HID device(s):"@, " 台のJoy-Con"@);
    let s5 = replace_spec(s4, "Left Joy-Con"@, "Joy-Con (L)"@);
    let s6 = replace_spec(s5, "Right Joy-Con"@, "Joy-Con (R)"@);
    let s7 = replace_spec(s6, "product="@, "製品="@);
    let s8 = replace_spec(s7, "serial="@, "シリアル="@);
    let s9 = replace_spec(s8, "path="@, "パス="@);
    let s10 = replace_spec(s9, "open: ok"@, "接続可能"@);
    let s11 = replace_spec(s10, "open: failed"@, "接続失敗"@);
    let s12 = replace_spec(s11, "Keep the "@, ""@);
    let s13 = replace_spec(s12, " stationary. Stabilizing IMU..."@, "を動かさないでください。IMUを安定化中…"@);
    let s14 = replace_spec(s13, "Measuring three baseline windows..."@, "基準値を3回測定中…"@);
    let s15 = replace_spec(s14, "baseline samples="@, "基準サンプル数="@);
    let s16 = replace_spec(s15, " noise_rms_lsb="@, " ノイズRMS="@);
    let s17 = replace_spec(s16, "amplitude="@, "振幅="@);
    let s18 = replace_spec(s17, " low="@, " Low="@);
    let s19 = replace_spec(s18, " high="@, " High="@);
    let s20 = replace_spec(s19, " samples="@, " サンプル数="@);
    let s21 = replace_spec(s20, " rms="@, " RMS="@);
    let s22 = replace_spec(s21, "IMU sweep finished:"@, "IMU測定結果:"@);
    let s23 = replace_spec(s22, "optimized profile saved:"@, "最適化プロファイル保存先:"@);
    s23
}

/// Replaces a nonempty pattern in a character vector.
fn replace_str(s: &Vec<char>, pat: &str, to: &str) -> (r: Vec<char>)
    requires
        pat@.len() > 0,
    ensures
        r@ == replace_spec(s@, pat@, to@),
{
    replace_chars(s, &chars_of(pat), &chars_of(to))
}

/// Translates the service's command output for the window.
pub fn localize_cli_output(output: &str) -> (r: String)
    ensures
        r@ == localize_spec(output@),
{
    proof {
        reveal_strlit("No Joy-Con HID devices found via hidapi.");
        reveal_strlit("both configured Joy-Cons must be connected");
        reveal_strlit("Expected Nintendo VID 057e with PID 2006 (L) or 2007 (R).");
        reveal_strlit("Found ");
        reveal_strlit(" Joy-Con HID device(s):");
        reveal_strlit("Left Joy-Con");
        reveal_strlit("Right Joy-Con");
        reveal_strlit("product=");
        reveal_strlit("serial=");
        reveal_strlit("path=");
        reveal_strlit("open: ok");
        reveal_strlit("open: failed");
        reveal_strlit("Keep the ");
        reveal_strlit(" stationary. Stabilizing IMU...");
        reveal_strlit("Measuring three baseline windows...");
        reveal_strlit("baseline samples=");
        reveal_strlit(" noise_rms_lsb=");
        reveal_strlit("amplitude=");
        reveal_strlit(" low=");
        reveal_strlit(" high=");
        reveal_strlit(" samples=");
        reveal_strlit(" rms=");
        reveal_strlit("IMU sweep finished:");
        reveal_strlit("optimized profile saved:");
    }
    let text = chars_of(output);
    let text = replace_str(&text, "No Joy-Con HID devices found via hidapi.", "Joy-Conが見つかりませんでした。");
    let text = replace_str(&text, "both configured Joy-Cons must be connected", "設定された左右両方のJoy-Conを接続してください");
    let text = replace_str(&text, "Expected Nintendo VID 057e with PID 2006 (L) or 2007 (R).", "Nintendo VID 057e、PID 2006（L）または2007（R）を検索しました。");
    let text = replace_str(&text, "Found ", "検出数: ");
    let text = replace_str(&text, " Joy-Con HID device(s):", " 台のJoy-Con");
    let text = replace_str(&text, "Left Joy-Con", "Joy-Con (L)");
    let text = replace_str(&text, "Right Joy-Con", "Joy-Con (R)");
    let text = replace_str(&text, "product=", "製品=");
    let text = replace_str(&text, "serial=", "シリアル=");
    let text = replace_str(&text, "path=", "パス=");
    let text = replace_str(&text, "open: ok", "接続可能");
    let text = replace_str(&text, "open: failed", "接続失敗");
    let text = replace_str(&text, "Keep the ", "");
    let text = replace_str(&text, " stationary. Stabilizing IMU...", "を動かさないでください。IMUを安定化中…");
    let text = replace_str(&text, "Measuring three baseline windows...", "基準値を3回測定中…");
    let text = replace_str(&text, "baseline samples=", "基準サンプル数=");
    let text = replace_str(&text, " noise_rms_lsb=", " ノイズRMS=");
    let text = replace_str(&text, "amplitude=", "振幅=");
    let text = replace_str(&text, " low=", " Low=");
    let text = replace_str(&text, " high=", " High=");
    let text = replace_str(&text, " samples=", " サンプル数=");
    let text = replace_str(&text, " rms=", " RMS=");
    let text = replace_str(&text, "IMU sweep finished:", "IMU測定結果:");
    let text = replace_str(&text, "optimized profile saved:", "最適化プロファイル保存先:");
    string_of(&text)
}

/// The indicator and text of the row for the haptics plugin.
pub open spec fn plugin_state_spec(bridge_running: bool, plugin_connected: bool) -> (Indicator, Seq<char>) {
    if !bridge_running {
        (Indicator::Inactive, "未確認"@)
    } else if plugin_connected {
        (Indicator::Active, "接続"@)
    } else {
        (Indicator::Pending, "接続待ち"@)
    }
}

/// The indicator and text of the row for the haptics plugin.
pub fn plugin_state(bridge_running: bool, plugin_connected: bool) -> (r: (Indicator, &'static str))
    ensures
        (r.0, r.1@) == plugin_state_spec(bridge_running, plugin_connected),
{
    if !bridge_running {
        (Indicator::Inactive, "未確認")
    } else if plugin_connected {
        (Indicator::Active, "接続")
    } else {
        (Indicator::Pending, "接続待ち")
    }
}

/// The fault indicator marks only what went wrong: a controller that a
/// finished check did not find while the service is stopped, or a service
/// that stopped on its own. Waiting for a peer is never shown as a fault.
pub proof fn lemma_fault_only_on_failure(
    bridge_running: bool,
    bridge_connected: bool,
    scan_completed: bool,
    detected: bool,
    plugin_connected: bool,
    bridge_failed: bool,
)
    ensures
        connection_state_spec(bridge_running, bridge_connected, scan_completed, detected).0 == Indicator::Fault
            <==> (!bridge_running && scan_completed && !detected),
        bridge_state_spec(bridge_running, plugin_connected, bridge_failed).0 == Indicator::Fault
            <==> (!bridge_running && bridge_failed),
        plugin_state_spec(bridge_running, plugin_connected).0 != Indicator::Fault,
        bridge_running && !bridge_connected ==> connection_state_spec(bridge_running, bridge_connected, scan_completed, detected).0 == Indicator::Pending,
        bridge_running && !plugin_connected ==> bridge_state_spec(bridge_running, plugin_connected, bridge_failed).0 == Indicator::Pending,
{
}

/// A row shows the active mark exactly when what it watches works: a
/// controller connected to the running service or found by the last check
/// while the service is stopped, and a plugin (or the headline) while the
/// running service hears from it. Nothing is shown active while the service
/// is stopped unless a check found it, and a stopped service without a check
/// marks nothing at all.
pub proof fn lemma_active_only_when_working(
    bridge_running: bool,
    bridge_connected: bool,
    scan_completed: bool,
    detected: bool,
    plugin_connected: bool,
    bridge_failed: bool,
)
    ensures
        connection_state_spec(bridge_running, bridge_connected, scan_completed, detected).0 == Indicator::Active
            <==> (bridge_running && bridge_connected) || (!bridge_running && scan_completed && detected),
        plugin_state_spec(bridge_running, plugin_connected).0 == Indicator::Active <==> bridge_running && plugin_connected,
        bridge_state_spec(bridge_running, plugin_connected, bridge_failed).0 == Indicator::Active
            <==> bridge_running && plugin_connected,
        !bridge_running && !scan_completed ==> connection_state_spec(bridge_running, bridge_connected, scan_completed, detected).0
            == Indicator::Inactive,
        !bridge_running ==> plugin_state_spec(bridge_running, plugin_connected).0 == Indicator::Inactive,
{
}

/// Every indicator has its own shape, so no state depends on color alone.
pub proof fn lemma_glyphs_distinct(a: Indicator, b: Indicator)
    ensures
        a != b ==> glyph_spec(a) != glyph_spec(b),
{
    reveal_strlit("●");
    reveal_strlit("○");
    reveal_strlit("－");
    reveal_strlit("×");
    if a != b && glyph_spec(a) == glyph_spec(b) {
        assert(glyph_spec(a)[0] == glyph_spec(b)[0]);
    }
}

/// True when a status message names the operation log.
pub open spec fn names_log(status: Seq<char>) -> bool {
    contains_spec(status, "動作ログ"@)
}

/// Every failure message points at the operation log: the failed check, a
/// failed command of any title, a measurement that could not start, a
/// service that could not start, and a service that stopped on its own.
pub proof fn lemma_failure_statuses_name_log(title: Seq<char>)
    ensures
        names_log("Joy-Conの確認に失敗しました。下の動作ログを確認してください。"@),
        names_log(title + "に失敗しました。下の動作ログを確認してください。"@),
        names_log("測定を開始できませんでした。下の動作ログを確認してください。"@),
        names_log("ブリッジを起動できませんでした。下の動作ログを確認してください。"@),
        names_log("振動が予期せず停止しました。動作ログを確認してください。"@),
{
    reveal_strlit("動作ログ");
    reveal_strlit("Joy-Conの確認に失敗しました。下の動作ログを確認してください。");
    reveal_strlit("に失敗しました。下の動作ログを確認してください。");
    reveal_strlit("測定を開始できませんでした。下の動作ログを確認してください。");
    reveal_strlit("ブリッジを起動できませんでした。下の動作ログを確認してください。");
    reveal_strlit("振動が予期せず停止しました。動作ログを確認してください。");
    let log = "動作ログ"@;
    let a = "Joy-Conの確認に失敗しました。下の動作ログを確認してください。"@;
    assert(a.subrange(20, 20int + log.len()) =~= log);
    let tail = "に失敗しました。下の動作ログを確認してください。"@;
    let b = title + tail;
    let k = title.len() as int + 10;
    assert(b.subrange(k, k + log.len()) =~= tail.subrange(10, 14));
    assert(tail.subrange(10, 14) =~= log);
    let c = "測定を開始できませんでした。下の動作ログを確認してください。"@;
    assert(c.subrange(16, 16int + log.len()) =~= log);
    let d = "ブリッジを起動できませんでした。下の動作ログを確認してください。"@;
    assert(d.subrange(18, 18int + log.len()) =~= log);
    let e = "振動が予期せず停止しました。動作ログを確認してください。"@;
    assert(e.subrange(14, 14int + log.len()) =~= log);
}

/// The prompt shown while the service is stopped.
pub open spec fn idle_status() -> Seq<char> {
    "Joy-Conの接続を確認してから、振動を開始してください。"@
}

/// The prompt shown while the service waits for the plugin.
pub open spec fn waiting_status() -> Seq<char> {
    "BYO Hapticsからの接続を待っています。"@
}

/// A command that the window runs through the service executable.
#[derive(Debug, Clone, Copy, PartialEq, Eq, Structural)]
pub enum CliCommand {
    DeviceScan,
    Optimize,
}

/// The title under which a command is reported.
pub open spec fn command_title(command: CliCommand) -> Seq<char> {
    match command {
        CliCommand::DeviceScan => "デバイス検索"@,
        CliCommand::Optimize => "振動の最適化"@,
    }
}

impl CliCommand {
    /// The title under which this command is reported.
    pub fn title(self) -> (r: &'static str)
        ensures
            r@ == command_title(self),
    {
        match self {
            CliCommand::DeviceScan => "デバイス検索",
            CliCommand::Optimize => "振動の最適化",
        }
    }
}

/// What the window holds between events, apart from the service process
/// itself, of which it keeps only whether it runs.
pub struct GuiState {
    pub side: Side,
    pub busy: bool,
    pub scan_completed: bool,
    pub left_detected: bool,
    pub right_detected: bool,
    pub bridge_running: bool,
    pub bridge_left_connected: bool,
    pub bridge_right_connected: bool,
    pub plugin_connected: bool,
    pub calibration_expanded: bool,
    pub log_expanded: bool,
    pub bridge_failed: bool,
    pub status: String,
    pub log: String,
}

/// The window state with its texts as character sequences.
pub struct GuiView {
    pub side: Side,
    pub busy: bool,
    pub scan_completed: bool,
    pub left_detected: bool,
    pub right_detected: bool,
    pub bridge_running: bool,
    pub bridge_left_connected: bool,
    pub bridge_right_connected: bool,
    pub plugin_connected: bool,
    pub calibration_expanded: bool,
    pub log_expanded: bool,
    pub bridge_failed: bool,
    pub status: Seq<char>,
    pub log: Seq<char>,
}

impl View for GuiState {
    type V = GuiView;

    open spec fn view(&self) -> GuiView {
        GuiView {
            side: self.side,
            busy: self.busy,
            scan_completed: self.scan_completed,
            left_detected: self.left_detected,
            right_detected: self.right_detected,
            bridge_running: self.bridge_running,
            bridge_left_connected: self.bridge_left_connected,
            bridge_right_connected: self.bridge_right_connected,
            plugin_connected: self.plugin_connected,
            calibration_expanded: self.calibration_expanded,
            log_expanded: self.log_expanded,
            bridge_failed: self.bridge_failed,
            status: self.status@,
            log: self.log@,
        }
    }
}

/// The window when it opens: right controller chosen, nothing checked,
/// service stopped, both sections closed, an empty log.
pub open spec fn initial_view() -> GuiView {
    GuiView {
        side: Side::Right,
        busy: false,
        scan_completed: false,
        left_detected: false,
        right_detected: false,
        bridge_running: false,
        bridge_left_connected: false,
        bridge_right_connected: false,
        plugin_connected: false,
        calibration_expanded: false,
        log_expanded: false,
        bridge_failed: false,
        status: idle_status(),
        log: seq![],
    }
}

/// The window after a command has finished: a device scan records which
/// controllers its output names and moves the chosen side to the one found,
/// the status line reports the outcome, the log gets a summary or the
/// translated output, and a failure opens the log.
pub open spec fn finish_spec(s: GuiView, command: CliCommand, success: bool, output: Seq<char>) -> GuiView {
    let scan = command == CliCommand::DeviceScan;
    let left = if scan { contains_spec(output, "Left Joy-Con"@) } else { s.left_detected };
    let right = if scan { contains_spec(output, "Right Joy-Con"@) } else { s.right_detected };
    let side = if !scan {
        s.side
    } else if s.side == Side::Left && !left && right {
        Side::Right
    } else if s.side == Side::Right && !right && left {
        Side::Left
    } else {
        s.side
    };
    let status = if scan {
        if !success {
            "Joy-Conの確認に失敗しました。下の動作ログを確認してください。"@
        } else if left || right {
            "接続済みJoy-Conを更新しました。"@
        } else {
            "Joy-Conが見つかりません。ボタンを押して再検索してください。"@
        }
    } else if success {
        command_title(command) + "が正常に完了しました。"@
    } else {
        command_title(command) + "に失敗しました。下の動作ログを確認してください。"@
    };
    let log = if scan && success {
        if left && right {
            "左右両方のJoy-Conが見つかりました。"@
        } else if left {
            "Joy-Con (L)だけが見つかりました。Joy-Con (R)を接続してください。"@
        } else if right {
            "Joy-Con (R)だけが見つかりました。Joy-Con (L)を接続してください。"@
        } else {
            "Joy-Conが見つかりませんでした。"@
        }
    } else if success {
        "振動の最適化が完了しました。"@
    } else {
        localize_spec(output)
    };
    GuiView {
        side: side,
        busy: false,
        scan_completed: s.scan_completed || scan,
        left_detected: left,
        right_detected: right,
        log_expanded: s.log_expanded || !success,
        status: status,
        log: log,
        ..s
    }
}

/// The window after reading the service log while the service runs: each
/// connection shows what the log last reported, and the status line changes
/// only when the plugin connects or goes away.
pub open spec fn refresh_spec(s: GuiView, log: Seq<char>) -> GuiView {
    let plugin = last_status_spec(log, "plugin"@) == Some("connected"@);
    GuiView {
        bridge_left_connected: last_status_spec(log, "joycon-left"@) == Some("connected"@),
        bridge_right_connected: last_status_spec(log, "joycon-right"@) == Some("connected"@),
        plugin_connected: plugin,
        status: if plugin == s.plugin_connected {
            s.status
        } else if plugin {
            "BYO Hapticsからの信号でJoy-Conが振動します。"@
        } else {
            waiting_status()
        },
        ..s
    }
}

impl Default for GuiState {
    /// The window when it opens.
    fn default() -> (s: Self)
        ensures
            s@ == initial_view(),
    {
        GuiState {
            side: Side::Right,
            busy: false,
            scan_completed: false,
            left_detected: false,
            right_detected: false,
            bridge_running: false,
            bridge_left_connected: false,
            bridge_right_connected: false,
            plugin_connected: false,
            calibration_expanded: false,
            log_expanded: false,
            bridge_failed: false,
            status: "Joy-Conの接続を確認してから、振動を開始してください。".to_owned(),
            log: String::new(),
        }
    }
}

impl GuiState {
    /// The window when it opens.
    pub fn new() -> (s: Self)
        ensures
            s@ == initial_view(),
    {
        GuiState::default()
    }

    /// Chooses the controller to measure.
    pub fn select_side(&mut self, side: Side)
        ensures
            final(self)@ == (GuiView { side: side, ..old(self)@ }),
    {
        self.side = side;
    }

    /// Starts a device scan unless a command is running; says whether the
    /// caller should run it.
    pub fn begin_scan(&mut self) -> (started: bool)
        ensures
            started == !old(self).busy,
            started ==> final(self)@ == (GuiView { busy: true, status: "Joy-Conを検索しています…"@, ..old(self)@ }),
            !started ==> final(self)@ == old(self)@,
    {
        if self.busy {
            return false;
        }
        self.busy = true;
        self.status = "Joy-Conを検索しています…".to_owned();
        true
    }

    /// Whether a measurement may start: no command runs and the service is
    /// stopped.
    pub fn can_measure(&self) -> (r: bool)
        ensures
            r == (!self.busy && !self.bridge_running),
    {
        !self.busy && !self.bridge_running
    }

    /// Whether the measure button is offered: a measurement may start and
    /// the last check found the chosen controller.
    pub fn measure_enabled(&self) -> (r: bool)
        ensures
            r == (!self.busy && !self.bridge_running && match self.side {
                Side::Left => self.left_detected,
                Side::Right => self.right_detected,
            }),
    {
        let selected_detected = match self.side {
            Side::Left => self.left_detected,
            Side::Right => self.right_detected,
        };
        !self.busy && !self.bridge_running && selected_detected
    }

    /// Reports that the measurement could not be prepared, with the reason
    /// in the log, which opens.
    pub fn measure_failed(&mut self, error: String)
        ensures
            final(self)@ == (GuiView {
                status: "測定を開始できませんでした。下の動作ログを確認してください。"@,
                log: error@,
                log_expanded: true,
                ..old(self)@
            }),
            names_log(final(self).status@),
    {
        proof {
            lemma_failure_statuses_name_log(seq![]);
        }
        self.status = "測定を開始できませんでした。下の動作ログを確認してください。".to_owned();
        self.log = error;
        self.log_expanded = true;
    }

    /// Starts measuring the chosen controller and returns the arguments of
    /// the sweep command that writes its samples to `output_path` and its
    /// profile to `profile_path`.
    pub fn begin_measure(&mut self, output_path: &str, profile_path: &str) -> (args: Vec<String>)
        ensures
            final(self)@ == (GuiView {
                busy: true,
                status: side_name(old(self).side) + "を測定しています。約1分間、動かさないでください…"@,
                ..old(self)@
            }),
            args@.len() == 7,
            args@[0]@ == "joycon-imu-sweep"@,
            args@[1]@ == "--side"@,
            args@[2]@ == (match old(self).side {
                Side::Left => "left"@,
                Side::Right => "right"@,
            }),
            args@[3]@ == "--output"@,
            args@[4]@ == output_path@,
            args@[5]@ == "--profile"@,
            args@[6]@ == profile_path@,
    {
        self.busy = true;
        let mut status = self.side.display_name().to_owned();
        status.append("を測定しています。約1分間、動かさないでください…");
        self.status = status;
        let mut args: Vec<String> = Vec::new();
        args.push("joycon-imu-sweep".to_owned());
        args.push("--side".to_owned());
        args.push(self.side.argument().to_owned());
        args.push("--output".to_owned());
        args.push(output_path.to_owned());
        args.push("--profile".to_owned());
        args.push(profile_path.to_owned());
        args
    }

    /// Records the outcome of a command: its kind, whether it succeeded and
    /// what it printed.
    pub fn finish_command(&mut self, command: CliCommand, success: bool, output: &str)
        ensures
            final(self)@ == finish_spec(old(self)@, command, success, output@),
            !success ==> final(self).log_expanded && names_log(final(self).status@),

    {
        proof {
            lemma_failure_statuses_name_log(command_title(command));
        }
        let scan = command == CliCommand::DeviceScan;
        self.busy = false;
        if !success {
            self.log_expanded = true;
        }
        if scan {
            let text = chars_of(output);
            self.scan_completed = true;
            self.left_detected = contains_chars(&text, &chars_of("Left Joy-Con"));
            self.right_detected = contains_chars(&text, &chars_of("Right Joy-Con"));
            if self.side == Side::Left && !self.left_detected && self.right_detected {
                self.side = Side::Right;
            } else if self.side == Side::Right && !self.right_detected && self.left_detected {
                self.side = Side::Left;
            }
        }
        self.status = if scan {
            if !success {
                "Joy-Conの確認に失敗しました。下の動作ログを確認してください。".to_owned()
            } else if self.left_detected || self.right_detected {
                "接続済みJoy-Conを更新しました。".to_owned()
            } else {
                "Joy-Conが見つかりません。ボタンを押して再検索してください。".to_owned()
            }
        } else if success {
            let mut m = command.title().to_owned();
            m.append("が正常に完了しました。");
            m
        } else {
            let mut m = command.title().to_owned();
            m.append("に失敗しました。下の動作ログを確認してください。");
            m
        };
        self.log = if scan && success {
            if self.left_detected && self.right_detected {
                "左右両方のJoy-Conが見つかりました。".to_owned()
            } else if self.left_detected {
                "Joy-Con (L)だけが見つかりました。Joy-Con (R)を接続してください。".to_owned()
            } else if self.right_detected {
                "Joy-Con (R)だけが見つかりました。Joy-Con (L)を接続してください。".to_owned()
            } else {
                "Joy-Conが見つかりませんでした。".to_owned()
            }
        } else if success {
            "振動の最適化が完了しました。".to_owned()
        } else {
            localize_cli_output(output)
        };
    }

    /// Prepares to start the service unless a command runs or the service
    /// already runs: the last check no longer holds once the service owns
    /// the controllers. Says whether the caller should start it.
    pub fn begin_start(&mut self) -> (start: bool)
        ensures
            start == (!old(self).busy && !old(self).bridge_running),
            start ==> final(self)@ == (GuiView {
                bridge_failed: false,
                scan_completed: false,
                left_detected: false,
                right_detected: false,
                ..old(self)@
            }),
            !start ==> final(self)@ == old(self)@,
    {
        if self.busy || self.bridge_running {
            return false;
        }
        self.bridge_failed = false;
        self.scan_completed = false;
        self.left_detected = false;
        self.right_detected = false;
        true
    }

    /// Records that the service started and now waits for the plugin.
    pub fn bridge_started(&mut self)
        ensures
            final(self)@ == (GuiView {
                bridge_running: true,
                bridge_left_connected: false,
                bridge_right_connected: false,
                plugin_connected: false,
                status: waiting_status(),
                ..old(self)@
            }),
    {
        self.bridge_running = true;
        self.bridge_left_connected = false;
        self.bridge_right_connected = false;
        self.plugin_connected = false;
        self.status = "BYO Hapticsからの接続を待っています。".to_owned();
    }

    /// Reports that the service could not be started, with the reason in the
    /// log, which opens.
    pub fn bridge_start_failed(&mut self, error: String)
        ensures
            final(self)@ == (GuiView {
                status: "ブリッジを起動できませんでした。下の動作ログを確認してください。"@,
                log: error@,
                log_expanded: true,
                ..old(self)@
            }),
            names_log(final(self).status@),
    {
        proof {
            lemma_failure_statuses_name_log(seq![]);
        }
        self.status = "ブリッジを起動できませんでした。下の動作ログを確認してください。".to_owned();
        self.log = error;
        self.log_expanded = true;
    }

    /// Stops the service if it runs; says whether the caller should end the
    /// process.
    pub fn stop_bridge(&mut self) -> (was_running: bool)
        ensures
            was_running == old(self).bridge_running,
            was_running ==> final(self)@ == (GuiView { bridge_running: false, status: idle_status(), ..old(self)@ }),
            !was_running ==> final(self)@ == old(self)@,
    {
        if !self.bridge_running {
            return false;
        }
        self.bridge_running = false;
        self.status = "Joy-Conの接続を確認してから、振動を開始してください。".to_owned();
        true
    }

    /// Opens or closes the measurement section.
    pub fn toggle_calibration(&mut self)
        ensures
            final(self)@ == (GuiView { calibration_expanded: !old(self).calibration_expanded, ..old(self)@ }),
    {
        self.calibration_expanded = !self.calibration_expanded;
    }

    /// Opens or closes the log section.
    pub fn toggle_log(&mut self)
        ensures
            final(self)@ == (GuiView { log_expanded: !old(self).log_expanded, ..old(self)@ }),
    {
        self.log_expanded = !self.log_expanded;
    }

    /// Records that the service stopped on its own. The log shows the
    /// translated service log, or why it could not be read, and opens.
    pub fn bridge_exited(&mut self, service_log: Result<String, String>)
        ensures
            final(self)@ == (GuiView {
                bridge_running: false,
                plugin_connected: false,
                bridge_failed: true,
                log_expanded: true,
                status: "振動が予期せず停止しました。動作ログを確認してください。"@,
                log: match service_log {
                    Ok(text) => localize_spec(text@),
                    Err(error) => error@,
                },
                ..old(self)@
            }),
            names_log(final(self).status@),
    {
        proof {
            lemma_failure_statuses_name_log(seq![]);
        }
        self.bridge_running = false;
        self.plugin_connected = false;
        self.bridge_failed = true;
        self.log_expanded = true;
        self.status = "振動が予期せず停止しました。動作ログを確認してください。".to_owned();
        self.log = match service_log {
            Ok(text) => localize_cli_output(&text),
            Err(error) => error,
        };
    }

    /// Updates the connection rows from the service log.
    pub fn refresh_from_log(&mut self, log: &str)
        ensures
            final(self)@ == refresh_spec(old(self)@, log@),
    {
        let was_connected = self.plugin_connected;
        self.bridge_left_connected = is_connected(last_status(log, "joycon-left"));
        self.bridge_right_connected = is_connected(last_status(log, "joycon-right"));
        self.plugin_connected = is_connected(last_status(log, "plugin"));
        if self.plugin_connected != was_connected {
            self.status = if self.plugin_connected {
                "BYO Hapticsからの信号でJoy-Conが振動します。".to_owned()
            } else {
                "BYO Hapticsからの接続を待っています。".to_owned()
            };
        }
    }

    /// The headline of the window.
    pub fn headline(&self) -> (r: (Indicator, &'static str))
        ensures
            (r.0, r.1@) == bridge_state_spec(self.bridge_running, self.plugin_connected, self.bridge_failed),
    {
        bridge_state(self.bridge_running, self.plugin_connected, self.bridge_failed)
    }
}

/// Whether a reported status value is `connected`.
fn is_connected(value: Option<&str>) -> (r: bool)
    ensures
        r == (value matches Some(v) && v@ == "connected"@),
{
    match value {
        Some(v) => {
            let c = chars_of(v);
            let expected = chars_of("connected");
            crate::text::chars_eq(&c, &expected)
        },
        None => false,
    }
}

/// A text holds whatever its middle part holds.
proof fn lemma_contains_concat(a: Seq<char>, b: Seq<char>, c: Seq<char>, pat: Seq<char>)
    requires
        contains_spec(b, pat),
    ensures
        contains_spec(a + b + c, pat),
{
    let i = choose|i: int| 0 <= i && i + pat.len() <= b.len() && #[trigger] b.subrange(i, i + pat.len()) == pat;
    let t = a + b + c;
    let j = a.len() + i;
    assert(t.subrange(j, j + pat.len()) =~= b.subrange(i, i + pat.len()));
}

/// After a device scan, a side counts as detected exactly when the output
/// names that Joy-Con; when exactly one side is detected, the chosen side
/// becomes that side whichever side was chosen before, and when both or
/// neither are detected the chosen side stays as it was. So a scan that
/// finds any controller leaves a found controller chosen.
pub proof fn lemma_scan_selects_the_only_detected_side(s: GuiView, success: bool, output: Seq<char>)
    ensures
        finish_spec(s, CliCommand::DeviceScan, success, output).left_detected == contains_spec(output, "Left Joy-Con"@),
        finish_spec(s, CliCommand::DeviceScan, success, output).right_detected == contains_spec(output, "Right Joy-Con"@),
        contains_spec(output, "Left Joy-Con"@) && !contains_spec(output, "Right Joy-Con"@)
            ==> finish_spec(s, CliCommand::DeviceScan, success, output).side == Side::Left,
        !contains_spec(output, "Left Joy-Con"@) && contains_spec(output, "Right Joy-Con"@)
            ==> finish_spec(s, CliCommand::DeviceScan, success, output).side == Side::Right,
        contains_spec(output, "Left Joy-Con"@) == contains_spec(output, "Right Joy-Con"@)
            ==> finish_spec(s, CliCommand::DeviceScan, success, output).side == s.side,
        contains_spec(output, "Left Joy-Con"@) || contains_spec(output, "Right Joy-Con"@) ==> match finish_spec(
            s,
            CliCommand::DeviceScan,
            success,
            output,
        ).side {
            Side::Left => contains_spec(output, "Left Joy-Con"@),
            Side::Right => contains_spec(output, "Right Joy-Con"@),
        },
{
}

/// A device scan whose output holds the listing line of a Joy-Con marks
/// that side detected, whatever else the output holds.
pub proof fn lemma_scan_detects_listed_joycon(
    s: GuiView,
    success: bool,
    before: Seq<char>,
    after: Seq<char>,
    side: JoyConSide,
    number: nat,
    vendor_id: u16,
    product_id: u16,
    product: Seq<char>,
    serial: Seq<char>,
    path: Seq<char>,
)
    ensures
        ({
            let label = match side {
                JoyConSide::Left => "Left"@,
                JoyConSide::Right => "Right"@,
            };
            let output = before + listing_line_spec(number, label, vendor_id, product_id, product, serial, path) + after;
            match side {
                JoyConSide::Left => finish_spec(s, CliCommand::DeviceScan, success, output).left_detected,
                JoyConSide::Right => finish_spec(s, CliCommand::DeviceScan, success, output).right_detected,
            }
        }),
{
    reveal_strlit("Left");
    reveal_strlit("Right");
    reveal_strlit(" Joy-Con ");
    reveal_strlit("Left Joy-Con");
    reveal_strlit("Right Joy-Con");
    let label = match side {
        JoyConSide::Left => "Left"@,
        JoyConSide::Right => "Right"@,
    };
    let named = match side {
        JoyConSide::Left => "Left Joy-Con"@,
        JoyConSide::Right => "Right Joy-Con"@,
    };
    let line = listing_line_spec(number, label, vendor_id, product_id, product, serial, path);
    let head = decimal_spec(number) + ". "@;
    let k = head.len() as int;
    let rest = " Joy-Con "@ + listing_tail(vendor_id, product_id, product, serial, path);
    assert(line =~= head + label + rest);
    assert(line.subrange(k, k + named.len()) =~= named);
    assert(contains_spec(line, named));
    lemma_contains_concat(before, line, after, named);
}

/// The part of a listing line after its side, past the first space.
spec fn listing_tail(vendor_id: u16, product_id: u16, product: Seq<char>, serial: Seq<char>, path: Seq<char>) -> Seq<char> {
    crate::joycon::hex4_spec(vendor_id) + ":"@ + crate::joycon::hex4_spec(product_id) + " product=\""@ + product
        + "\" serial=\""@ + serial + "\" path=\""@ + path + "\""@
}

} // verus!
