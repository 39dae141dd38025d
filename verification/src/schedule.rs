//! A deadline that fires at most once per interval.
//!
//! Times are monotonic nanosecond counts; intervals are nanoseconds.
use vstd::prelude::*;

verus! {

/// A periodic deadline: due at or after `next`.
#[derive(Debug)]
pub struct PeriodicDeadline {
    interval: u64,
    next: u64,
}

/// The state of a deadline: its interval and the time it is next due.
pub struct DeadlineModel {
    pub interval: u64,
    pub next: u64,
}

impl View for PeriodicDeadline {
    type V = DeadlineModel;

    closed spec fn view(&self) -> DeadlineModel {
        DeadlineModel { interval: self.interval, next: self.next }
    }
}

/// What asking whether the deadline is due at `now` does: the next state and
/// the answer.
pub open spec fn take_due_spec(d: DeadlineModel, now: u64) -> (DeadlineModel, bool) {
    if now < d.next {
        (d, false)
    } else {
        (DeadlineModel { next: (now + d.interval) as u64, ..d }, true)
    }
}

impl PeriodicDeadline {
    /// A deadline due at once and then every `interval`.
    pub fn new(now: u64, interval: u64) -> (r: Self)
        ensures
            r@.interval == interval,
            r@.next == now,
    {
        PeriodicDeadline { interval, next: now }
    }

    /// True when the deadline is due at `now`; it is then next due one interval
    /// after `now`.
    pub fn take_due(&mut self, now: u64) -> (r: bool)
        requires
            now + old(self)@.interval <= u64::MAX,
        ensures
            (final(self)@, r) == take_due_spec(old(self)@, now),
    {
        if now < self.next {
            return false;
        }
        self.next = now + self.interval;
        true
    }

    /// Makes the deadline due at `now`.
    pub fn trigger_now(&mut self, now: u64)
        ensures
            final(self)@ == (DeadlineModel { next: now, ..old(self)@ }),
    {
        self.next = now;
    }
}

/// Once a deadline fires at `now`, it does not fire again before `now` plus the
/// interval, and fires at any time from then on.
pub proof fn lemma_fires_once_per_interval(d: DeadlineModel, now: u64, later: u64)
    requires
        take_due_spec(d, now).1,
        now + d.interval <= u64::MAX,
        now <= later,
    ensures
        take_due_spec(take_due_spec(d, now).0, later).1 == (later >= now + d.interval),
{
}

/// A deadline triggered at `now` is due at `now`.
pub proof fn lemma_trigger_makes_due(d: DeadlineModel, now: u64)
    ensures
        take_due_spec(DeadlineModel { next: now, ..d }, now).1,
{
}

/// The time between sensation frames: 50 ms.
pub const SENSATION_FRAME_NS: u64 = 50_000_000;

/// The time between rumble refreshes of the controllers: 15 ms.
pub const OUTPUT_REFRESH_NS: u64 = 15_000_000;

/// What the service does on one pass of its loop, once it knows whether the
/// plugin's heartbeat is alive and whether it has just timed out.
#[derive(Debug, Clone, Copy, PartialEq, Eq, Structural)]
pub struct TickActions {
    /// The new plugin state to report, when it changed.
    pub plugin_status: Option<bool>,
    /// Stop both controllers: the heartbeat has just timed out.
    pub stop_all: bool,
    /// Compute the next sensation frame.
    pub new_frame: bool,
    /// Refresh the controllers' rumble.
    pub refresh_outputs: bool,
}

/// The service's output timing: the frame and refresh deadlines and the last
/// plugin state it reported.
#[derive(Debug)]
pub struct ServiceSchedule {
    plugin_connected: bool,
    frames: PeriodicDeadline,
    outputs: PeriodicDeadline,
}

/// The state of the service's output timing.
pub struct ScheduleModel {
    pub plugin_connected: bool,
    pub frames: DeadlineModel,
    pub outputs: DeadlineModel,
}

impl View for ServiceSchedule {
    type V = ScheduleModel;

    closed spec fn view(&self) -> ScheduleModel {
        ScheduleModel { plugin_connected: self.plugin_connected, frames: self.frames@, outputs: self.outputs@ }
    }
}

/// One pass of the loop at `now`: a change of the plugin's liveness is
/// reported; a timeout stops everything and nothing else happens; while the
/// heartbeat lives, the frame and refresh deadlines are asked in turn.
pub open spec fn tick_spec(m: ScheduleModel, heartbeat_valid: bool, timed_out: bool, now: u64) -> (ScheduleModel, TickActions) {
    let plugin_status = if heartbeat_valid != m.plugin_connected { Some(heartbeat_valid) } else { None };
    if timed_out || !heartbeat_valid {
        (
            ScheduleModel { plugin_connected: heartbeat_valid, ..m },
            TickActions { plugin_status, stop_all: timed_out, new_frame: false, refresh_outputs: false },
        )
    } else {
        let (frames, new_frame) = take_due_spec(m.frames, now);
        let (outputs, refresh_outputs) = take_due_spec(m.outputs, now);
        (
            ScheduleModel { plugin_connected: heartbeat_valid, frames, outputs },
            TickActions { plugin_status, stop_all: false, new_frame, refresh_outputs },
        )
    }
}

impl ServiceSchedule {
    /// Frames every `frame_interval` and refreshes every `output_interval`,
    /// both due at once; the plugin is not yet reported connected.
    pub fn new(now: u64, frame_interval: u64, output_interval: u64) -> (r: Self)
        ensures
            !r@.plugin_connected,
            r@.frames == (DeadlineModel { interval: frame_interval, next: now }),
            r@.outputs == (DeadlineModel { interval: output_interval, next: now }),
    {
        ServiceSchedule {
            plugin_connected: false,
            frames: PeriodicDeadline::new(now, frame_interval),
            outputs: PeriodicDeadline::new(now, output_interval),
        }
    }

    /// The service's timing: a sensation frame every 50 ms and a rumble
    /// refresh every 15 ms, both due at once.
    pub fn standard(now: u64) -> (r: Self)
        ensures
            !r@.plugin_connected,
            r@.frames == (DeadlineModel { interval: SENSATION_FRAME_NS, next: now }),
            r@.outputs == (DeadlineModel { interval: OUTPUT_REFRESH_NS, next: now }),
            r@.frames.interval == 50_000_000,
            r@.outputs.interval == 15_000_000,
    {
        ServiceSchedule::new(now, SENSATION_FRAME_NS, OUTPUT_REFRESH_NS)
    }

    /// Makes the next frame due at `now`, as a restored heartbeat does.
    pub fn heartbeat_restored(&mut self, now: u64)
        ensures
            final(self)@.frames == (DeadlineModel { next: now, ..old(self)@.frames }),
            final(self)@.outputs == old(self)@.outputs,
            final(self)@.plugin_connected == old(self)@.plugin_connected,
    {
        self.frames.trigger_now(now);
    }

    /// Decides one pass of the loop at `now`.
    pub fn tick(&mut self, heartbeat_valid: bool, timed_out: bool, now: u64) -> (r: TickActions)
        requires
            now + old(self)@.frames.interval <= u64::MAX,
            now + old(self)@.outputs.interval <= u64::MAX,
        ensures
            (final(self)@, r) == tick_spec(old(self)@, heartbeat_valid, timed_out, now),
    {
        let plugin_status = if heartbeat_valid != self.plugin_connected { Some(heartbeat_valid) } else { None };
        self.plugin_connected = heartbeat_valid;
        if timed_out || !heartbeat_valid {
            return TickActions { plugin_status, stop_all: timed_out, new_frame: false, refresh_outputs: false };
        }
        let new_frame = self.frames.take_due(now);
        let refresh_outputs = self.outputs.take_due(now);
        TickActions { plugin_status, stop_all: false, new_frame, refresh_outputs }
    }
}

/// The plugin's state is reported once per change: right after a pass has
/// reported it, a pass with the same liveness reports nothing.
pub proof fn lemma_plugin_status_reported_once(m: ScheduleModel, valid: bool, timed_out: bool, later_timed_out: bool, now: u64, later: u64)
    ensures
        tick_spec(tick_spec(m, valid, timed_out, now).0, valid, later_timed_out, later).1.plugin_status is None,
{
}

/// While the heartbeat lives, a pass computes a frame exactly when the frame
/// deadline has come and refreshes the controllers exactly when the refresh
/// deadline has come, each deadline then moving one of its own intervals past
/// `now`; without a live heartbeat neither happens and both deadlines stay.
/// Each pass remembers the liveness it saw and reports it when it differs
/// from the one reported before.
pub proof fn lemma_tick_follows_own_deadlines(m: ScheduleModel, heartbeat_valid: bool, timed_out: bool, now: u64)
    requires
        now + m.frames.interval <= u64::MAX,
        now + m.outputs.interval <= u64::MAX,
    ensures
        ({
            let (n, a) = tick_spec(m, heartbeat_valid, timed_out, now);
            &&& heartbeat_valid && !timed_out ==> {
                &&& a.new_frame == (now >= m.frames.next)
                &&& a.refresh_outputs == (now >= m.outputs.next)
                &&& n.frames.interval == m.frames.interval
                &&& n.outputs.interval == m.outputs.interval
                &&& n.frames.next == (if a.new_frame { now + m.frames.interval } else { m.frames.next as int })
                &&& n.outputs.next == (if a.refresh_outputs { now + m.outputs.interval } else { m.outputs.next as int })
            }
            &&& !heartbeat_valid || timed_out ==> !a.new_frame && !a.refresh_outputs && n.frames == m.frames && n.outputs == m.outputs
            &&& a.stop_all == timed_out
            &&& n.plugin_connected == heartbeat_valid
            &&& (a.plugin_status is Some <==> heartbeat_valid != m.plugin_connected)
            &&& (a.plugin_status is Some ==> a.plugin_status == Some(heartbeat_valid))
        }),
{
}

/// A timeout stops the controllers and neither computes a frame nor
/// refreshes them in the same pass.
pub proof fn lemma_timeout_stops_output(m: ScheduleModel, valid: bool, now: u64)
    ensures
        tick_spec(m, valid, true, now).1.stop_all,
        !tick_spec(m, valid, true, now).1.new_frame,
        !tick_spec(m, valid, true, now).1.refresh_outputs,
{
}

} // verus!
