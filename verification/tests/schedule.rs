use joycon_rumble_bridge::schedule::{
    PeriodicDeadline, ServiceSchedule, TickActions, OUTPUT_REFRESH_NS, SENSATION_FRAME_NS,
};

fn ms(value: u64) -> u64 {
    std::time::Duration::from_millis(value).as_nanos() as u64
}

#[test]
fn deadline_runs_once_per_interval() {
    let start = 1_000_000_000;
    let mut deadline = PeriodicDeadline::new(start, ms(15));
    assert!(deadline.take_due(start));
    assert!(!deadline.take_due(start + ms(14)));
    assert!(deadline.take_due(start + ms(15)));
    assert!(!deadline.take_due(start + ms(16)));
}

#[test]
fn heartbeat_restore_can_trigger_sensation_frame_immediately() {
    let start = 1_000_000_000;
    let mut deadline = PeriodicDeadline::new(start, ms(50));
    assert!(deadline.take_due(start));
    let restored = start + ms(10);
    deadline.trigger_now(restored);
    assert!(deadline.take_due(restored));
}

#[test]
fn late_deadline_restarts_from_the_late_time() {
    let mut deadline = PeriodicDeadline::new(0, ms(15));
    assert!(deadline.take_due(ms(40)));
    assert!(!deadline.take_due(ms(54)));
    assert!(deadline.take_due(ms(55)));
}

#[test]
fn service_pass_reports_liveness_changes_once() {
    let mut schedule = ServiceSchedule::new(0, ms(50), ms(15));
    let first = schedule.tick(true, false, 0);
    assert_eq!(
        first,
        TickActions {
            plugin_status: Some(true),
            stop_all: false,
            new_frame: true,
            refresh_outputs: true,
        }
    );
    let second = schedule.tick(true, false, ms(16));
    assert_eq!(second.plugin_status, None);
    assert!(!second.new_frame);
    assert!(second.refresh_outputs);
}

#[test]
fn service_pass_stops_on_timeout_and_waits_while_dead() {
    let mut schedule = ServiceSchedule::new(0, ms(50), ms(15));
    schedule.tick(true, false, 0);
    let timeout = schedule.tick(false, true, ms(2000));
    assert_eq!(
        timeout,
        TickActions {
            plugin_status: Some(false),
            stop_all: true,
            new_frame: false,
            refresh_outputs: false,
        }
    );
    let idle = schedule.tick(false, false, ms(3000));
    assert_eq!(
        idle,
        TickActions {
            plugin_status: None,
            stop_all: false,
            new_frame: false,
            refresh_outputs: false,
        }
    );
}

#[test]
fn restored_heartbeat_makes_a_frame_due_at_once() {
    let mut schedule = ServiceSchedule::new(0, ms(50), ms(15));
    schedule.tick(true, false, 0);
    assert!(!schedule.tick(true, false, ms(10)).new_frame);
    schedule.heartbeat_restored(ms(11));
    assert!(schedule.tick(true, false, ms(11)).new_frame);
}

#[test]
fn the_service_frames_every_50_ms_and_refreshes_every_15_ms() {
    assert_eq!(SENSATION_FRAME_NS, ms(50));
    assert_eq!(OUTPUT_REFRESH_NS, ms(15));
    let mut schedule = ServiceSchedule::standard(0);
    assert!(schedule.tick(true, false, 0).new_frame);
    let at_15 = schedule.tick(true, false, ms(15));
    assert!(at_15.refresh_outputs && !at_15.new_frame);
    assert!(schedule.tick(true, false, ms(50)).new_frame);
}
