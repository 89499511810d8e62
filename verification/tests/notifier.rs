use door_node::door::NotificationEvent;
use door_node::notifier::{emitted_events, run_ticks, tick, SensorNotifier, POLL_INTERVAL_MS};

#[test]
fn emits_once_per_level_change() {
    let levels = vec![false, false, true, true, true, false];
    let evs = emitted_events(false, &levels);
    assert_eq!(evs, vec![NotificationEvent::DoorOpened, NotificationEvent::DoorClosed]);
}

#[test]
fn rapid_reopen_is_reported() {
    let levels = vec![true, true, false, true];
    let evs = emitted_events(false, &levels);
    assert_eq!(
        evs,
        vec![
            NotificationEvent::DoorOpened,
            NotificationEvent::DoorClosed,
            NotificationEvent::DoorOpened,
        ]
    );
}

#[test]
fn no_readings_no_events() {
    let levels: Vec<bool> = vec![];
    let evs = emitted_events(false, &levels);
    assert!(evs.is_empty());
}

#[test]
fn steady_high_emits_one_opened() {
    let levels = vec![true, true, true, true, true];
    let evs = emitted_events(false, &levels);
    assert_eq!(evs, vec![NotificationEvent::DoorOpened]);
}

#[test]
fn steady_low_from_notified_emits_one_closed() {
    let levels = vec![false, false, false];
    let evs = emitted_events(true, &levels);
    assert_eq!(evs, vec![NotificationEvent::DoorClosed]);
}

#[test]
fn tick_covers_all_latch_cases() {
    assert_eq!(tick(false, true), (true, Some(NotificationEvent::DoorOpened)));
    assert_eq!(tick(true, false), (false, Some(NotificationEvent::DoorClosed)));
    assert_eq!(tick(false, false), (false, None));
    assert_eq!(tick(true, true), (true, None));
}

#[test]
fn poll_latches_between_ticks() {
    let mut n = SensorNotifier::new();
    assert_eq!(n.poll(false), None);
    assert_eq!(n.poll(true), Some(NotificationEvent::DoorOpened));
    assert_eq!(n.poll(true), None);
    assert_eq!(n.poll(false), Some(NotificationEvent::DoorClosed));
    assert_eq!(n.poll(false), None);
}

#[test]
fn initial_reading_sets_the_baseline() {
    let mut n = SensorNotifier::with_initial_level(true);
    assert_eq!(n.poll(true), None);
    assert_eq!(n.poll(false), Some(NotificationEvent::DoorClosed));
}

#[test]
fn run_without_failures_sends_everything() {
    let levels = vec![false, true, true, false, true];
    let write_ok = vec![true, true, true];
    let log = run_ticks(false, &levels, &write_ok);
    assert_eq!(
        log.sent,
        vec![
            NotificationEvent::DoorOpened,
            NotificationEvent::DoorClosed,
            NotificationEvent::DoorOpened,
        ]
    );
    assert!(!log.write_failed);
    assert_eq!(log.ticks, 5);
}

#[test]
fn write_failure_stops_the_run() {
    let levels = vec![false, false, true, true, false, true];
    let write_ok = vec![true, false];
    let log = run_ticks(false, &levels, &write_ok);
    assert_eq!(log.sent, vec![NotificationEvent::DoorOpened]);
    assert!(log.write_failed);
    assert_eq!(log.ticks, 5);
}

#[test]
fn failure_on_first_write_sends_nothing() {
    let levels = vec![true, false, true];
    let write_ok = vec![false];
    let log = run_ticks(false, &levels, &write_ok);
    assert!(log.sent.is_empty());
    assert!(log.write_failed);
    assert_eq!(log.ticks, 1);
}

#[test]
fn outcomes_beyond_the_record_succeed() {
    let levels = vec![true, false];
    let write_ok: Vec<bool> = vec![];
    let log = run_ticks(false, &levels, &write_ok);
    assert_eq!(
        log.sent,
        vec![NotificationEvent::DoorOpened, NotificationEvent::DoorClosed]
    );
    assert!(!log.write_failed);
    assert_eq!(log.ticks, 2);
}

#[test]
fn notifications_always_alternate() {
    let levels = vec![true, true, false, false, true, false, true, true, false];
    let evs = emitted_events(false, &levels);
    assert_eq!(evs.len(), 6);
    for pair in evs.windows(2) {
        assert_ne!(pair[0], pair[1]);
    }
}

#[test]
fn poll_cadence_is_fifty_milliseconds() {
    assert_eq!(POLL_INTERVAL_MS, 50);
}
