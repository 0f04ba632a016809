use heimdall::scheduler::{
    service_is_active, should_ping, Clock, Delivery, FlushScheduler, FlushState, FLUSH_INTERVAL,
    HTTP_OK, PING_INTERVAL,
};
use heimdall::stats::{Dump, Event};

#[test]
fn intervals() {
    assert_eq!(FLUSH_INTERVAL, 10_000);
    assert_eq!(PING_INTERVAL, 60_000);
    assert_eq!(HTTP_OK, 200);
}

#[test]
fn clock_is_due_after_its_interval() {
    let clock = Clock::new(1_000, 60_000);
    assert!(!clock.is_due(1_000));
    assert!(!clock.is_due(60_999));
    assert!(clock.is_due(61_000));
    assert!(clock.is_due(u64::MAX));
    assert!(!clock.is_due(0));
    assert!(Clock::new(5, 0).is_due(0));
}

#[test]
fn clock_counts_anew_once_it_fired() {
    let mut clock = Clock::new(0, PING_INTERVAL);
    assert!(!clock.poll(59_999));
    assert_eq!(clock, Clock { last: 0, interval: PING_INTERVAL });
    assert!(clock.poll(60_500));
    assert_eq!(clock, Clock { last: 60_500, interval: PING_INTERVAL });
    assert!(!clock.poll(120_499));
    assert!(clock.poll(120_500));
}

#[test]
fn delivery_of_status() {
    assert_eq!(Delivery::of_status(200), Delivery::Accepted);
    assert_eq!(Delivery::of_status(201), Delivery::Refused(201));
    assert_eq!(Delivery::of_status(500), Delivery::Refused(500));
    assert!(!Delivery::Accepted.is_failure());
    assert!(Delivery::Refused(404).is_failure());
    assert!(Delivery::Failed.is_failure());
}

#[test]
fn empty_window_is_not_flushed_and_keeps_the_clock() {
    let mut scheduler = FlushScheduler::new(0);
    let mut dump = Dump::new();
    assert!(scheduler.poll(10_000, &mut dump).is_none());
    assert!(scheduler.poll(25_000, &mut dump).is_none());
    assert_eq!(scheduler, FlushScheduler::new(0));
    dump.record(Event { status: 200, latency_ms: 5 });
    let sent = scheduler.poll(25_001, &mut dump).expect("the first event is flushed at once");
    assert_eq!(sent.total(), 1);
    assert_eq!(dump.total(), 0);
    assert_eq!(scheduler.state, FlushState::Flushing);
    assert_eq!(scheduler.clock.last, 0);
}

#[test]
fn window_waits_for_the_interval() {
    let mut scheduler = FlushScheduler::new(100);
    let mut dump = Dump::new();
    dump.record(Event { status: 200, latency_ms: 5 });
    assert!(scheduler.poll(10_099, &mut dump).is_none());
    assert_eq!(dump.total(), 1);
    assert!(scheduler.poll(10_100, &mut dump).is_some());
}

#[test]
fn one_flush_at_a_time() {
    let mut scheduler = FlushScheduler::new(0);
    let mut dump = Dump::new();
    dump.record(Event { status: 200, latency_ms: 5 });
    assert!(scheduler.poll(10_000, &mut dump).is_some());
    dump.record(Event { status: 200, latency_ms: 6 });
    assert!(scheduler.poll(30_000, &mut dump).is_none());
    assert_eq!(dump.total(), 1);
    assert!(!scheduler.finish(30_500, Delivery::Accepted));
    assert_eq!(scheduler.state, FlushState::Idle);
    assert_eq!(scheduler.clock.last, 30_500);
    assert!(scheduler.poll(40_499, &mut dump).is_none());
    assert!(scheduler.poll(40_500, &mut dump).is_some());
}

#[test]
fn clock_is_reset_whatever_the_outcome() {
    for delivery in [Delivery::Refused(500), Delivery::Failed] {
        let mut scheduler = FlushScheduler::new(0);
        let mut dump = Dump::new();
        dump.record(Event { status: 200, latency_ms: 5 });
        let lost = scheduler.poll(10_000, &mut dump).unwrap();
        assert_eq!(lost.total(), 1);
        assert!(scheduler.finish(10_250, delivery));
        assert_eq!(scheduler.state, FlushState::Idle);
        assert_eq!(scheduler.clock.last, 10_250);
        assert_eq!(dump.total(), 0);
    }
}

#[test]
fn finish_without_a_flush_changes_nothing() {
    let mut scheduler = FlushScheduler::new(7);
    assert!(!scheduler.finish(99, Delivery::Failed));
    assert_eq!(scheduler, FlushScheduler::new(7));
}

#[test]
fn service_state() {
    assert!(service_is_active(b"active\n"));
    assert!(!service_is_active(b"active"));
    assert!(!service_is_active(b"inactive\n"));
    assert!(!service_is_active(b"Active\n"));
    assert!(!service_is_active(b"active\n\n"));
    assert!(!service_is_active(b""));
    assert!(should_ping(Some(b"active\n")));
    assert!(!should_ping(Some(b"failed\n")));
    assert!(!should_ping(None));
}
