use icc::model::ConnectivityDown;
use icc::ping::PingResult;
use icc::registry::Address;
use icc::shutdown::FlushCounter;
use icc::tracker::DowntimeTracker;

fn timeout() -> PingResult {
    PingResult::Timeout { addr: Address::V4(1) }
}

fn response() -> PingResult {
    PingResult::Response { addr: Address::V4(1), rtt: 10, sequence: 1, identifier: 2 }
}

#[test]
fn three_timeouts_then_response_close_one_window() {
    let mut t = DowntimeTracker::new(3);
    assert_eq!(t.handle_at(&timeout(), 100), None);
    assert!(t.window.is_started());
    assert_eq!(t.handle_at(&timeout(), 101), None);
    assert_eq!(t.handle_at(&timeout(), 102), None);
    assert_eq!(t.no_response_counter, 3);
    let closed = t.handle_at(&response(), 110).unwrap();
    assert!(closed.is_ready());
    assert_eq!(closed.start_epoch_timestamp(), 100);
    assert_eq!(closed.end_epoch_timestamp(), 110);
    assert!(!t.window.is_started());
    assert_eq!(t.no_response_counter, 0);
    assert_eq!(t.handle_at(&response(), 111), None);
}

#[test]
fn two_timeouts_then_response_close_nothing() {
    let mut t = DowntimeTracker::new(3);
    assert_eq!(t.handle_at(&timeout(), 100), None);
    assert_eq!(t.handle_at(&timeout(), 101), None);
    assert_eq!(t.handle_at(&response(), 102), None);
    assert_eq!(t.no_response_counter, 0);
    assert_eq!(t.window, ConnectivityDown::new());
}

#[test]
fn counter_saturates_at_limit() {
    let mut t = DowntimeTracker::new(3);
    for i in 0..10 {
        assert_eq!(t.handle_at(&timeout(), 100 + i), None);
    }
    assert_eq!(t.no_response_counter, 3);
    assert_eq!(t.window.start, Some(100));
}

#[test]
fn requests_change_nothing() {
    let mut t = DowntimeTracker::new(3);
    t.handle_at(&timeout(), 5);
    let before = t;
    let req = PingResult::Request { addr: Address::V4(1), sequence: 1, identifier: 1, sent_success: true };
    assert_eq!(t.handle_at(&req, 9), None);
    assert_eq!(t, before);
}

#[test]
fn limit_zero_records_any_timeout() {
    let mut t = DowntimeTracker::new(0);
    t.handle_at(&timeout(), 5);
    let w = t.handle_at(&response(), 6).unwrap();
    assert_eq!((w.start, w.end), (Some(5), Some(6)));
}

#[test]
fn clock_stamped_events() {
    let mut t = DowntimeTracker::new(1);
    assert_eq!(t.handle(&timeout()), None);
    let w = t.handle(&response()).unwrap();
    assert!(w.is_ready());
}

#[test]
fn flush_counter_waits_for_all() {
    let mut f = FlushCounter::new();
    assert!(f.is_idle());
    assert!(f.dispatch());
    assert!(f.dispatch());
    f.complete();
    assert!(!f.is_idle());
    f.complete();
    assert!(f.is_idle());
}
