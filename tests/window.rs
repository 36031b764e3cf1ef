use icc::model::{ConnectivityDown, DurationFormat, Span};
use icc::text::span_text;

#[test]
fn span_of_3725_seconds() {
    assert_eq!(span_text(3725), "1 hours, 2 minutes, 5 seconds");
    assert_eq!(Span { seconds: 3725 }.as_text(), "1 hours, 2 minutes, 5 seconds");
}

#[test]
fn span_edges() {
    assert_eq!(span_text(0), "0 hours, 0 minutes, 0 seconds");
    assert_eq!(span_text(59), "0 hours, 0 minutes, 59 seconds");
    assert_eq!(span_text(86400), "24 hours, 0 minutes, 0 seconds");
    assert_eq!(span_text(-3725), "-1 hours, -2 minutes, -5 seconds");
    assert_eq!(span_text(-5), "0 hours, 0 minutes, -5 seconds");
}

#[test]
fn new_window_is_empty() {
    let w = ConnectivityDown::new();
    assert!(!w.is_ready());
    assert!(!w.is_started());
    assert_eq!(w.start, None);
    assert_eq!(w.end, None);
}

#[test]
fn ready_only_with_both_ends() {
    let mut w = ConnectivityDown::new();
    w.end_at(50);
    assert!(!w.is_ready());
    assert_eq!(w.end, None);
    w.start_at(100);
    assert!(w.is_started());
    assert!(!w.is_ready());
    w.end_at(3825);
    assert!(w.is_ready());
    assert_eq!(w.start_epoch_timestamp(), 100);
    assert_eq!(w.end_epoch_timestamp(), 3825);
    assert_eq!(w.duration(), Span { seconds: 3725 });
    assert_eq!(w.duration_text(), "1 hours, 2 minutes, 5 seconds");
}

#[test]
fn start_and_end_happen_once() {
    let mut w = ConnectivityDown::new();
    w.start_at(10);
    w.start_at(20);
    assert_eq!(w.start, Some(10));
    w.end_at(30);
    w.end_at(40);
    assert_eq!(w.end, Some(30));
}

#[test]
fn clock_start_and_end() {
    let mut w = ConnectivityDown::new();
    w.start();
    assert!(w.is_started());
    assert!(!w.is_ready());
    w.end();
    assert!(w.is_ready());
    assert!(w.end_epoch_timestamp() >= w.start_epoch_timestamp());
}

#[test]
fn report_block_format() {
    let mut w = ConnectivityDown::new();
    w.start_at(100);
    w.end_at(3825);
    assert_eq!(
        w.report_with("A", "B"),
        "Downtime:\n (100) A - (3825) B\n lasted for: 1 hours, 2 minutes, 5 seconds\n"
    );
}

#[test]
fn rendered_times() {
    let mut w = ConnectivityDown::new();
    w.start_at(0);
    w.end_at(60);
    let s = w.start_text().unwrap();
    let e = w.end_text().unwrap();
    assert!(s.contains("1970") || s.contains("1969"));
    assert_eq!(w.start_end_text().unwrap(), format!("{} - {}", s, e));
    let r = w.report_text().unwrap();
    assert_eq!(r, format!("Downtime:\n (0) {} - (60) {}\n lasted for: 0 hours, 1 minutes, 0 seconds\n", s, e));
    let mut far = ConnectivityDown::new();
    far.start_at(i64::MAX - 10);
    far.end_at(i64::MAX);
    assert_eq!(far.start_text(), None);
    assert_eq!(far.report_text(), None);
}

#[test]
fn printable_windows() {
    let mut w = ConnectivityDown::new();
    assert!(!w.is_printable());
    w.start_at(i64::MIN);
    assert!(!w.is_printable());
    w.end_at(i64::MAX);
    assert!(w.is_ready());
    assert!(!w.is_printable());
    let mut v = ConnectivityDown::new();
    v.start_at(-5);
    v.end_at(i64::MAX - 5);
    assert!(v.is_printable());
}

#[test]
fn in_range_windows_always_render() {
    let mut w = ConnectivityDown::new();
    w.start_at(1_000_000_000);
    w.end_at(1_000_003_725);
    assert!(w.start_text().is_some());
    assert!(w.end_text().is_some());
    assert!(w.start_end_text().is_some());
    let r = w.report_text().unwrap();
    assert!(r.starts_with("Downtime:\n (1000000000) "));
    assert!(r.ends_with("\n lasted for: 1 hours, 2 minutes, 5 seconds\n"));
}
