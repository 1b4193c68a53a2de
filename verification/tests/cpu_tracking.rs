use nano_core::worker::cpu_tracker::{CpuTimeError, CpuTimeSnapshot, CpuTracker};

#[test]
fn test_cpu_tracker_creation() {
    let tracker = CpuTracker::new(50);
    assert_eq!(tracker.limit_ms(), 50);
    assert_eq!(tracker.limit_us(), 50_000);
    assert!(tracker.is_enabled());
    assert!(!tracker.is_limit_exceeded());
}

#[test]
fn test_cpu_tracker_with_microseconds() {
    let tracker = CpuTracker::with_limit_us(100_000);
    assert_eq!(tracker.limit_us(), 100_000);
    assert_eq!(tracker.limit_ms(), 100);
}

#[test]
fn test_disabled_tracker() {
    let tracker = CpuTracker::disabled();
    assert!(!tracker.is_enabled());
    assert_eq!(tracker.limit_us(), u64::MAX);
    assert!(tracker.snapshot(Some(5)).is_none());
}

#[test]
fn test_cpu_time_snapshot() {
    let snap1 = CpuTimeSnapshot::new(1000, 2000);
    let snap2 = CpuTimeSnapshot::new(1500, 3000);

    assert_eq!(snap1.cpu_micros(), 1000);
    assert_eq!(snap1.wall_micros(), 2000);
    assert_eq!(snap1.elapsed_cpu_us(&snap2), 500);
    assert_eq!(snap1.elapsed_wall_us(&snap2), 1000);
}

#[test]
fn test_limit_modification() {
    let mut tracker = CpuTracker::new(50);
    assert_eq!(tracker.limit_ms(), 50);

    tracker.set_limit_ms(100);
    assert_eq!(tracker.limit_ms(), 100);
    assert_eq!(tracker.limit_us(), 100_000);

    tracker.set_limit_us(250_000);
    assert_eq!(tracker.limit_us(), 250_000);
    assert_eq!(tracker.limit_ms(), 250);
}

#[test]
fn test_enable_disable() {
    let mut tracker = CpuTracker::new(50);
    assert!(tracker.is_enabled());

    tracker.set_enabled(false);
    assert!(!tracker.is_enabled());

    tracker.set_enabled(true);
    assert!(tracker.is_enabled());
}

#[test]
fn test_reset() {
    let mut tracker = CpuTracker::new(1);
    let start = CpuTimeSnapshot::new(0, 0);
    // 2000us of CPU time against a 1000us limit sets the flag.
    assert!(tracker.check_cpu_from(&start, Some(2000), Some(10)).is_err());
    assert!(tracker.is_limit_exceeded());

    tracker.reset();
    assert!(!tracker.is_limit_exceeded());
}

#[test]
fn test_cpu_time_error_properties() {
    let err = CpuTimeError::LimitExceeded { used_us: 150_000, limit_us: 100_000 };

    assert_eq!(err.used_us(), 150_000);
    assert_eq!(err.limit_us(), 100_000);
    assert_eq!(err.used_ms(), 150);
    assert_eq!(err.limit_ms(), 100);
}

#[test]
fn test_error_display() {
    let err = CpuTimeError::LimitExceeded { used_us: 150_000, limit_us: 100_000 };
    let msg = err.to_string();
    assert!(msg.contains("CPU time limit exceeded"));
    assert!(msg.contains("150000us"));
    assert!(msg.contains("100000us"));
}

#[test]
fn test_tracking_error_display() {
    let err = CpuTimeError::TrackingFailed { message: "Platform not supported".to_string() };
    let msg = err.to_string();
    assert!(msg.contains("CPU time tracking failed"));
    assert!(msg.contains("Platform not supported"));
}

#[test]
fn test_peek_cpu() {
    let tracker = CpuTracker::new(1000);
    let start = tracker.start(Some(100)).expect("Should start tracking");
    let (now, elapsed) = tracker.peek_cpu(&start, Some(350));
    assert!(elapsed < 1_000_000);
    assert!(now.cpu_micros() >= start.cpu_micros());
    assert_eq!(elapsed, 250);
}

#[test]
fn test_check_cpu_within_limit() {
    let mut tracker = CpuTracker::new(1000);

    let start = tracker.start(Some(10)).expect("Should start tracking");

    let result = tracker.check_cpu(&start, Some(20));
    assert!(result.is_ok(), "Should be within limit immediately");
}

#[test]
fn test_snapshot_equality() {
    let snap1 = CpuTimeSnapshot::new(100, 200);
    let snap2 = CpuTimeSnapshot::new(100, 200);
    let snap3 = CpuTimeSnapshot::new(200, 300);

    assert_eq!(snap1, snap2);
    assert_ne!(snap1, snap3);
}

#[test]
fn test_elapsed_cpu_us_saturating() {
    let snap1 = CpuTimeSnapshot::new(1000, 0);
    let snap2 = CpuTimeSnapshot::new(500, 0);
    assert_eq!(snap1.elapsed_cpu_us(&snap2), 0);
}

#[test]
fn check_cpu_reports_usage_over_limit() {
    let mut tracker = CpuTracker::with_limit_us(500);
    let start = CpuTimeSnapshot::new(1_000, 0);
    match tracker.check_cpu_from(&start, Some(1_600), Some(7)) {
        Err(CpuTimeError::LimitExceeded { used_us, limit_us }) => {
            assert_eq!(used_us, 600);
            assert_eq!(limit_us, 500);
        }
        other => panic!("unexpected {other:?}"),
    }
    assert!(tracker.is_limit_exceeded());
    // Exactly at the limit is still fine.
    let mut tracker = CpuTracker::with_limit_us(500);
    let now = tracker.check_cpu_from(&start, Some(1_500), Some(9)).unwrap();
    assert_eq!((now.cpu_micros(), now.wall_micros()), (1_500, 9));
    assert!(!tracker.is_limit_exceeded());
}

#[test]
fn check_cpu_without_clock_fails_when_enabled() {
    let mut tracker = CpuTracker::new(10);
    let start = CpuTimeSnapshot::new(0, 0);
    match tracker.check_cpu_from(&start, Some(1), None) {
        Err(CpuTimeError::TrackingFailed { message }) => {
            assert_eq!(message, "Failed to capture CPU time snapshot")
        }
        other => panic!("unexpected {other:?}"),
    }
    let mut off = CpuTracker::disabled();
    let snap = off.check_cpu_from(&start, Some(99), Some(42)).unwrap();
    assert_eq!((snap.cpu_micros(), snap.wall_micros()), (42, 42));
}

#[test]
fn snapshot_falls_back_to_wall_clock() {
    let tracker = CpuTracker::new(10);
    let s = tracker.snapshot_from(None, Some(77)).unwrap();
    assert_eq!((s.cpu_micros(), s.wall_micros()), (77, 77));
    let s = tracker.snapshot_from(Some(5), Some(77)).unwrap();
    assert_eq!((s.cpu_micros(), s.wall_micros()), (5, 77));
    assert!(tracker.snapshot_from(Some(5), None).is_none());
    assert!(CpuTracker::disabled().start_from(Some(1), Some(1)).is_err());
}
