use nano_core::v8::isolate::{HeapLimits, IsolateState};
use nano_core::v8::snapshot::{classify_snapshot, SnapshotCache, SnapshotStart};
use nano_core::worker::telemetry::{
    deregister, mark_busy, record_request, register_isolate, register_isolate_at, snapshot,
    TelemetryRegistry,
};

#[test]
fn test_empty_snapshot() {
    let snapshot = SnapshotCache::from_data(vec![]);
    assert!(!snapshot.is_valid());
}

#[test]
fn test_valid_snapshot() {
    let snapshot = SnapshotCache::from_data(vec![1, 2, 3, 4]);
    assert!(snapshot.is_valid());
    assert_eq!(snapshot.data().len(), 4);
    assert_eq!(snapshot.data(), &[1, 2, 3, 4]);
}

#[test]
fn isolate_state_transitions() {
    let mut s = IsolateState::Creating;
    assert!(s.can_transition_to(IsolateState::Ready));
    assert!(!s.can_transition_to(IsolateState::Executing));
    s.set_state(IsolateState::Ready);
    s.set_state(IsolateState::Executing);
    assert!(s.can_transition_to(IsolateState::Resetting));
    s.set_state(IsolateState::Resetting);
    assert!(!s.can_transition_to(IsolateState::Terminated));
    s.set_state(IsolateState::Ready);
    s.set_state(IsolateState::Terminated);
    for t in [
        IsolateState::Creating,
        IsolateState::Ready,
        IsolateState::Executing,
        IsolateState::Resetting,
        IsolateState::Terminated,
    ] {
        assert!(!s.can_transition_to(t));
    }
    assert_eq!(s.to_string(), "Terminated");
    assert_eq!(IsolateState::Executing.to_string(), "Executing");
}

#[test]
fn updates_on_missing_id_are_noops() {
    let mut reg = TelemetryRegistry::new();
    mark_busy(&mut reg, "nonexistent", true);
    record_request(&mut reg, "nonexistent", 1024);
    assert!(snapshot(&reg).is_empty());
}

#[test]
fn register_snapshot_and_deregister() {
    let mut reg = TelemetryRegistry::new();
    let id = "iso_unit_test_1".to_string();
    let guard = register_isolate(&mut reg, id.clone(), "app.example.com".to_string(), 7, vec!["API_KEY".to_string()]);
    assert_eq!(guard.isolate_id(), id);
    mark_busy(&mut reg, &id, true);
    record_request(&mut reg, &id, 2 * 1024 * 1024);
    record_request(&mut reg, &id, 3 * 1024 * 1024);

    let snap = snapshot(&reg);
    let mine = snap.iter().find(|s| s.isolate_id == id).expect("registered");
    assert_eq!(mine.hostname, "app.example.com");
    assert_eq!(mine.worker_id, 7);
    assert_eq!(mine.request_count, 2, "two requests recorded");
    assert!(!mine.busy, "record_request clears busy");
    assert_eq!(mine.memory_bytes, Some(3 * 1024 * 1024), "latest memory");
    assert_eq!(mine.env_keys, vec!["API_KEY".to_string()]);

    deregister(&mut reg, guard);
    assert!(snapshot(&reg).iter().all(|s| s.isolate_id != id), "deregistered");
}

#[test]
fn fresh_isolate_is_idle_and_unmeasured() {
    let mut reg = TelemetryRegistry::new();
    let _g = register_isolate_at(&mut reg, "a".to_string(), "h".to_string(), 1, vec![], 42);
    let _h = register_isolate_at(&mut reg, "b".to_string(), "h".to_string(), 2, vec![], 43);
    mark_busy(&mut reg, "b", true);
    let mut snap = snapshot(&reg);
    snap.sort_by(|x, y| x.isolate_id.cmp(&y.isolate_id));
    assert_eq!(snap.len(), 2);
    assert_eq!(snap[0].created_at, 42);
    assert_eq!(snap[0].memory_bytes, None);
    assert_eq!(snap[0].request_count, 0);
    assert!(!snap[0].busy);
    assert!(snap[1].busy);
}

#[test]
fn test_set_heap_limits() {
    let mut limits = HeapLimits::with_limit(0);
    assert!(limits.set_heap_limits(32 * 1024 * 1024, 64 * 1024 * 1024));
    assert_eq!(limits.heap_limit_bytes(), 64 * 1024 * 1024);
    assert!(!limits.set_heap_limits(0, 128 * 1024 * 1024));
    assert_eq!(limits.heap_limit_bytes(), 128 * 1024 * 1024);
    assert!(limits.callback_registered());
}

#[test]
fn test_set_heap_limits_zero_max() {
    let mut limits = HeapLimits::with_limit(256 * 1024 * 1024);
    let original_limit = limits.heap_limit_bytes();
    assert!(!limits.set_heap_limits(0, 0));
    assert_eq!(limits.heap_limit_bytes(), original_limit);
    assert!(!limits.callback_registered());
}

#[test]
fn test_set_heap_limits_inverted() {
    let mut limits = HeapLimits::with_limit(0);
    limits.set_heap_limits(200 * 1024 * 1024, 100 * 1024 * 1024);
    assert_eq!(limits.heap_limit_bytes(), 100 * 1024 * 1024);
}

#[test]
fn snapshot_bytes_are_classified_before_restoring() {
    assert_eq!(classify_snapshot(b"NANO_SNAPSHOT_PLACEHOLDER_V1"), SnapshotStart::LegacyMarker);
    assert_eq!(classify_snapshot(&[0xD7, 0x3C, 0xD7, 0x3C, 1, 2, 3]), SnapshotStart::TooSmall);
    assert_eq!(classify_snapshot(&[]), SnapshotStart::TooSmall);
    assert_eq!(classify_snapshot(&[0, 0, 0, 0, 1, 2, 3, 4]), SnapshotStart::MissingMagic);
    assert_eq!(classify_snapshot(&[0xD7, 0x3C, 0xD7, 0x3C, 1, 2, 3, 4]), SnapshotStart::Restore);
}
