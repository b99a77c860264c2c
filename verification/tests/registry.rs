use hwc_core::registry::SessionRecord;
use hwc_core::registry::SessionRegistry;

fn record(handle: u64) -> SessionRecord {
    SessionRecord {
        host: "203.0.113.7".to_string(),
        port: 22,
        username: "root".to_string(),
        connected_at: "2024-01-01T00:00:00+00:00".to_string(),
        handle,
    }
}

#[test]
fn connect_twice_replaces_the_first_session() {
    let mut registry = SessionRegistry::new();
    let first = registry.insert("s1".to_string(), record(1));
    assert!(first.is_none());

    // A second connect under the same id hands the stale record out for
    // teardown; afterwards exactly the new record is registered.
    let evicted = registry.insert("s1".to_string(), record(2));
    assert_eq!(evicted.map(|r| r.handle), Some(1));
    assert!(registry.contains("s1"));
    let current = registry.take("s1").unwrap();
    assert_eq!(current.handle, 2);
}

#[test]
fn operations_on_unknown_sessions_fail_without_side_effects() {
    let mut registry = SessionRegistry::new();
    registry.insert("alive".to_string(), record(7));

    let err = registry.take("missing").unwrap_err();
    assert_eq!(err, "No SSH connection found for session missing.");
    // The failed lookup changed nothing: the live session is still there.
    assert!(registry.contains("alive"));
    assert!(!registry.contains("missing"));
}

#[test]
fn failed_operation_destroys_the_session() {
    let mut registry = SessionRegistry::new();
    registry.insert("s1".to_string(), record(3));

    let taken = registry.take("s1").unwrap();
    // The operation fails: the record is not reinserted, only handed back
    // for teardown.
    let back = registry.finish_operation("s1".to_string(), taken, false);
    assert_eq!(back.map(|r| r.handle), Some(3));

    let err = registry.take("s1").unwrap_err();
    assert_eq!(err, "No SSH connection found for session s1.");
}

#[test]
fn successful_operation_reinserts_the_session() {
    let mut registry = SessionRegistry::new();
    registry.insert("s1".to_string(), record(4));

    let taken = registry.take("s1").unwrap();
    let back = registry.finish_operation("s1".to_string(), taken, true);
    assert!(back.is_none());
    assert!(registry.contains("s1"));
    assert_eq!(registry.take("s1").unwrap().handle, 4);
}

#[test]
fn evict_reports_whether_a_session_existed() {
    let mut registry = SessionRegistry::new();
    registry.insert("s1".to_string(), record(5));

    let evicted = registry.evict("s1");
    assert_eq!(evicted.map(|r| r.handle), Some(5));
    assert!(registry.evict("s1").is_none());
}

#[test]
fn sessions_are_independent_per_id() {
    let mut registry = SessionRegistry::new();
    registry.insert("a".to_string(), record(1));
    registry.insert("b".to_string(), record(2));

    let taken = registry.take("a").unwrap();
    assert_eq!(taken.handle, 1);
    // Taking one session leaves the other registered.
    assert!(registry.contains("b"));
    assert!(!registry.contains("a"));
    registry.finish_operation("a".to_string(), taken, true);
    assert!(registry.contains("a"));
    assert_eq!(registry.take("b").unwrap().handle, 2);
}
