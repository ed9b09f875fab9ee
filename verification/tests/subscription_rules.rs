use reliquaint::subscriptions::{SubscriptionManifest, TapSubscription};

fn tap(id: &str, priority: u32) -> TapSubscription {
    TapSubscription {
        id: id.into(),
        source: "https://example.com".into(),
        added_at: "2026-01-01T00:00:00Z".into(),
        priority,
    }
}

fn manifest(schema_version: u32, taps: Vec<TapSubscription>) -> SubscriptionManifest {
    SubscriptionManifest { schema_version, taps }
}

#[test]
fn round_trip_parse() {
    let m = manifest(
        1,
        vec![TapSubscription {
            id: "reliquaint-core".into(),
            source: "https://github.com/syraenix/reliquaint-core".into(),
            added_at: "2026-06-01T12:00:00Z".into(),
            priority: 0,
        }],
    );
    m.validate().unwrap();
    assert_eq!(m.taps.len(), 1);
    assert_eq!(m.taps[0].id, "reliquaint-core");
    assert_eq!(m.taps[0].source, "https://github.com/syraenix/reliquaint-core");
    assert_eq!(m.taps[0].priority, 0);
}

#[test]
fn empty_manifest_is_valid() {
    let m = manifest(1, vec![]);
    m.validate().unwrap();
    assert!(m.taps.is_empty());
}

#[test]
fn rejects_wrong_schema_version() {
    let err = manifest(99, vec![]).validate().unwrap_err();
    assert!(err.message().contains("schema_version"), "unexpected error: {}", err.message());
    assert_eq!(err.message(), "schema_version must be 1, got 99");
}

#[test]
fn rejects_duplicate_id() {
    let err = manifest(1, vec![tap("foo", 0), tap("foo", 1)]).validate().unwrap_err();
    assert!(err.message().contains("duplicate"), "unexpected error: {}", err.message());
}

#[test]
fn rejects_reserved_id_local() {
    let err = manifest(1, vec![tap("local", 0)]).validate().unwrap_err();
    assert!(err.message().contains("reserved"), "unexpected error: {}", err.message());
}

#[test]
fn rejects_invalid_tap_id() {
    let err = manifest(1, vec![tap("BAD-ID", 0)]).validate().unwrap_err();
    assert!(err.message().contains("invalid tap id"), "unexpected error: {}", err.message());
    assert!(err.message().starts_with("invalid tap id \"BAD-ID\": "));
}

#[test]
fn next_priority_is_zero_when_empty() {
    assert_eq!(SubscriptionManifest::empty().next_priority(), 0);
}

#[test]
fn next_priority_increments_max() {
    let m = manifest(1, vec![tap("aa", 3), tap("bb", 1)]);
    m.validate().unwrap();
    assert_eq!(m.next_priority(), 4);
}
