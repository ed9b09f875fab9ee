use reliquaint::companion::index_companion;
use reliquaint::subscriptions::{promote_tap_to_default, set_tap_priority, SubscriptionManifest, TapSubscription};

fn manifest_with(taps: &[(&str, u32)]) -> SubscriptionManifest {
    let mut m = SubscriptionManifest::empty();
    for (id, priority) in taps {
        m.taps.push(TapSubscription {
            id: (*id).to_string(),
            source: "file:///x".to_string(),
            added_at: "2026-01-01T00:00:00Z".to_string(),
            priority: *priority,
        });
    }
    m
}

fn priority_of(m: &SubscriptionManifest, id: &str) -> u32 {
    m.taps.iter().find(|t| t.id == id).unwrap().priority
}

#[test]
fn set_tap_priority_updates_and_rejects_conflicts() {
    let mut m = manifest_with(&[("a", 0), ("b", 1)]);
    set_tap_priority(&mut m, "a", 5).unwrap();
    assert_eq!(priority_of(&m, "a"), 5);
    assert!(set_tap_priority(&mut m, "a", 1).is_err());
    assert!(set_tap_priority(&mut m, "local", 0).is_err());
    assert!(set_tap_priority(&mut m, "nope", 9).is_err());
}

#[test]
fn promote_tap_to_default_makes_target_win() {
    let mut m = manifest_with(&[("a", 0), ("b", 1), ("c", 2)]);
    let changed = promote_tap_to_default(&mut m, "c").unwrap();
    assert!(changed);
    assert_eq!(priority_of(&m, "c"), 0, "target should win");
    assert!(priority_of(&m, "a") < priority_of(&m, "b"));
    assert!(priority_of(&m, "a") > 0 && priority_of(&m, "b") > 0);
    let mut seen = std::collections::HashSet::new();
    assert!(m.taps.iter().all(|t| seen.insert(t.priority)));
}

#[test]
fn promote_tap_to_default_local_is_noop() {
    let mut m = manifest_with(&[("a", 0)]);
    assert!(!promote_tap_to_default(&mut m, "local").unwrap());
    assert!(promote_tap_to_default(&mut m, "missing").is_err());
}

#[test]
fn index_returns_empty_when_no_companion_dir() {
    assert!(index_companion("core", &vec![]).is_empty());
}
