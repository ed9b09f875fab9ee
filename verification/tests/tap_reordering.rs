use reliquaint::subscriptions::{promote_tap_to_default, set_tap_priority, SubscriptionManifest, TapSubscription};
use reliquaint::tap_reorder::{apply_reorder, parse_reorder, parse_u32, reorder_text, ReorderError};

fn sub(id: &str, priority: u32) -> TapSubscription {
    TapSubscription {
        id: id.to_string(),
        source: format!("https://example.test/{id}"),
        added_at: "2024-01-01T00:00:00Z".to_string(),
        priority,
    }
}

fn manifest() -> SubscriptionManifest {
    SubscriptionManifest { schema_version: 1, taps: vec![sub("beta", 20), sub("alpha", 10), sub("gamma", 30)] }
}

#[test]
fn reorder_text_lists_taps_by_priority() {
    let text = reorder_text(&manifest().taps);
    assert!(text.starts_with("# Reliquaint tap priorities"));
    assert!(text.ends_with("10 alpha\n20 beta\n30 gamma\n"));
}

#[test]
fn unchanged_text_keeps_priorities() {
    let mut m = manifest();
    let text = reorder_text(&m.taps);
    assert!(apply_reorder(&mut m, &text).is_ok());
    assert_eq!(m, manifest());
}

#[test]
fn edited_priorities_are_applied() {
    let mut m = manifest();
    assert!(apply_reorder(&mut m, "# comment\n\n5 gamma\n  40 alpha  \n").is_ok());
    let prios: Vec<(String, u32)> = m.taps.iter().map(|t| (t.id.clone(), t.priority)).collect();
    assert_eq!(prios, vec![("beta".into(), 20), ("alpha".into(), 40), ("gamma".into(), 5)]);
}

#[test]
fn reorder_errors_name_the_line() {
    let taps = manifest().taps;
    match parse_reorder("10 alpha\njunk\n", &taps) {
        Err(e @ ReorderError::BadLine { line: 2, .. }) => {
            assert_eq!(e.message(), "line 2: expected '<priority> <tap-id>', got \"junk\"");
        },
        other => panic!("unexpected {other:?}"),
    }
    match parse_reorder("x alpha\n", &taps) {
        Err(e @ ReorderError::BadPriority { line: 1, .. }) => assert_eq!(e.message(), "line 1: \"x\" is not a valid priority"),
        other => panic!("unexpected {other:?}"),
    }
    match parse_reorder("1 delta\n", &taps) {
        Err(e @ ReorderError::UnknownTap { line: 1, .. }) => assert_eq!(e.message(), "line 1: unknown tap id \"delta\""),
        other => panic!("unexpected {other:?}"),
    }
    match parse_reorder("1 alpha\n2 alpha\n", &taps) {
        Err(e @ ReorderError::Duplicate { .. }) => assert_eq!(e.message(), "tap \"alpha\" listed more than once"),
        other => panic!("unexpected {other:?}"),
    }
}

#[test]
fn shared_priority_is_refused() {
    let mut m = manifest();
    match apply_reorder(&mut m, "20 alpha\n") {
        Err(e @ ReorderError::SharedPriority { priority: 20 }) => {
            assert_eq!(e.message(), "priority 20 is shared by more than one tap; no two taps may share a priority");
        },
        other => panic!("unexpected {other:?}"),
    }
}

#[test]
fn parse_u32_follows_from_str() {
    let p = |s: &str| parse_u32(&s.chars().collect::<Vec<char>>());
    assert_eq!(p("42"), Some(42));
    assert_eq!(p("+7"), Some(7));
    assert_eq!(p("4294967295"), Some(u32::MAX));
    assert_eq!(p("4294967296"), None);
    assert_eq!(p("99999999999999999999999"), None);
    assert_eq!(p("-1"), None);
    assert_eq!(p("+"), None);
    assert_eq!(p(""), None);
    assert_eq!(p("1a"), None);
}

#[test]
fn set_priority_refuses_taken_priority() {
    let mut m = manifest();
    assert!(set_tap_priority(&mut m, "alpha", 20).is_err());
    assert!(set_tap_priority(&mut m, "alpha", 15).is_ok());
    assert_eq!(m.taps[1].priority, 15);
    assert!(set_tap_priority(&mut m, "local", 1).is_err());
    assert!(set_tap_priority(&mut m, "nope", 1).is_err());
}

#[test]
fn promotion_puts_tap_first_and_keeps_order() {
    let mut m = manifest();
    assert!(promote_tap_to_default(&mut m, "gamma").is_ok());
    let mut by_prio: Vec<(u32, String)> = m.taps.iter().map(|t| (t.priority, t.id.clone())).collect();
    by_prio.sort();
    let order: Vec<&str> = by_prio.iter().map(|(_, id)| id.as_str()).collect();
    assert_eq!(order, vec!["gamma", "alpha", "beta"]);
    let gamma = m.taps.iter().find(|t| t.id == "gamma").unwrap();
    assert_eq!(gamma.priority, 0);
}

#[test]
fn reorder_text_is_the_comments_then_one_line_per_tap() {
    let text = reorder_text(&manifest().taps);
    assert_eq!(
        text,
        "# Reliquaint tap priorities \u{2014} lower number wins in conflicts.\n\
         # Edit the priority (first column). One tap per line: <priority> <tap-id>\n\
         # Lines starting with '#' and blank lines are ignored.\n\
         10 alpha\n20 beta\n30 gamma\n"
    );
}

#[test]
fn priority_refusals_explain_themselves() {
    let mut m = manifest();
    let taken = set_tap_priority(&mut m, "alpha", 20).unwrap_err();
    assert_eq!(taken.message(), "priority 20 is already used by \"beta\"");
    let local = set_tap_priority(&mut m, "local", 1).unwrap_err();
    assert_eq!(local.message(), "the local tap always wins and has no editable priority");
    let unknown = set_tap_priority(&mut m, "nope", 1).unwrap_err();
    assert_eq!(unknown.message(), "not subscribed to \"nope\"");
    assert_eq!(m, manifest());
}
