use reliquaint::install_record::{Install as RecInstall, InstallRecord, LoadedInstallRecord};
use reliquaint::subscriptions::{SubscriptionManifest, TapSubscription};
use reliquaint::tap_fetch::PullResult;
use reliquaint::tap_ops::{
    records_for_tap, short_hash, subscribe, sync_outcome, sync_summary, tap_status, taps_to_sync, unsubscribe, upgrade_candidates,
    UnsubscribeError,
};

fn sub(id: &str, priority: u32) -> TapSubscription {
    TapSubscription { id: id.into(), source: format!("https://x/{id}"), added_at: "2024-01-01T00:00:00Z".into(), priority }
}

#[test]
fn subscribe_assigns_next_priority_and_refuses_duplicates() {
    let mut m = SubscriptionManifest { schema_version: 1, taps: vec![sub("a", 3), sub("b", 7)] };
    assert_eq!(subscribe(&mut m, "c".into(), "https://x/c".into(), "t".into(), None), Some(8));
    assert_eq!(m.taps.len(), 3);
    assert_eq!(subscribe(&mut m, "a".into(), "s".into(), "t".into(), Some(1)), None);
    assert_eq!(m.taps.len(), 3);
    let mut empty = SubscriptionManifest { schema_version: 1, taps: vec![] };
    assert_eq!(subscribe(&mut empty, "a".into(), "s".into(), "t".into(), None), Some(0));
    assert_eq!(subscribe(&mut empty, "b".into(), "s".into(), "t".into(), Some(42)), Some(42));
}

#[test]
fn unsubscribe_keeps_the_others() {
    let mut m = SubscriptionManifest { schema_version: 1, taps: vec![sub("a", 1), sub("b", 2), sub("c", 3)] };
    assert!(unsubscribe(&mut m, "b").is_ok());
    let ids: Vec<&str> = m.taps.iter().map(|t| t.id.as_str()).collect();
    assert_eq!(ids, vec!["a", "c"]);
    assert!(matches!(unsubscribe(&mut m, "local"), Err(UnsubscribeError::LocalTap)));
    assert!(matches!(unsubscribe(&mut m, "zz"), Err(UnsubscribeError::NotSubscribed(x)) if x == "zz"));
}

#[test]
fn records_that_a_removal_orphans() {
    let rec = |tap: &str, id: &str| LoadedInstallRecord {
        source_path: format!("/i/{id}.toml"),
        record: InstallRecord {
            schema_version: 1,
            install: RecInstall { catalog_id: id.into(), tap: tap.into(), install_path: "/g".into(), installed_at: "t".into() },
        },
    };
    let recs = vec![rec("core", "kq1"), rec("other", "zork"), rec("core", "qfg1")];
    assert_eq!(records_for_tap(&recs, "core"), vec!["kq1".to_string(), "qfg1".to_string()]);
}

#[test]
fn sync_selection_and_reports() {
    let m = SubscriptionManifest { schema_version: 1, taps: vec![sub("a", 1), sub("b", 2)] };
    assert_eq!(taps_to_sync(&m, None).len(), 2);
    assert_eq!(taps_to_sync(&m, Some("b"))[0].id, "b");
    assert!(taps_to_sync(&m, Some("zz")).is_empty());
    assert_eq!(short_hash("0123456789abcdef"), "0123456");
    assert_eq!(short_hash("abc"), "abc");
    let same = PullResult { before_hash: "abc".into(), after_hash: "abc".into(), already_up_to_date: true };
    assert_eq!(sync_summary("a", &same), "a: up to date");
    let moved = PullResult { before_hash: "0123456789".into(), after_hash: "fedcba9876".into(), already_up_to_date: false };
    assert_eq!(sync_summary("a", &moved), "a: updated 0123456 -> fedcba9");
    assert_eq!(sync_outcome(vec!["x".into(), "y".into()], true), Err("x\ny".to_string()));
    assert_eq!(sync_outcome(vec!["x".into()], false), Ok(vec!["x".to_string()]));
}

fn record(tap: &str, id: &str) -> LoadedInstallRecord {
    LoadedInstallRecord {
        source_path: format!("/i/{id}.toml"),
        record: InstallRecord {
            schema_version: 1,
            install: RecInstall { catalog_id: id.into(), tap: tap.into(), install_path: "/g".into(), installed_at: "t".into() },
        },
    }
}

#[test]
fn upgrade_names_known_taps_nobody_subscribes_to() {
    let records = vec![
        record("reliquaint-core", "kq1"),
        record("someone-else", "x"),
        record("local", "mine"),
        record("reliquaint-core", "qfg1"),
    ];
    let none = SubscriptionManifest { schema_version: 1, taps: vec![] };
    assert_eq!(upgrade_candidates(&records, &none), vec![("reliquaint-core".to_string(), 2)]);
    let subscribed = SubscriptionManifest { schema_version: 1, taps: vec![sub("reliquaint-core", 0)] };
    assert!(upgrade_candidates(&records, &subscribed).is_empty());
    assert!(upgrade_candidates(&vec![], &none).is_empty());
}

#[test]
fn tap_status_reads_cache_and_heads() {
    let h = |s: &str| Some(s.to_string());
    assert_eq!(tap_status(false, Some((h("a"), h("a")))), "missing cache");
    assert_eq!(tap_status(true, None), "ok");
    assert_eq!(tap_status(true, Some((h("a"), h("a")))), "up to date");
    assert_eq!(tap_status(true, Some((h("a"), h("b")))), "out of date");
    assert_eq!(tap_status(true, Some((h("a"), None))), "unknown");
    assert_eq!(tap_status(true, Some((None, None))), "unknown");
}
