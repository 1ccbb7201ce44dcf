use market_alerts::matcher::{AlertMatcher, AlertRow, VersionWindow};
use market_alerts::rule::Aggregation;

fn row(world_id: i32, item_id: i32, trigger_version: i32, name: &str, trigger: &str) -> AlertRow {
    AlertRow {
        world_id,
        item_id,
        trigger_version,
        name: name.to_string(),
        discord_webhook: Some(format!("https://hooks.example/{}", name)),
        trigger: trigger.to_string(),
    }
}

fn matcher(min: i32, max: i32) -> AlertMatcher {
    AlertMatcher::new(VersionWindow::new(min, max))
}

#[test]
fn wildcard_alert_matches_any_item_of_its_world() {
    let m = matcher(0, 0);
    let r = row(74, -1, 0, "a", "?pp<8000006e");
    assert!(m.selects(&r, 74, 5));
    assert!(m.selects(&r, 74, 40000));
    assert!(m.selects(&r, 74, 0));
    assert!(!m.selects(&r, 75, 5));
}

#[test]
fn concrete_alert_matches_only_its_item() {
    let m = matcher(0, 0);
    let r = row(74, 5, 0, "a", "?pp<8000006e");
    assert!(m.selects(&r, 74, 5));
    assert!(!m.selects(&r, 74, 6));
    assert!(!m.selects(&r, 75, 5));
}

#[test]
fn version_outside_window_is_never_selected() {
    let m = matcher(1, 3);
    for version in [i32::MIN, -1, 0, 4, 100, i32::MAX] {
        let wild = row(74, -1, version, "a", "?pp<8000006e");
        let concrete = row(74, 5, version, "a", "?pp<8000006e");
        assert!(!m.selects(&wild, 74, 5));
        assert!(!m.selects(&concrete, 74, 5));
        assert!(m.find_candidates(&vec![wild, concrete], 74, 5).is_empty());
    }
    for version in [1, 2, 3] {
        assert!(m.selects(&row(74, 5, version, "a", "?pp<8000006e"), 74, 5));
        assert!(m.window.supports(version));
    }
    assert!(!m.window.supports(0));
    assert!(!m.window.supports(4));
}

#[test]
fn windows_are_independent() {
    let r = row(74, 5, 2, "a", "?pp<8000006e");
    assert!(!matcher(0, 0).selects(&r, 74, 5));
    assert!(matcher(2, 2).selects(&r, 74, 5));
    assert!(!matcher(3, 2).selects(&r, 74, 5));
}

#[test]
fn candidates_keep_row_order_and_skip_bad_rows() {
    let m = matcher(0, 0);
    let rows = vec![
        row(74, 5, 0, "first", "?pp<8000006e"),
        row(74, 5, 0, "broken", "not a rule"),
        row(75, 5, 0, "elsewhere", "?pp<8000006e"),
        row(74, -1, 0, "wild", "*pq>80000000"),
        row(74, 5, 1, "newer", "?pp<8000006e"),
        row(74, 6, 0, "other item", "?pp<8000006e"),
    ];
    let found = m.find_candidates(&rows, 74, 5);
    assert_eq!(found.len(), 2);
    assert_eq!(found[0].0.name, "first");
    assert_eq!(found[0].0.trigger, "?pp<8000006e");
    assert_eq!(found[0].0.discord_webhook.as_deref(), Some("https://hooks.example/first"));
    assert_eq!(found[0].1.aggregation, Aggregation::Any);
    assert_eq!(found[1].0.name, "wild");
    assert_eq!(found[1].1.aggregation, Aggregation::All);
}

#[test]
fn candidate_of_one_row() {
    let m = matcher(0, 0);
    assert!(m.candidate(&row(74, 5, 0, "a", "?pp<8000006e"), 74, 5).is_some());
    assert!(m.candidate(&row(74, 5, 0, "a", "?pp<"), 74, 5).is_none());
    assert!(m.candidate(&row(74, 5, 0, "a", "?pp<8000006e"), 74, 6).is_none());
    let r = row(74, 5, 0, "a", "?pp<8000006e");
    let alert = r.alert();
    assert_eq!(alert.name, "a");
    assert!(alert.has_endpoint());
    let copy = alert.duplicate();
    assert_eq!(copy.name, alert.name);
    assert_eq!(copy.discord_webhook, alert.discord_webhook);
    assert_eq!(copy.trigger, alert.trigger);
}
