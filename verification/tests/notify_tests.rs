use market_alerts::listing::{Listing, MarketUpdateEvent};
use market_alerts::matcher::{AlertMatcher, AlertRow, UserAlert, VersionWindow};
use market_alerts::notify::{append_decimal, compose_notification, get_universalis_url, ACCENT_COLOR};
use market_alerts::pipeline::{plan_dispatch, plan_dispatches, process_event};
use market_alerts::rule::{Aggregation, Comparator, Field, Node, TriggerRule};

fn alert(name: &str, endpoint: Option<&str>) -> UserAlert {
    UserAlert {
        name: name.to_string(),
        discord_webhook: endpoint.map(|e| e.to_string()),
        trigger: "?pp<8000006e".to_string(),
    }
}

fn price_below(threshold: i32) -> TriggerRule {
    TriggerRule::new(Aggregation::Any, Node::predicate(Field::Price, Comparator::Less, threshold))
}

fn listings() -> Vec<Listing> {
    vec![Listing::new(100, 1, false), Listing::new(90, 1, false), Listing::new(120, 1, false)]
}

fn decimal(n: i32) -> String {
    let mut s = String::new();
    append_decimal(n, &mut s);
    s
}

#[test]
fn decimal_text_of_integers() {
    assert_eq!(decimal(0), "0");
    assert_eq!(decimal(7), "7");
    assert_eq!(decimal(10), "10");
    assert_eq!(decimal(90), "90");
    assert_eq!(decimal(-1), "-1");
    assert_eq!(decimal(1234567890), "1234567890");
    assert_eq!(decimal(i32::MAX), "2147483647");
    assert_eq!(decimal(i32::MIN), "-2147483648");
    let mut s = String::from("n=");
    append_decimal(-305, &mut s);
    assert_eq!(s, "n=-305");
}

#[test]
fn market_url_is_exact() {
    assert_eq!(get_universalis_url(5, "Cerberus"), "https://universalis.app/market/5?server=Cerberus");
    assert_eq!(
        get_universalis_url(36109, "Moogle"),
        "https://universalis.app/market/36109?server=Moogle"
    );
}

#[test]
fn notification_is_exact() {
    let a = alert("my alert", Some("https://hooks.example/x"));
    let n = compose_notification(&a, 5, "Copper Ore", "Cerberus", 90).expect("the alert has an endpoint");
    assert_eq!(n.endpoint, "https://hooks.example/x");
    assert_eq!(n.url, "https://universalis.app/market/5?server=Cerberus");
    assert_eq!(n.title, "Alert triggered for Copper Ore on Cerberus");
    assert_eq!(n.footer_text, "universalis.app | my alert | All prices include GST");
    assert_eq!(
        n.description,
        "One of your alerts has been triggered for the following reason(s):\n```c\n?pp<8000006e\n\nValue: 90```\nYou can view the item page on Universalis by clicking [this link](https://universalis.app/market/5?server=Cerberus)."
    );
    assert_eq!(n.color, 0xBD983A);
    assert_eq!(n.color, ACCENT_COLOR);
    assert_eq!(n.footer_icon_url, "https://universalis.app/favicon.png");
    assert_eq!(n.author_name, "Universalis Alert!");
    assert_eq!(n.author_icon_url, "https://cdn.discordapp.com/emojis/474543539771015168.png");
}

#[test]
fn alert_without_endpoint_is_never_notified() {
    let a = alert("inert", None);
    assert!(!a.has_endpoint());
    assert!(compose_notification(&a, 5, "Copper Ore", "Cerberus", 90).is_none());
    assert!(plan_dispatch(&a, &price_below(110), &listings()).is_none());
    let found = vec![(alert("inert", None), price_below(110))];
    assert!(plan_dispatches(&found, &listings()).is_empty());
}

#[test]
fn dispatch_carries_the_reported_price() {
    let a = alert("live", Some("https://hooks.example/x"));
    let d = plan_dispatch(&a, &price_below(110), &listings()).expect("the rule fires");
    assert_eq!(d.value, 90);
    assert_eq!(d.alert.name, "live");
    assert!(plan_dispatch(&a, &price_below(50), &listings()).is_none());
}

#[test]
fn dispatches_keep_candidate_order() {
    let found = vec![
        (alert("one", Some("https://hooks.example/1")), price_below(110)),
        (alert("inert", None), price_below(110)),
        (alert("quiet", Some("https://hooks.example/2")), price_below(50)),
        (alert("two", Some("https://hooks.example/3")), price_below(95)),
    ];
    let out = plan_dispatches(&found, &listings());
    assert_eq!(out.len(), 2);
    assert_eq!(out[0].alert.name, "one");
    assert_eq!(out[0].value, 90);
    assert_eq!(out[1].alert.name, "two");
    assert_eq!(out[1].value, 90);
}

#[test]
fn event_is_matched_evaluated_and_planned() {
    let matcher = AlertMatcher::new(VersionWindow::new(0, 0));
    let row = |item_id: i32, version: i32, name: &str, hook: Option<&str>, trigger: &str| AlertRow {
        world_id: 74,
        item_id,
        trigger_version: version,
        name: name.to_string(),
        discord_webhook: hook.map(|h| h.to_string()),
        trigger: trigger.to_string(),
    };
    let rows = vec![
        row(5, 0, "fires", Some("h1"), "?pp<8000006e"),
        row(5, 0, "broken", Some("h2"), "garbage"),
        row(-1, 0, "wild", Some("h3"), "?pp<80000064"),
        row(5, 0, "inert", None, "?pp<8000006e"),
        row(5, 7, "unsupported", Some("h4"), "?pp<8000006e"),
        row(5, 0, "all", Some("h5"), "*pp<8000006e"),
    ];
    let event = MarketUpdateEvent { world_id: 74, item_id: 5, listings: listings() };
    let out = process_event(&matcher, &event, &rows);
    assert_eq!(out.len(), 2);
    assert_eq!(out[0].alert.name, "fires");
    assert_eq!(out[0].value, 90);
    assert_eq!(out[1].alert.name, "wild");
    assert_eq!(out[1].value, 90);
}
