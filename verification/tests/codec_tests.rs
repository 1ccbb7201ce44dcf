use market_alerts::listing::Listing;
use market_alerts::rule::{Aggregation, Comparator, Field, Node, TriggerRule};

fn sample() -> TriggerRule {
    TriggerRule::new(
        Aggregation::Any,
        Node::and(vec![
            Node::predicate(Field::Price, Comparator::Less, 110),
            Node::or(vec![
                Node::predicate(Field::Quality, Comparator::Equal, 1),
                Node::not(Node::predicate(Field::Quantity, Comparator::GreaterOrEqual, 10)),
            ]),
        ]),
    )
}

#[test]
fn predicate_text_is_exact() {
    let rule = TriggerRule::new(Aggregation::Any, Node::predicate(Field::Price, Comparator::Less, 110));
    assert_eq!(rule.serialize(), b"?pp<8000006e".to_vec());
    let all = TriggerRule::new(Aggregation::All, Node::predicate(Field::Quantity, Comparator::Greater, -1));
    assert_eq!(all.serialize(), b"*pq>7fffffff".to_vec());
}

#[test]
fn threshold_extremes_have_exact_text() {
    let low = TriggerRule::new(Aggregation::Any, Node::predicate(Field::Quality, Comparator::Equal, i32::MIN));
    assert_eq!(low.serialize(), b"?ph=00000000".to_vec());
    let high = TriggerRule::new(
        Aggregation::Any,
        Node::predicate(Field::Price, Comparator::LessOrEqual, i32::MAX),
    );
    assert_eq!(high.serialize(), b"?pplffffffff".to_vec());
    let zero = TriggerRule::new(Aggregation::Any, Node::predicate(Field::Price, Comparator::GreaterOrEqual, 0));
    assert_eq!(zero.serialize(), b"?ppg80000000".to_vec());
}

#[test]
fn tree_text_is_exact() {
    assert_eq!(sample().serialize(), b"?&,pp<8000006e,|,ph=80000001,!pqg8000000a..".to_vec());
    let empty = TriggerRule::new(Aggregation::All, Node::and(Vec::new()));
    assert_eq!(empty.serialize(), b"*&.".to_vec());
    let none = TriggerRule::new(Aggregation::Any, Node::or(Vec::new()));
    assert_eq!(none.serialize(), b"?|.".to_vec());
}

#[test]
fn parse_reads_what_serialize_wrote() {
    let text = sample().serialize();
    let back = TriggerRule::parse(&text).expect("the text of a rule parses");
    assert_eq!(back.serialize(), text);
    assert_eq!(back.aggregation, Aggregation::Any);
}

#[test]
fn round_trip_evaluates_identically() {
    let back = TriggerRule::parse(&sample().serialize()).expect("the text of a rule parses");
    let sets = vec![
        vec![],
        vec![Listing::new(100, 1, true)],
        vec![Listing::new(100, 20, false)],
        vec![Listing::new(100, 1, false), Listing::new(90, 50, true), Listing::new(120, 1, true)],
        vec![Listing::new(500, 1, true), Listing::new(109, 9, false)],
    ];
    for listings in sets {
        assert_eq!(back.evaluate(&listings), sample().evaluate(&listings));
    }
}

#[test]
fn parse_gives_the_written_predicate() {
    let rule = TriggerRule::parse(b"*pq>7fffffff").expect("a predicate rule");
    assert_eq!(rule.aggregation, Aggregation::All);
    match rule.root {
        Node::Predicate { field, op, threshold } => {
            assert_eq!(field, Field::Quantity);
            assert_eq!(op, Comparator::Greater);
            assert_eq!(threshold, -1);
        }
        _ => panic!("not a predicate"),
    }
}

#[test]
fn parse_rejects_unknown_mode_field_and_comparator() {
    assert!(TriggerRule::parse(b"xpp<8000006e").is_none());
    assert!(TriggerRule::parse(b"?px<8000006e").is_none());
    assert!(TriggerRule::parse(b"?pp~8000006e").is_none());
    assert!(TriggerRule::parse(b"?zp<8000006e").is_none());
}

#[test]
fn parse_rejects_malformed_structure() {
    assert!(TriggerRule::parse(b"").is_none());
    assert!(TriggerRule::parse(b"?").is_none());
    assert!(TriggerRule::parse(b"?pp<8000006").is_none());
    assert!(TriggerRule::parse(b"?pp<8000006E").is_none());
    assert!(TriggerRule::parse(b"?pp<8000006g").is_none());
    assert!(TriggerRule::parse(b"?pp<8000006e ").is_none());
    assert!(TriggerRule::parse(b"?&,pp<8000006e").is_none());
    assert!(TriggerRule::parse(b"?&pp<8000006e.").is_none());
    assert!(TriggerRule::parse(b"?!").is_none());
    assert!(TriggerRule::parse(b"?&..").is_none());
    assert!(TriggerRule::parse("{\"price\":110}".as_bytes()).is_none());
}

#[test]
fn node_text_can_follow_other_text() {
    let mut out = b"head".to_vec();
    Node::not(Node::and(Vec::new())).write_text(&mut out);
    assert_eq!(out, b"head!&.".to_vec());
    let (node, end) = Node::read_text(&out, 4).expect("a node stands at 4");
    assert_eq!(end, 7);
    assert!(matches!(node, Node::Not(_)));
    assert!(Node::read_text(&out, 0).is_none());
    assert!(Node::read_text(&out, 7).is_none());
}
