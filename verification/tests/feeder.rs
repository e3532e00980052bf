use graphrag::feeder::{ends, plan_feed, Canonical, FeedWrite, Relation, RelationObject};
use graphrag::record::RecordRef;
use graphrag::units::MergeRule;

fn object(table: &str, id: &str, content: Option<&str>) -> RelationObject<String> {
    RelationObject {
        table: table.to_string(),
        id: id.to_string(),
        content: content.map(|c| c.to_string()),
    }
}

fn link(
    source: RelationObject<String>,
    name: &str,
    target: RelationObject<String>,
) -> Relation<String> {
    Relation { source, relation: name.to_string(), target }
}

fn canonical(table: &str, key: &str) -> Canonical {
    Canonical { record: RecordRef::new(table, key), text: format!("{}:{}", table, key) }
}

fn works_at() -> Vec<Relation<String>> {
    vec![
        link(
            object("person", "alice", Some("{\"age\":30}")),
            "works_at",
            object("company", "acme", None),
        ),
        link(
            object("person", "bob", None),
            "works_at",
            object("company", "acme_corp", Some("{\"city\":\"Berlin\"}")),
        ),
    ]
}

#[test]
fn both_ends_of_every_relation_are_resolved() {
    assert_eq!(
        ends(&works_at()),
        vec![
            RecordRef::new("person", "alice"),
            RecordRef::new("company", "acme"),
            RecordRef::new("person", "bob"),
            RecordRef::new("company", "acme_corp"),
        ]
    );
    assert_eq!(ends::<String>(&Vec::new()), Vec::new());
}

#[test]
fn a_feed_stores_both_ends_relates_them_and_mentions_each_record_once() {
    let resolved = vec![
        canonical("person", "alice"),
        canonical("company", "acme"),
        canonical("person", "bob"),
        canonical("company", "acme"),
    ];
    let writes = plan_feed(works_at(), &resolved, 800_000, MergeRule::Max).unwrap();
    assert_eq!(
        writes,
        vec![
            FeedWrite::Upsert {
                record: RecordRef::new("person", "alice"),
                content: Some("{\"age\":30}".to_string()),
            },
            FeedWrite::Upsert { record: RecordRef::new("company", "acme"), content: None },
            FeedWrite::Relate {
                from: RecordRef::new("person", "alice"),
                relation: "works_at".to_string(),
                to: RecordRef::new("company", "acme"),
                weight: 800_000,
                rule: MergeRule::Max,
            },
            FeedWrite::Upsert { record: RecordRef::new("person", "bob"), content: None },
            FeedWrite::Upsert {
                record: RecordRef::new("company", "acme"),
                content: Some("{\"city\":\"Berlin\"}".to_string()),
            },
            FeedWrite::Relate {
                from: RecordRef::new("person", "bob"),
                relation: "works_at".to_string(),
                to: RecordRef::new("company", "acme"),
                weight: 800_000,
                rule: MergeRule::Max,
            },
            FeedWrite::Mention { text: "person:alice".to_string(), weight: 800_000, rule: MergeRule::Max },
            FeedWrite::Mention { text: "company:acme".to_string(), weight: 800_000, rule: MergeRule::Max },
            FeedWrite::Mention { text: "person:bob".to_string(), weight: 800_000, rule: MergeRule::Max },
        ]
    );
}

#[test]
fn the_weight_of_a_feed_is_clamped() {
    let relations = vec![link(object("a", "x", None), "r", object("a", "x", None))];
    let resolved = vec![canonical("a", "x"), canonical("a", "x")];
    let writes = plan_feed(relations, &resolved, 1_500_000, MergeRule::Max).unwrap();
    assert_eq!(writes.len(), 4);
    assert_eq!(
        writes[2],
        FeedWrite::Relate {
            from: RecordRef::new("a", "x"),
            relation: "r".to_string(),
            to: RecordRef::new("a", "x"),
            weight: 1_000_000,
            rule: MergeRule::Max,
        }
    );
    assert_eq!(writes[3], FeedWrite::Mention { text: "a:x".to_string(), weight: 1_000_000, rule: MergeRule::Max });
    let relations = vec![link(object("a", "x", None), "r", object("a", "y", None))];
    let resolved = vec![canonical("a", "x"), canonical("a", "y")];
    let writes = plan_feed(relations, &resolved, -5, MergeRule::Max).unwrap();
    assert_eq!(writes[4], FeedWrite::Mention { text: "a:y".to_string(), weight: 0, rule: MergeRule::Max });
}

#[test]
fn there_is_no_plan_without_two_records_for_each_relation() {
    assert_eq!(plan_feed(works_at(), &vec![canonical("person", "alice")], 1, MergeRule::Max), None);
    assert_eq!(plan_feed(works_at(), &Vec::new(), 1, MergeRule::Max), None);
    let five = vec![
        canonical("a", "1"),
        canonical("a", "2"),
        canonical("a", "3"),
        canonical("a", "4"),
        canonical("a", "5"),
    ];
    assert_eq!(plan_feed(works_at(), &five, 1, MergeRule::Max), None);
    assert_eq!(plan_feed::<String>(Vec::new(), &Vec::new(), 1, MergeRule::Max), Some(Vec::new()));
}
