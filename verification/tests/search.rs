use graphrag::error::QueryError;
use graphrag::record::RecordRef;
use graphrag::search::{
    keep_reaching, similarity_search, validate_minimum_similarity, DocumentMatch, DEFAULT_LIMIT,
};

fn found(document: &str, similarity: i64) -> DocumentMatch {
    DocumentMatch {
        document: document.to_string(),
        text: format!("text of {}", document),
        similarity,
        mentions: Vec::new(),
    }
}

fn millionths(x: f64) -> i64 {
    (x * 1_000_000.0).round() as i64
}

#[test]
fn a_minimum_of_one_and_a_half_is_refused() {
    let candidates = vec![found("a", 950_000)];
    match similarity_search(candidates, millionths(1.5), 10) {
        Err(QueryError::InvalidArgument(m)) => assert_eq!(
            m,
            "Minimun similarity has to be bigger than zero and smaller or equal than one."
        ),
        other => panic!("unexpected answer: {:?}", other),
    }
    assert!(validate_minimum_similarity(1_500_000).is_err());
    assert!(validate_minimum_similarity(-1).is_err());
    assert_eq!(validate_minimum_similarity(0), Ok(0));
    assert_eq!(validate_minimum_similarity(1_000_000), Ok(1_000_000));
    assert_eq!(validate_minimum_similarity(900_000), Ok(900_000));
}

#[test]
fn a_minimum_of_nine_tenths_keeps_only_what_reaches_it() {
    let candidates = vec![
        found("low", 899_999),
        found("edge", 900_000),
        found("high", 990_000),
        found("nothing", 0),
        found("mid", 930_000),
    ];
    let answer = similarity_search(candidates, millionths(0.9), DEFAULT_LIMIT).unwrap();
    assert_eq!(answer, vec![found("high", 990_000), found("mid", 930_000), found("edge", 900_000)]);
    assert!(answer.iter().all(|m| m.similarity >= 900_000));
}

#[test]
fn matches_come_most_similar_first_and_no_more_than_the_limit() {
    let candidates = vec![
        found("c", 300_000),
        found("a", 900_000),
        found("d", 100_000),
        found("b", 500_000),
    ];
    let answer = similarity_search(candidates, 0, 2).unwrap();
    assert_eq!(answer, vec![found("a", 900_000), found("b", 500_000)]);
    let candidates = vec![found("c", 300_000), found("a", 900_000)];
    assert_eq!(similarity_search(candidates, 0, 0).unwrap(), Vec::new());
    let candidates = vec![found("c", 300_000), found("a", 900_000)];
    assert_eq!(
        similarity_search(candidates, 0, 7).unwrap(),
        vec![found("a", 900_000), found("c", 300_000)]
    );
    assert_eq!(DEFAULT_LIMIT, 300);
}

#[test]
fn equally_similar_matches_keep_their_order() {
    let candidates = vec![found("x", 7), found("a", 9), found("y", 7), found("b", 9), found("z", 7)];
    let answer = similarity_search(candidates, 0, 4).unwrap();
    assert_eq!(answer, vec![found("a", 9), found("b", 9), found("x", 7), found("y", 7)]);
}

#[test]
fn a_match_keeps_its_mentions() {
    let with_mentions = DocumentMatch {
        document: "input_article:1".to_string(),
        text: "Alice works at Acme.".to_string(),
        similarity: 950_000,
        mentions: vec![RecordRef::new("entity", "acme"), RecordRef::new("entity", "alice")],
    };
    let answer = similarity_search(vec![found("x", 10), with_mentions], 500_000, 5).unwrap();
    assert_eq!(answer.len(), 1);
    assert_eq!(answer[0].document, "input_article:1");
    assert_eq!(answer[0].text, "Alice works at Acme.");
    assert_eq!(
        answer[0].mentions,
        vec![RecordRef::new("entity", "acme"), RecordRef::new("entity", "alice")]
    );
}

#[test]
fn candidates_below_the_minimum_are_dropped_in_order() {
    let kept = keep_reaching(vec![found("a", 5), found("b", 1), found("c", 9), found("d", 5)], 5);
    assert_eq!(kept, vec![found("a", 5), found("c", 9), found("d", 5)]);
}
