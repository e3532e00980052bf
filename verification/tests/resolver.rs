use graphrag::error::DisambiguateTableError;
use graphrag::record::RecordRef;
use graphrag::resolver::{
    disambiguate_table, find_match, resolve, save_table_disambiguation, Candidate, Disambiguation,
    Resolution, ResolverConfig, SimilaritySearchResult, DISAMBIGUATION_TABLE, MATCH_THRESHOLD,
    NEAREST,
};

fn candidate(id: &str, similarity: i64) -> Candidate {
    Candidate { id: id.to_string(), similarity }
}

#[test]
fn default_threshold_is_nine_tenths_and_one_candidate() {
    let config = ResolverConfig::default();
    assert_eq!(config.threshold, 900_000);
    assert_eq!(config.threshold, MATCH_THRESHOLD);
    assert_eq!(config.nearest, 1);
    assert_eq!(config.nearest, NEAREST);
}

#[test]
fn a_candidate_at_the_threshold_is_the_entity() {
    let config = ResolverConfig::default();
    let found = vec![candidate("acme", 900_000)];
    assert_eq!(resolve("Acme Corp", &found, &config), Resolution::Existing("acme".to_string()));
    let found = vec![candidate("acme", 990_000)];
    assert_eq!(resolve("Acme Corp", &found, &config), Resolution::Existing("acme".to_string()));
}

#[test]
fn a_candidate_below_the_threshold_is_passed_over() {
    let config = ResolverConfig::default();
    let found = vec![candidate("acme", 899_999)];
    assert_eq!(
        resolve("Acme Corp", &found, &config),
        Resolution::Minted("Acme_Corp".to_string())
    );
}

#[test]
fn an_empty_store_mints_the_key_form_of_the_label() {
    let config = ResolverConfig::default();
    let outcome = resolve("Bob's Diner", &Vec::new(), &config);
    assert_eq!(outcome, Resolution::Minted("Bobs_Diner".to_string()));
    assert!(outcome.is_minted());
    assert_eq!(outcome.id(), "Bobs_Diner");
}

#[test]
fn the_best_candidate_wins_and_the_first_of_equals() {
    let found = vec![
        candidate("a", 910_000),
        candidate("b", 950_000),
        candidate("c", 950_000),
        candidate("d", 100_000),
    ];
    assert_eq!(find_match(&found, 900_000), Some(1));
    assert_eq!(find_match(&found, 950_000), Some(1));
    assert_eq!(find_match(&found, 950_001), None);
    assert_eq!(find_match(&Vec::new(), 0), None);
    let config = ResolverConfig { threshold: 900_000, nearest: 4 };
    let outcome = resolve("x", &found, &config);
    assert_eq!(outcome, Resolution::Existing("b".to_string()));
    assert!(!outcome.is_minted());
}

#[test]
fn resolving_twice_gives_the_same_identifier() {
    let config = ResolverConfig::default();
    let found = vec![candidate("acme", 930_000)];
    assert_eq!(resolve("Acme", &found, &config), resolve("Acme", &found, &config));
    let none: Vec<Candidate> = Vec::new();
    let first = resolve("New Thing", &none, &config);
    assert_eq!(first, resolve("New Thing", &none, &config));
    let registered = vec![candidate(first.id(), 1_000_000)];
    let second = resolve("New Thing", &registered, &config);
    assert_eq!(second.id(), first.id());
    assert!(!second.is_minted());
}

#[test]
fn a_near_disambiguation_record_names_the_canonical_record() {
    let config = ResolverConfig::default();
    let record = RecordRef::new("person", "alice_s");
    let nearest = SimilaritySearchResult {
        canonical: Ok(RecordRef::new("person", "alice")),
        similarity: 900_000,
    };
    let outcome = disambiguate_table(record, Some(nearest), &config).unwrap();
    assert_eq!(outcome, Disambiguation::Existing(RecordRef::new("person", "alice")));
    assert_eq!(outcome.record(), &RecordRef::new("person", "alice"));
}

#[test]
fn a_far_disambiguation_record_leaves_the_record_canonical() {
    let config = ResolverConfig::default();
    let nearest = SimilaritySearchResult {
        canonical: Ok(RecordRef::new("person", "alice")),
        similarity: 899_999,
    };
    let outcome = disambiguate_table(RecordRef::new("person", "bob"), Some(nearest), &config);
    assert_eq!(outcome.unwrap(), Disambiguation::Register(RecordRef::new("person", "bob")));
    let outcome = disambiguate_table(RecordRef::new("person", "bob"), None, &config);
    assert_eq!(outcome.unwrap(), Disambiguation::Register(RecordRef::new("person", "bob")));
}

#[test]
fn an_unreadable_key_fails_only_where_it_decides() {
    let config = ResolverConfig::default();
    let near = SimilaritySearchResult { canonical: Err("bad key".to_string()), similarity: 950_000 };
    let outcome = disambiguate_table(RecordRef::new("person", "bob"), Some(near), &config);
    match outcome {
        Err(DisambiguateTableError::SurrealError(m)) => assert_eq!(m, "bad key"),
        other => panic!("unexpected outcome: {:?}", other),
    }
    let far = SimilaritySearchResult { canonical: Err("bad key".to_string()), similarity: 10 };
    let outcome = disambiguate_table(RecordRef::new("person", "bob"), Some(far), &config);
    assert_eq!(outcome.unwrap(), Disambiguation::Register(RecordRef::new("person", "bob")));
}

#[test]
fn a_disambiguation_record_is_keyed_by_the_text_of_the_record() {
    let record = save_table_disambiguation(vec![0.25f32, 0.5, 1.0], "person:alice");
    assert_eq!(DISAMBIGUATION_TABLE, "_table_disambiguations_");
    assert_eq!(record.id, RecordRef::new("_table_disambiguations_", "person:alice"));
    assert_eq!(record.embeddings, vec![0.25f32, 0.5, 1.0]);
}
