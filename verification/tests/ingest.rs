use graphrag::error::CommonError;
use graphrag::graph::{graph_labels, Entity, Relation, TextGraph};
use graphrag::ingest::{start, step, Action, Event, IngestConfig, Ingestion};
use graphrag::plan::{
    compose, Chunk, EdgeWrite, EntityWrite, FeedData, MentionWrite, Registration, Resolved,
    Statement, Transaction,
};
use graphrag::resolver::{Candidate, ResolverConfig};
use graphrag::units::MergeRule;

type Payload = String;
type Embedding = Vec<f32>;
type State = Ingestion<Payload, Embedding>;
type Todo = Action<Payload, Embedding>;

const TEXT: &str = "Alice works at Acme. Bob works at Acme.";

fn feed(text: &str, weight: i64) -> FeedData<Payload> {
    FeedData { text: text.to_string(), weight, metadata: "{\"source\":\"test\"}".to_string() }
}

fn entity(title: &str) -> Entity<Payload> {
    Entity { title: title.to_string(), data: format!("data of {}", title) }
}

fn relation(from: &str, relation: &str, to: &str) -> Relation {
    Relation { from: from.to_string(), to: to.to_string(), relation: relation.to_string() }
}

fn acme_graph() -> TextGraph<Payload> {
    TextGraph {
        entities: vec![entity("Alice"), entity("Acme"), entity("Bob")],
        relations: vec![relation("Alice", "works at", "Acme"), relation("Bob", "works at", "Acme")],
    }
}

fn embedding_of(label: &str) -> Embedding {
    vec![label.len() as f32, 1.0]
}

fn expect_resolve(action: Todo, label: &str) {
    match action {
        Action::Resolve { label: l, nearest } => {
            assert_eq!(l, label);
            assert_eq!(nearest, 1);
        },
        other => panic!("unexpected action: {:?}", other),
    }
}

fn expect_commit(action: Todo) -> Transaction<Payload, Embedding> {
    match action {
        Action::Commit(tx) => tx,
        other => panic!("unexpected action: {:?}", other),
    }
}

fn expect_failure(state: &State, action: Todo) -> CommonError {
    assert_eq!(state, &Ingestion::Finished);
    match action {
        Action::Fail(e) => e,
        other => panic!("unexpected action: {:?}", other),
    }
}

fn until_graph(text: &str, weight: i64, raw: &str) -> (State, String) {
    let (state, action) = start::<Payload, Embedding>(feed(text, weight), IngestConfig::default());
    let paragraphs = match action {
        Action::EmbedChunks(texts) => texts,
        other => panic!("unexpected action: {:?}", other),
    };
    let embeddings: Vec<Embedding> = paragraphs.iter().map(|p| embedding_of(p)).collect();
    let (state, action) = step(state, Event::ChunksEmbedded(embeddings));
    match action {
        Action::Extract(prompt) => assert_eq!(prompt, text),
        other => panic!("unexpected action: {:?}", other),
    }
    let (state, action) = step(state, Event::Extracted(raw.to_string()));
    match action {
        Action::Parse(payload) => (state, payload),
        other => panic!("unexpected action: {:?}", other),
    }
}

fn mention(entity: &str, weight: i64) -> MentionWrite {
    MentionWrite { entity: entity.to_string(), weight, rule: MergeRule::Max }
}

fn edge(from: &str, relation: &str, to: &str, weight: i64) -> EdgeWrite {
    EdgeWrite {
        from: from.to_string(),
        relation: relation.to_string(),
        to: to.to_string(),
        weight,
        rule: MergeRule::Max,
    }
}

#[test]
fn alice_and_bob_work_at_acme() {
    let raw = "<think>Two people, one company.</think>\n```json\n{\"entities\": []}\n```";
    let (state, payload) = until_graph(TEXT, 800_000, raw);
    assert_eq!(payload, "{\"entities\": []}\n");
    let (state, action) = step(state, Event::Parsed(acme_graph()));
    expect_resolve(action, "Alice");
    let (state, action) =
        step(state, Event::Nearest { found: Vec::new(), embedding: embedding_of("Alice") });
    expect_resolve(action, "Acme");
    let acme = vec![Candidate { id: "acme".to_string(), similarity: 970_000 }];
    let (state, action) = step(state, Event::Nearest { found: acme, embedding: embedding_of("Acme") });
    expect_resolve(action, "Bob");
    let far = vec![Candidate { id: "rob".to_string(), similarity: 600_000 }];
    let (state, action) = step(state, Event::Nearest { found: far, embedding: embedding_of("Bob") });
    assert_eq!(state, Ingestion::AwaitCommit);
    let tx = expect_commit(action);

    assert_eq!(tx.document.text, TEXT);
    assert_eq!(tx.document.metadata, "{\"source\":\"test\"}");
    assert_eq!(tx.chunks, vec![Chunk { text: TEXT.to_string(), embedding: embedding_of(TEXT) }]);
    assert_eq!(
        tx.registrations,
        vec![
            Registration { id: "Alice".to_string(), embedding: embedding_of("Alice") },
            Registration { id: "Bob".to_string(), embedding: embedding_of("Bob") },
        ]
    );
    assert_eq!(
        tx.entities,
        vec![
            EntityWrite { id: "Alice".to_string(), data: "data of Alice".to_string() },
            EntityWrite { id: "acme".to_string(), data: "data of Acme".to_string() },
            EntityWrite { id: "Bob".to_string(), data: "data of Bob".to_string() },
        ]
    );
    assert_eq!(
        tx.edges,
        vec![edge("Alice", "works_at", "acme", 800_000), edge("Bob", "works_at", "acme", 800_000)]
    );
    assert!(tx.edges.iter().all(|e| e.weight <= 800_000));
    assert!(tx.edges.iter().all(|e| e.weight_after(None) == 800_000));
    assert!(tx.edges.iter().all(|e| e.weight_after(Some(300_000)) == 800_000));
    assert!(tx.edges.iter().all(|e| e.weight_after(Some(950_000)) == 950_000));
    assert!(tx.mentions.iter().all(|m| m.weight_after(None) <= 800_000));
    assert_eq!(
        tx.mentions,
        vec![mention("Alice", 800_000), mention("acme", 800_000), mention("Bob", 800_000)]
    );
    assert_eq!(tx.mentions.iter().filter(|m| m.entity == "acme").count(), 1);

    let (state, action) = step(state, Event::Committed(Some("doc1".to_string())));
    assert_eq!(state, Ingestion::Finished);
    assert_eq!(action, Action::Done("/article/doc1".to_string()));
}

#[test]
fn labels_that_meet_in_one_entity_give_one_mention() {
    let graph: TextGraph<Payload> = TextGraph {
        entities: vec![entity("Acme"), entity("Acme Corp")],
        relations: vec![
            relation("Acme", "same as", "Acme Corp"),
            relation("Acme Corp", "Owns", "ACME Inc"),
            relation("ACME Inc", "part of", "Acme"),
        ],
    };
    let resolved: Vec<Resolved<Embedding>> = vec![
        Resolved { label: "Acme".to_string(), id: "acme".to_string(), embedding: None },
        Resolved { label: "Acme Corp".to_string(), id: "acme".to_string(), embedding: None },
        Resolved { label: "ACME Inc".to_string(), id: "acme".to_string(), embedding: None },
    ];
    let tx = compose(feed("t", 500_000), Vec::new(), graph, resolved, MergeRule::Sum);
    assert_eq!(
        tx.mentions,
        vec![MentionWrite { entity: "acme".to_string(), weight: 500_000, rule: MergeRule::Sum }]
    );
    assert_eq!(tx.edges.len(), 3);
    assert!(tx.edges.iter().all(|e| e.from == "acme" && e.to == "acme"));
    assert_eq!(tx.edges[0].relation, "same_as");
    assert_eq!(tx.edges[1].relation, "owns");
    assert_eq!(tx.edges[2].relation, "part_of");
    assert!(tx.registrations.is_empty());
    assert_eq!(tx.entities.len(), 2);
}

#[test]
fn every_label_is_resolved_once_in_order_of_first_occurrence() {
    let graph: TextGraph<Payload> = TextGraph {
        entities: vec![entity("B"), entity("A"), entity("B")],
        relations: vec![relation("A", "r", "C"), relation("C", "r", "B"), relation("D", "r", "A")],
    };
    assert_eq!(graph_labels(&graph), vec!["B", "A", "C", "D"]);
    let (state, _) = until_graph("text", 1_000_000, "{}");
    let (mut state, mut action) = step(state, Event::Parsed(graph));
    for label in ["B", "A", "C", "D"] {
        expect_resolve(action, label);
        let next = step(state, Event::Nearest { found: Vec::new(), embedding: embedding_of(label) });
        state = next.0;
        action = next.1;
    }
    let tx = expect_commit(action);
    assert_eq!(tx.registrations.len(), 4);
    assert_eq!(tx.entities.len(), 3);
    assert_eq!(
        tx.mentions.iter().map(|m| m.entity.as_str()).collect::<Vec<&str>>(),
        vec!["B", "A", "C", "D"]
    );
    assert_eq!(state, Ingestion::AwaitCommit);
}

#[test]
fn an_unresolved_label_falls_back_to_its_key_form() {
    let graph: TextGraph<Payload> = TextGraph {
        entities: vec![entity("Bob's Diner")],
        relations: vec![relation("Bob's Diner", "Is In", "New York")],
    };
    let tx: Transaction<Payload, Embedding> =
        compose(feed("t", 2_000_000), Vec::new(), graph, Vec::new(), MergeRule::Replace);
    assert_eq!(tx.entities[0].id, "Bobs_Diner");
    assert_eq!(tx.edges[0].from, "Bobs_Diner");
    assert_eq!(tx.edges[0].to, "New_York");
    assert_eq!(tx.edges[0].relation, "is_in");
    assert_eq!(tx.edges[0].weight, 1_000_000);
    assert_eq!(tx.mentions.len(), 2);
    assert_eq!(tx.mentions[1].weight, 1_000_000);
}

#[test]
fn a_graph_without_labels_is_committed_at_once() {
    let (state, _) = until_graph("only text", 0, "```json\n{}\n```");
    let (state, action) = step(state, Event::Parsed(TextGraph { entities: vec![], relations: vec![] }));
    assert_eq!(state, Ingestion::AwaitCommit);
    let tx = expect_commit(action);
    assert!(tx.entities.is_empty() && tx.mentions.is_empty() && tx.edges.is_empty());
    assert_eq!(tx.chunks.len(), 1);
}

#[test]
fn the_guard_follows_the_document_and_precedes_every_write() {
    let graph = acme_graph();
    let resolved: Vec<Resolved<Embedding>> = vec![Resolved {
        label: "Alice".to_string(),
        id: "Alice".to_string(),
        embedding: Some(embedding_of("Alice")),
    }];
    let chunks = vec![
        Chunk { text: "first".to_string(), embedding: embedding_of("first") },
        Chunk { text: "second".to_string(), embedding: embedding_of("second") },
    ];
    let tx = compose(feed(TEXT, 800_000), chunks, graph, resolved, MergeRule::Max);
    let statements = tx.statements();
    assert_eq!(statements.len(), 2 + 2 + 1 + 3 + 3 + 2);
    assert!(matches!(statements[0], Statement::CreateDocument(_)));
    assert_eq!(statements[1], Statement::AbortUnlessCreated);
    assert!(matches!(statements[2], Statement::CreateChunk(_)));
    assert!(matches!(statements[3], Statement::CreateChunk(_)));
    assert!(matches!(statements[4], Statement::Register(_)));
    assert!(matches!(statements[5], Statement::UpsertEntity(_)));
    assert!(matches!(statements[8], Statement::Mention(_)));
    assert!(matches!(statements[10], Statement::Mention(_)));
    assert!(matches!(statements[11], Statement::Relate(_)));
    assert!(matches!(statements[12], Statement::Relate(_)));
    let guards = statements.iter().filter(|s| matches!(s, Statement::AbortUnlessCreated)).count();
    assert_eq!(guards, 1);
}

#[test]
fn a_commit_without_a_document_is_a_storage_failure() {
    let (state, _) = until_graph("only text", 0, "{}");
    let (state, _) = step(state, Event::Parsed(TextGraph { entities: vec![], relations: vec![] }));
    let (state, action) = step(state, Event::Committed(None));
    let error = expect_failure(&state, action);
    assert_eq!(error, CommonError::DatabaseError("could not create article".to_string()));
    assert!(error.is_retryable());
}

#[test]
fn a_weight_outside_the_unit_interval_is_refused() {
    for weight in [-1, 1_000_001, 1_500_000] {
        let (state, action) =
            start::<Payload, Embedding>(feed(TEXT, weight), IngestConfig::default());
        let error = expect_failure(&state, action);
        assert_eq!(
            error,
            CommonError::ValidationError("weight has to lie between zero and one".to_string())
        );
        assert!(!error.is_retryable());
    }
}

#[test]
fn paragraphs_are_embedded_in_one_batch() {
    let text = "First paragraph.\n\n  Second one. \n\nThird.";
    let (state, action) = start::<Payload, Embedding>(feed(text, 1_000_000), IngestConfig::default());
    assert_eq!(
        action,
        Action::EmbedChunks(vec![
            "First paragraph.".to_string(),
            "Second one.".to_string(),
            "Third.".to_string()
        ])
    );
    let embeddings = vec![vec![1.0f32], vec![2.0], vec![3.0]];
    let (state, _) = step(state, Event::ChunksEmbedded(embeddings));
    match state {
        Ingestion::AwaitExtraction { chunks, .. } => assert_eq!(
            chunks,
            vec![
                Chunk { text: "First paragraph.".to_string(), embedding: vec![1.0f32] },
                Chunk { text: "Second one.".to_string(), embedding: vec![2.0] },
                Chunk { text: "Third.".to_string(), embedding: vec![3.0] },
            ]
        ),
        other => panic!("unexpected state: {:?}", other),
    }
}

#[test]
fn a_missing_embedding_ends_the_ingestion() {
    let text = "First paragraph.\n\nSecond one.";
    let (state, _) = start::<Payload, Embedding>(feed(text, 1_000_000), IngestConfig::default());
    let (state, action) = step(state, Event::ChunksEmbedded(vec![vec![1.0f32]]));
    let error = expect_failure(&state, action);
    assert_eq!(
        error,
        CommonError::OllamaError("one embedding is needed for each paragraph".to_string())
    );
}

#[test]
fn a_failure_is_passed_on_and_ends_the_ingestion() {
    let (state, _) = start::<Payload, Embedding>(feed(TEXT, 1), IngestConfig::default());
    let down = CommonError::OllamaError("connection refused".to_string());
    let (state, action) = step(state, Event::Failed(down.clone()));
    assert_eq!(expect_failure(&state, action), down);

    let (state, _) = until_graph(TEXT, 1, "{}");
    let unreadable = CommonError::SerdeError("expected value at line 1".to_string());
    let (state, action) = step(state, Event::Failed(unreadable.clone()));
    assert_eq!(expect_failure(&state, action), unreadable);

    let (state, action) = step(state, Event::Committed(Some("x".to_string())));
    let error = expect_failure(&state, action);
    assert_eq!(error, CommonError::ValidationError("event out of order".to_string()));
}

#[test]
fn an_event_out_of_order_ends_the_ingestion() {
    let (state, _) = start::<Payload, Embedding>(feed(TEXT, 1), IngestConfig::default());
    let (state, action) = step(state, Event::Extracted("{}".to_string()));
    let error = expect_failure(&state, action);
    assert_eq!(error, CommonError::ValidationError("event out of order".to_string()));

    let (state, _) = until_graph(TEXT, 1, "{}");
    let (state, action) = step(state, Event::Committed(Some("early".to_string())));
    let error = expect_failure(&state, action);
    assert_eq!(error, CommonError::ValidationError("event out of order".to_string()));
}

#[test]
fn the_threshold_and_the_rule_are_taken_from_the_configuration() {
    let config = IngestConfig {
        resolver: ResolverConfig { threshold: 500_000, nearest: 3 },
        merge: MergeRule::Mean,
    };
    let (state, _) = start::<Payload, Embedding>(feed("t", 250_000), config);
    let (state, _) = step(state, Event::ChunksEmbedded(vec![vec![0.5f32]]));
    let (state, _) = step(state, Event::Extracted("{}".to_string()));
    let graph: TextGraph<Payload> =
        TextGraph { entities: vec![], relations: vec![relation("a", "R", "b")] };
    let (state, action) = step(state, Event::Parsed(graph));
    match action {
        Action::Resolve { label, nearest } => {
            assert_eq!(label, "a");
            assert_eq!(nearest, 3);
        },
        other => panic!("unexpected action: {:?}", other),
    }
    let near = vec![Candidate { id: "a0".to_string(), similarity: 500_000 }];
    let (state, _) = step(state, Event::Nearest { found: near, embedding: vec![] });
    let near = vec![Candidate { id: "b0".to_string(), similarity: 499_999 }];
    let (_, action) = step(state, Event::Nearest { found: near, embedding: vec![9.0] });
    let tx = expect_commit(action);
    assert_eq!(
        tx.edges,
        vec![EdgeWrite {
            from: "a0".to_string(),
            relation: "r".to_string(),
            to: "b".to_string(),
            weight: 250_000,
            rule: MergeRule::Mean,
        }]
    );
    assert_eq!(tx.registrations, vec![Registration { id: "b".to_string(), embedding: vec![9.0] }]);
}

#[test]
fn default_configuration_keeps_the_larger_weight() {
    let config = IngestConfig::default();
    assert_eq!(config.merge, MergeRule::Max);
    assert_eq!(config.resolver, ResolverConfig::default());
}
