use graphrag::error::{CommonError, DisambiguateTableError, ErrorKind, QueryError};

#[test]
fn every_failure_has_its_kind() {
    assert_eq!(CommonError::DatabaseError("x".to_string()).kind(), ErrorKind::Storage);
    assert_eq!(CommonError::OllamaError("x".to_string()).kind(), ErrorKind::Embedding);
    assert_eq!(CommonError::RegexError("x".to_string()).kind(), ErrorKind::Extraction);
    assert_eq!(CommonError::SerdeError("x".to_string()).kind(), ErrorKind::Extraction);
    assert_eq!(CommonError::ValidationError("x".to_string()).kind(), ErrorKind::Validation);
    assert_eq!(DisambiguateTableError::OllamaError("x".to_string()).kind(), ErrorKind::Embedding);
    assert_eq!(DisambiguateTableError::SurrealError("x".to_string()).kind(), ErrorKind::Storage);
}

#[test]
fn storage_and_embedding_failures_may_be_retried() {
    assert!(CommonError::DatabaseError("x".to_string()).is_retryable());
    assert!(CommonError::OllamaError("x".to_string()).is_retryable());
    assert!(!CommonError::RegexError("x".to_string()).is_retryable());
    assert!(!CommonError::SerdeError("x".to_string()).is_retryable());
    assert!(!CommonError::ValidationError("x".to_string()).is_retryable());
}

#[test]
fn a_failure_carries_its_message() {
    assert_eq!(CommonError::DatabaseError("down".to_string()).message(), "down");
    assert_eq!(CommonError::SerdeError("eof".to_string()).message(), "eof");
    assert_eq!(DisambiguateTableError::SurrealError("bad id".to_string()).message(), "bad id");
    assert_eq!(DisambiguateTableError::OllamaError("busy".to_string()).message(), "busy");
    assert_eq!(QueryError::NotFound("node not found".to_string()).message(), "node not found");
    assert_eq!(QueryError::InvalidArgument("m".to_string()).message(), "m");
    assert_eq!(QueryError::Internal("i".to_string()).message(), "i");
}

#[test]
fn a_copy_of_a_failure_equals_it() {
    let e = CommonError::RegexError("unclosed group".to_string());
    assert_eq!(e.clone(), e);
    let d = DisambiguateTableError::OllamaError("busy".to_string());
    assert_eq!(d.clone(), d);
}
