//! Error types of the pipeline.

use vstd::prelude::*;

verus! {

/// The kinds of failure that a request can end in.
#[derive(Clone, Copy, Debug, PartialEq, Eq, Structural)]
pub enum ErrorKind {
    /// The model's output was missing or could not be read.
    Extraction,
    /// The embedding service failed.
    Embedding,
    /// The storage engine was unreachable or aborted the transaction.
    Storage,
    /// A parameter of the request was out of range.
    Validation,
}

/// What can go wrong while a document is ingested. Each variant carries the
/// message of the failure.
#[derive(Debug, PartialEq)]
pub enum CommonError {
    /// The storage engine failed.
    DatabaseError(String),
    /// The model service failed.
    OllamaError(String),
    /// The pattern that strips reasoning blocks was rejected.
    RegexError(String),
    /// The model's output did not hold a graph.
    SerdeError(String),
    /// A parameter of the request was out of range.
    ValidationError(String),
}

/// The mathematical value of a [`CommonError`].
pub enum CommonErrorView {
    DatabaseError(Seq<char>),
    OllamaError(Seq<char>),
    RegexError(Seq<char>),
    SerdeError(Seq<char>),
    ValidationError(Seq<char>),
}

impl View for CommonError {
    type V = CommonErrorView;

    open spec fn view(&self) -> CommonErrorView {
        match self {
            CommonError::DatabaseError(m) => CommonErrorView::DatabaseError(m@),
            CommonError::OllamaError(m) => CommonErrorView::OllamaError(m@),
            CommonError::RegexError(m) => CommonErrorView::RegexError(m@),
            CommonError::SerdeError(m) => CommonErrorView::SerdeError(m@),
            CommonError::ValidationError(m) => CommonErrorView::ValidationError(m@),
        }
    }
}

impl Clone for CommonError {
    fn clone(&self) -> (r: Self)
        ensures
            r == *self,
    {
        match self {
            CommonError::DatabaseError(m) => CommonError::DatabaseError(m.clone()),
            CommonError::OllamaError(m) => CommonError::OllamaError(m.clone()),
            CommonError::RegexError(m) => CommonError::RegexError(m.clone()),
            CommonError::SerdeError(m) => CommonError::SerdeError(m.clone()),
            CommonError::ValidationError(m) => CommonError::ValidationError(m.clone()),
        }
    }
}

impl CommonError {
    /// The kind of a failure.
    pub open spec fn kind_spec(self) -> ErrorKind {
        match self {
            CommonError::DatabaseError(_) => ErrorKind::Storage,
            CommonError::OllamaError(_) => ErrorKind::Embedding,
            CommonError::RegexError(_) => ErrorKind::Extraction,
            CommonError::SerdeError(_) => ErrorKind::Extraction,
            CommonError::ValidationError(_) => ErrorKind::Validation,
        }
    }

    /// The message that the failure carries.
    pub open spec fn message_spec(self) -> Seq<char> {
        match self {
            CommonError::DatabaseError(m) => m@,
            CommonError::OllamaError(m) => m@,
            CommonError::RegexError(m) => m@,
            CommonError::SerdeError(m) => m@,
            CommonError::ValidationError(m) => m@,
        }
    }

    /// The kind of the failure.
    pub fn kind(&self) -> (k: ErrorKind)
        ensures
            k == self.kind_spec(),
    {
        match self {
            CommonError::DatabaseError(_) => ErrorKind::Storage,
            CommonError::OllamaError(_) => ErrorKind::Embedding,
            CommonError::RegexError(_) => ErrorKind::Extraction,
            CommonError::SerdeError(_) => ErrorKind::Extraction,
            CommonError::ValidationError(_) => ErrorKind::Validation,
        }
    }

    /// Whether the same request may succeed when it is sent again: true of
    /// failures of the embedding service and of the storage engine.
    pub fn is_retryable(&self) -> (b: bool)
        ensures
            b == (self.kind_spec() == ErrorKind::Embedding || self.kind_spec()
                == ErrorKind::Storage),
    {
        match self {
            CommonError::DatabaseError(_) => true,
            CommonError::OllamaError(_) => true,
            _ => false,
        }
    }

    /// The message that the failure carries.
    pub fn message(&self) -> (m: String)
        ensures
            m@ == self.message_spec(),
    {
        match self {
            CommonError::DatabaseError(m) => m.clone(),
            CommonError::OllamaError(m) => m.clone(),
            CommonError::RegexError(m) => m.clone(),
            CommonError::SerdeError(m) => m.clone(),
            CommonError::ValidationError(m) => m.clone(),
        }
    }
}

/// What can go wrong while a record is resolved against the disambiguation
/// records.
#[derive(Debug, PartialEq)]
pub enum DisambiguateTableError {
    /// The embedding service failed.
    OllamaError(String),
    /// The storage engine failed, or a stored identifier could not be read.
    SurrealError(String),
}

impl Clone for DisambiguateTableError {
    fn clone(&self) -> (r: Self)
        ensures
            r == *self,
    {
        match self {
            DisambiguateTableError::OllamaError(m) => DisambiguateTableError::OllamaError(
                m.clone(),
            ),
            DisambiguateTableError::SurrealError(m) => DisambiguateTableError::SurrealError(
                m.clone(),
            ),
        }
    }
}

impl DisambiguateTableError {
    /// The message that the failure carries.
    pub open spec fn message_spec(self) -> Seq<char> {
        match self {
            DisambiguateTableError::OllamaError(m) => m@,
            DisambiguateTableError::SurrealError(m) => m@,
        }
    }

    /// The kind of the failure.
    pub fn kind(&self) -> (k: ErrorKind)
        ensures
            k == (match *self {
                DisambiguateTableError::OllamaError(_) => ErrorKind::Embedding,
                DisambiguateTableError::SurrealError(_) => ErrorKind::Storage,
            }),
    {
        match self {
            DisambiguateTableError::OllamaError(_) => ErrorKind::Embedding,
            DisambiguateTableError::SurrealError(_) => ErrorKind::Storage,
        }
    }

    /// The message that the failure carries.
    pub fn message(&self) -> (m: String)
        ensures
            m@ == self.message_spec(),
    {
        match self {
            DisambiguateTableError::OllamaError(m) => m.clone(),
            DisambiguateTableError::SurrealError(m) => m.clone(),
        }
    }
}

/// What can go wrong while a query is answered.
#[derive(Debug, PartialEq)]
pub enum QueryError {
    /// A parameter of the query was out of range.
    InvalidArgument(String),
    /// The node that was asked for is not stored.
    NotFound(String),
    /// The storage engine failed.
    Internal(String),
}

impl QueryError {
    /// The message that the failure carries.
    pub open spec fn message_spec(self) -> Seq<char> {
        match self {
            QueryError::InvalidArgument(m) => m@,
            QueryError::NotFound(m) => m@,
            QueryError::Internal(m) => m@,
        }
    }

    /// The message that the failure carries.
    pub fn message(&self) -> (m: String)
        ensures
            m@ == self.message_spec(),
    {
        match self {
            QueryError::InvalidArgument(m) => m.clone(),
            QueryError::NotFound(m) => m.clone(),
            QueryError::Internal(m) => m.clone(),
        }
    }
}

} // verus!
