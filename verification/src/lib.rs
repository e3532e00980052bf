//! Entity resolution, ingestion planning and neighborhood queries for a
//! knowledge graph that is extracted from free text.
//!
//! A text is split into paragraphs and handed to a model, which returns a
//! candidate graph of entities and relations. Every label of the graph is
//! resolved against the entities that are stored already, by the similarity
//! of embeddings, and all writes of the document are composed into one
//! transaction. Two queries read the graph back: the neighborhood of a node
//! and the documents most similar to a text.
//!
//! The crate decides and computes; it does not talk to the model, to the
//! embedding service or to the store. Whoever drives it performs these calls
//! and hands the outcomes in. Similarities and weights are fixed-point
//! numbers, payloads and embeddings are carried through unread.
//!
//! - [`units`]: the unit interval in fixed point, and how weights merge.
//! - [`chars`], [`text`]: trimming, label keys, paragraphs.
//! - [`payload`]: the structured payload inside the raw output of the model.
//! - [`record`], [`graph`]: references to records, the candidate graph.
//! - [`resolver`]: whether a label names a stored entity or a new one.
//! - [`plan`]: the transaction of one ingestion.
//! - [`ingest`]: the ingestion as a machine of states, events and actions.
//! - [`feeder`]: the writes of a feed of relations between records.
//! - [`rank`], [`neighbors`], [`search`]: ordered answers to the two queries.
//! - [`error`], [`models`]: failures, and views of lists.

pub mod chars;
pub mod error;
pub mod feeder;
pub mod graph;
pub mod ingest;
pub mod models;
pub mod neighbors;
pub mod payload;
pub mod plan;
pub mod rank;
pub mod record;
pub mod resolver;
pub mod search;
pub mod text;
pub mod units;
