//! A durable relay from HTTP to a topic-addressed message broker, at least
//! once. The library holds the decisions: what the ingestion gateway answers
//! and enqueues, and the delivery worker and startup recovery pass as state
//! machines whose requests (publish, save, list, delete) their surroundings
//! carry out and report back on.
pub mod gateway;
pub mod models;
pub mod recovery;
pub mod stats;
pub mod utils;
pub mod worker;
