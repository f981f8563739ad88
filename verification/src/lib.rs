//! Update-ingestion coordinator for a document search engine.
//!
//! The coordinator accepts mutating operations against named collections
//! (document additions, deletions, settings changes), captures their
//! streamed payloads as addressable blobs, validates payloads as
//! well-formed JSON with a cheap streaming check (falling back to a full
//! parse only to produce a precise diagnostic), and registers each update
//! with a persistent, per-collection-partitioned update log that assigns
//! strictly increasing sequence ids.

pub mod update;
pub mod validation;
pub mod payload;
pub mod store;
pub mod actor;
