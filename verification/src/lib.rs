//! Bulk-loads line-delimited JSON crawl records into a full-text search
//! index, classifying each record against a static domain blocklist.
//!
//! The verified library holds the ingestion logic: deriving indexable
//! fields (preview, language, NSFW flag), parsing record lines, the
//! blocklist and its matching policy, and the batch-commit bookkeeping.
//! File discovery, the index engine itself and all I/O live outside it.

pub mod blocklist;
pub mod domain;
pub mod pipeline;
pub mod record;
pub mod text;
