//! Tracks the lifecycle of URLs submitted to a community wiki through chat
//! channels, and polls external RSS feeds for new content to republish.
//!
//! The two verified cores are the URL status reconciliation engine
//! (classify, deduplicate and transition URL records between the
//! `Pending`/`Added`/`Removed` states) and the bounded-concurrency feed
//! polling scheduler (select due feeds, bound in-flight checks, deduplicate
//! entries and deliver new ones oldest first).
pub mod channels;
pub mod config;
pub mod constants;
pub mod drama;
pub mod errors;
pub mod feeds;
pub mod format;
pub mod fun;
pub mod message;
pub mod html;
pub mod messages;
pub mod ingest;
pub mod reconcile;
pub mod records;
pub mod scheduler;
pub mod stale;
pub mod status;
pub mod store;
pub mod textutil;
pub mod threads;
pub mod urls;
pub mod wiki;
