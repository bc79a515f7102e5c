//! Verified core of a multi-source, paginated job-listing scraper.
//!
//! The library holds the logic that decides what the scraper does: how a
//! probe response is split into page ranges for worker tasks, how a worker
//! reacts to rate limits and failures, how cursor pagination advances, how
//! listings are deduplicated, and how fetched detail pages are turned into
//! normalized records. All network and file traffic stays outside; callers
//! hand in plain values (status codes, response bodies, timestamps) and get
//! plain values back.

pub mod age;
pub mod cursor;
pub mod enrich;
pub mod html;
pub mod listing;
pub mod dedup;
pub mod merge;
pub mod models;
pub mod partition;
pub mod repair;
pub mod worker;
pub mod strutil;
pub mod urls;
