//! Scrape-diff-dispatch pipeline: crawls paginated listings, keeps only the
//! records whose fingerprint changed since the last observation, and groups
//! them into bounded batches for a message queue.

pub mod item;
pub mod vec_util;
pub mod fingerprint;
pub mod scraper_config;
pub mod snapshot;
pub mod hash_comparison;
pub mod dispatch;
pub mod crawl;
pub mod pipeline;
pub mod militariamart;
