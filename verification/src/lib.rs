//! Crawl engine for archiving a social-media account: paginated resource
//! feeds with resumable checkpoints, adaptive rate-limit backoff, tweet and
//! profile inspection, and a deduplicating media-download pipeline.

pub mod aggregate;
pub mod inspect;
pub mod orchestrator;
pub mod pagination;
pub mod rate_limit;
pub mod text;
pub mod types;
pub mod worker;
