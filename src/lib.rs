//! Verified core of a batch fetcher: it reads cross-reference identifiers out of
//! flat-text records, resolves mirror URL templates, and decides the order in
//! which lookups and downloads are run under concurrency caps.
pub mod text;
pub mod record;
pub mod template;
pub mod mirror;
pub mod fanout;
pub mod layout;
