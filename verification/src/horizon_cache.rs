//! Multi-tier caching for Horizon query optimization.
//!
//! L1 is an in-memory LRU, L2 a shared store (Redis in production), L3 a CDN
//! edge cache for static and historical queries.

pub mod cache;
pub mod optimizer;
pub mod streaming;
pub mod invalidation;
pub mod metrics;
pub mod prefetch;
