//! Database maintenance of Stellar nodes: when maintenance may run, and the
//! index recommendations drawn from slow queries.

pub mod controller;
pub mod query_profiler;
