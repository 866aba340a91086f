//! Verified decision logic of the Stellar Kubernetes operator.

pub mod text;
pub mod char_class;
pub mod clock;
pub mod dr;
pub mod horizon_cache;
pub mod metrics;
pub mod crd;
pub mod operator_config;
pub mod chaos;
pub mod audit;
pub mod compliance;
pub mod cross_region;
pub mod health;
pub mod snapshot;
pub mod soroban;
pub mod gitops;
pub mod pvc;
pub mod maintenance;
pub mod topology;
pub mod spot_drain;
pub mod horizon_metrics_collector;
pub mod performance;
pub mod observability;
