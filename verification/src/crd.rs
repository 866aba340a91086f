//! The parts of the StellarNode custom resource that the operator logic reads.

use vstd::prelude::*;

verus! {

/// The kind of Stellar node a StellarNode runs.
#[derive(Debug, Clone, Copy, PartialEq, Eq, Hash, Structural)]
pub enum NodeType {
    Validator,
    Horizon,
    SorobanRpc,
}

/// CPU and memory quantities, as Kubernetes writes them ("500m", "1Gi").
#[derive(Debug, Clone, PartialEq, Eq)]
pub struct ResourceSpec {
    pub cpu: String,
    pub memory: String,
}

/// Resource requests and limits of a container.
#[derive(Debug, Clone, PartialEq, Eq)]
pub struct ResourceRequirements {
    pub requests: ResourceSpec,
    pub limits: ResourceSpec,
}

/// Database maintenance settings of a node.
#[derive(Debug, Clone, PartialEq, Eq)]
pub struct DbMaintenanceConfig {
    pub enabled: bool,
    /// Start of the daily window, `HH:MM` or `HH:MM:SS`.
    pub window_start: String,
    /// Length of the window, such as `2h`, `90m` or `1h30m`.
    pub window_duration: String,
    pub bloat_threshold_percent: u32,
    pub auto_reindex: bool,
    pub read_pool_coordination: bool,
    pub enable_query_profiling: bool,
    pub auto_index_maintenance: bool,
    pub slow_query_threshold_ms: u32,
}

/// The Stellar network a node joins.
#[derive(Debug, Clone, PartialEq, Eq)]
pub enum StellarNetwork {
    Mainnet,
    Testnet,
    Futurenet,
    /// A custom network, by its passphrase.
    Custom(String),
}

} // verus!
