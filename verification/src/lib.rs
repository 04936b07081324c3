//! Partition-to-worker routing for a distributed graph query engine.
//!
//! A graph snapshot is split into partitions, each owned by one worker of a
//! cluster of `num_servers` workers. This crate turns what a partition manager
//! reports into a pair of mutually inverse mappings, keeps them in a lazily
//! filled cache, answers the two routing queries of a query compiler from it,
//! and wires the whole into a job assembly.

pub mod assemble;
pub mod cache;
pub mod error;
pub mod manager;
pub mod mapping;
pub mod registry;
pub mod report;
pub mod strategy;

pub use crate::assemble::{build_job_assembly, JobAssembly, QueryVineyard};
pub use crate::cache::MappingCache;
pub use crate::error::RoutingError;
pub use crate::manager::PartitionManager;
pub use crate::mapping::PartitionMap;
pub use crate::registry::{StoreHandle, StoreRegistry};
pub use crate::report::Assignment;
pub use crate::strategy::PartitionStrategy;
