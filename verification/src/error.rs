//! The ways in which building the mappings or answering a routing query fails.

use vstd::prelude::*;

verus! {

/// Why a mapping could not be built or a routing query could not be answered.
#[derive(Debug, Clone, Copy, PartialEq, Eq, Structural)]
pub enum RoutingError {
    /// The partition manager reported `worker` as the owner of `partition`,
    /// and `worker` is not a worker of the cluster.
    ConfigurationError { partition: u32, worker: u32 },
    /// A routing query named a partition that the mapping does not hold.
    UnknownPartition { partition: u32 },
    /// A routing query named a worker that is not a worker of the cluster.
    InvalidWorker { worker: u32 },
    /// The partition manager could not enumerate the partitions or tell an owner.
    BuildFailure,
}

impl RoutingError {
    /// Errors that arise while the mappings are built, as opposed to those
    /// that are scoped to one routing query.
    pub open spec fn build_time(self) -> bool {
        self is ConfigurationError || self is BuildFailure
    }

    /// Whether the error arose while the mappings were built.
    pub fn is_build_time(&self) -> (b: bool)
        ensures
            b == self.build_time(),
    {
        match self {
            RoutingError::ConfigurationError { .. } => true,
            RoutingError::BuildFailure => true,
            _ => false,
        }
    }

    /// Whether the snapshot must not be served at all: true of a
    /// configuration error only. A build failure may be retried, and the two
    /// query errors concern one query.
    pub fn is_fatal(&self) -> (b: bool)
        ensures
            b == (*self is ConfigurationError),
    {
        match self {
            RoutingError::ConfigurationError { .. } => true,
            _ => false,
        }
    }
}

} // verus!
