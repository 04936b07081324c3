//! Job assembly: a storage engine, a partition manager and the mapping cache
//! wired into the context that a query compiler routes by.

use crate::cache::MappingCache;
use crate::error::RoutingError;
use crate::manager::PartitionManager;
use crate::mapping::listing_view;
use crate::registry::{StoreHandle, StoreRegistry};
use crate::strategy::PartitionStrategy;
use vstd::prelude::*;

verus! {

/// The context handed to the query compiler for one snapshot: the routing
/// strategy and the handle of the snapshot's storage engine.
#[derive(Debug)]
pub struct JobAssembly<M: PartitionManager> {
    store: StoreHandle,
    strategy: PartitionStrategy<M>,
}

impl<M: PartitionManager> JobAssembly<M> {
    /// The routing strategy of the assembly.
    pub closed spec fn routing(&self) -> PartitionStrategy<M> {
        self.strategy
    }

    /// The handle under which the storage engine was registered.
    pub closed spec fn store_handle(&self) -> StoreHandle {
        self.store
    }

    /// The assembly is the one that `manager`, `cache` and `num_servers`
    /// give: it routes for a cluster of `num_servers` workers, asks
    /// `manager`, and starts from what `cache` holds, or from nothing where
    /// `cache` serves a cluster of another size.
    pub open spec fn assembled_from(&self, manager: M, cache: MappingCache, num_servers: usize) -> bool {
        &&& self.routing().wf()
        &&& self.routing().partitioner() == manager
        &&& self.routing().cluster_size() == num_servers
        &&& self.routing().mapping() == (if cache.cluster_size() == num_servers {
            cache.mapping()
        } else {
            None
        })
    }

    /// The handle under which the storage engine is found in the registry.
    pub fn store(&self) -> (handle: StoreHandle)
        ensures
            handle == self.store_handle(),
    {
        self.store
    }

    /// The routing strategy, for reading.
    pub fn strategy(&self) -> (strategy: &PartitionStrategy<M>)
        ensures
            *strategy == self.routing(),
    {
        &self.strategy
    }

    /// The routing strategy, for routing queries, the first of which builds
    /// the mappings.
    pub fn strategy_mut(&mut self) -> (strategy: &mut PartitionStrategy<M>)
        ensures
            *strategy == old(self).routing(),
            final(self).routing() == *final(strategy),
            final(self).store_handle() == old(self).store_handle(),
    {
        &mut self.strategy
    }
}

/// Everything that a job assembly is made from, held until the assembly is
/// asked for.
#[derive(Debug)]
pub struct QueryVineyard<Q, M: PartitionManager> {
    graph_query: Q,
    graph_partitioner: M,
    mapping_cache: MappingCache,
    num_servers: usize,
}

impl<Q, M: PartitionManager> QueryVineyard<Q, M> {
    /// The storage engine.
    pub closed spec fn storage(&self) -> Q {
        self.graph_query
    }

    /// The partition manager.
    pub closed spec fn partitioner(&self) -> M {
        self.graph_partitioner
    }

    /// The mapping cache.
    pub closed spec fn cache(&self) -> MappingCache {
        self.mapping_cache
    }

    /// The number of workers of the cluster.
    pub closed spec fn cluster_size(&self) -> usize {
        self.num_servers
    }

    /// Holds the parts as they are given.
    pub fn new(
        graph_query: Q,
        graph_partitioner: M,
        mapping_cache: MappingCache,
        num_servers: usize,
    ) -> (vineyard: Self)
        ensures
            vineyard.storage() == graph_query,
            vineyard.partitioner() == graph_partitioner,
            vineyard.cache() == mapping_cache,
            vineyard.cluster_size() == num_servers,
    {
        QueryVineyard { graph_query, graph_partitioner, mapping_cache, num_servers }
    }

    /// Registers the storage engine and wires the partition manager and the
    /// cache into a routing strategy.
    ///
    /// The registry gains the storage engine as its newest entry and keeps
    /// all earlier ones; the assembly carries the handle of that entry. No
    /// mapping is built here: the first routing query does that.
    pub fn initialize_job_assembly(self, registry: &mut StoreRegistry<Q>) -> (assembly: JobAssembly<M>)
        ensures
            final(registry).stores() == old(registry).stores().push(self.storage()),
            assembly.store_handle().position() == old(registry).stores().len(),
            assembly.assembled_from(self.partitioner(), self.cache(), self.cluster_size()),
    {
        let store = registry.register(self.graph_query);
        let strategy = PartitionStrategy::new(
            self.graph_partitioner,
            self.mapping_cache,
            self.num_servers,
        );
        JobAssembly { store, strategy }
    }
}

/// Makes the job assembly of a snapshot from its parts: `QueryVineyard::new`
/// and `initialize_job_assembly` in one step.
pub fn build_job_assembly<Q, M: PartitionManager>(
    registry: &mut StoreRegistry<Q>,
    storage: Q,
    partition_manager: M,
    mapping_cache: MappingCache,
    num_servers: usize,
) -> (assembly: JobAssembly<M>)
    ensures
        final(registry).stores() == old(registry).stores().push(storage),
        assembly.store_handle().position() == old(registry).stores().len(),
        assembly.assembled_from(partition_manager, mapping_cache, num_servers),
{
    QueryVineyard::new(
        storage,
        partition_manager,
        mapping_cache,
        num_servers,
    ).initialize_job_assembly(registry)
}

/// Assembling twice from the same parts gives two assemblies in the same
/// state: the same cluster size, the same manager and the same cached
/// mapping. Where that mapping has been built, whatever the one answers to a
/// routing query the other answers too.
pub proof fn lemma_reassembly_agrees<M: PartitionManager>(
    first: JobAssembly<M>,
    second: JobAssembly<M>,
    manager: M,
    cache: MappingCache,
    num_servers: usize,
    partition: u32,
    worker: u32,
    by_partition: (Result<u32, RoutingError>, Result<u32, RoutingError>),
    by_worker: (Result<Vec<u32>, RoutingError>, Result<Vec<u32>, RoutingError>),
)
    requires
        first.assembled_from(manager, cache, num_servers),
        second.assembled_from(manager, cache, num_servers),
        first.routing().answers_worker(partition, by_partition.0),
        second.routing().answers_worker(partition, by_partition.1),
        first.routing().answers_partitions(worker, by_worker.0),
        second.routing().answers_partitions(worker, by_worker.1),
    ensures
        first.routing().cluster_size() == second.routing().cluster_size(),
        first.routing().partitioner() == second.routing().partitioner(),
        first.routing().mapping() == second.routing().mapping(),
        first.routing().mapping() is Some ==> {
            &&& by_partition.0 == by_partition.1
            &&& listing_view(by_worker.0) == listing_view(by_worker.1)
        },
{
}

} // verus!
