//! The routing strategy: the two queries of a query compiler, answered from
//! the cached mappings, which the first query builds.

use crate::cache::{published, survey_outcome, survey_view, MappingCache};
use crate::error::RoutingError;
use crate::manager::PartitionManager;
use crate::mapping::{listing_view, PartitionMap};
use crate::report::Assignment;
use vstd::prelude::*;

verus! {

/// A partition manager and the mapping cache of a cluster, seen as one
/// routing strategy. The strategy has no state of its own but the cache.
#[derive(Debug)]
pub struct PartitionStrategy<M: PartitionManager> {
    manager: M,
    cache: MappingCache,
}

impl<M: PartitionManager> PartitionStrategy<M> {
    /// The mapping that the cache holds, where it has been built.
    pub closed spec fn mapping(&self) -> Option<PartitionMap> {
        self.cache.mapping()
    }

    /// The number of workers of the cluster, fixed when the strategy is made.
    pub closed spec fn cluster_size(&self) -> usize {
        self.cache.cluster_size()
    }

    /// The partition manager that the strategy asks on first use.
    pub closed spec fn partitioner(&self) -> M {
        self.manager
    }

    /// The cached mapping, if any, is consistent and was built for this
    /// cluster size.
    pub open spec fn wf(&self) -> bool {
        self.mapping() matches Some(m) ==> m.wf() && m.cluster_size() == self.cluster_size()
    }

    /// What a routing query keeps of a strategy: its cluster size, its
    /// manager, and its mapping once it has one.
    pub open spec fn steps_to(&self, after: Self) -> bool {
        &&& after.wf()
        &&& after.cluster_size() == self.cluster_size()
        &&& after.partitioner() == self.partitioner()
        &&& self.mapping() is Some ==> after.mapping() == self.mapping()
    }

    /// `answer` is what a strategy in this state gives for `partition`: the
    /// mapping's answer where the mapping is built, and the error of the
    /// build where it is not.
    pub open spec fn answers_worker(&self, partition: u32, answer: Result<u32, RoutingError>) -> bool {
        match self.mapping() {
            Some(m) => answer == m.worker_answer(partition),
            None => answer is Err && answer->Err_0.build_time(),
        }
    }

    /// `answer` is what a strategy in this state gives for `worker`:
    /// `InvalidWorker` for a worker outside the cluster, else the mapping's
    /// answer where the mapping is built, and the error of the build where
    /// it is not.
    pub open spec fn answers_partitions(
        &self,
        worker: u32,
        answer: Result<Vec<u32>, RoutingError>,
    ) -> bool {
        if worker >= self.cluster_size() {
            answer == Err::<Vec<u32>, RoutingError>(RoutingError::InvalidWorker { worker })
        } else {
            match self.mapping() {
                Some(m) => listing_view(answer) == m.partitions_answer(worker),
                None => answer is Err && answer->Err_0.build_time(),
            }
        }
    }

    /// A strategy over `manager` and `cache` for a cluster of `num_servers`
    /// workers.
    ///
    /// A cache that serves a cluster of another size is stale: the strategy
    /// starts from an empty one instead, and the first query builds anew.
    pub fn new(manager: M, cache: MappingCache, num_servers: usize) -> (strategy: Self)
        ensures
            strategy.wf(),
            strategy.cluster_size() == num_servers,
            strategy.partitioner() == manager,
            strategy.mapping() == (if cache.cluster_size() == num_servers {
                cache.mapping()
            } else {
                None
            }),
    {
        let cache = if cache.num_servers() == num_servers {
            cache
        } else {
            MappingCache::new(num_servers)
        };
        proof {
            use_type_invariant(&cache);
        }
        PartitionStrategy { manager, cache }
    }

    /// The number of workers of the cluster.
    pub fn num_servers(&self) -> (n: usize)
        ensures
            n == self.cluster_size(),
    {
        self.cache.num_servers()
    }

    /// The partition manager.
    pub fn manager(&self) -> (manager: &M)
        ensures
            *manager == self.partitioner(),
    {
        &self.manager
    }

    /// The cached mapping, where it has been built: a pure read that never
    /// asks the manager.
    pub fn cached(&self) -> (m: Option<&PartitionMap>)
        ensures
            match m {
                Some(m) => {
                    &&& self.mapping() == Some(*m)
                    &&& m.wf()
                    &&& m.cluster_size() == self.cluster_size()
                },
                None => self.mapping() is None,
            },
    {
        self.cache.get()
    }

    /// Fills the cache from the outcome of a survey of the partition manager
    /// that the caller has made itself, as `MappingCache::publish` does. A
    /// strategy whose mappings are built ignores the survey.
    pub fn publish(&mut self, survey: Option<Vec<Assignment>>) -> (done: Result<(), RoutingError>)
        ensures
            old(self).steps_to(*final(self)),
            old(self).mapping() is Some ==> done == Ok::<(), RoutingError>(()),
            old(self).mapping() is None ==> {
                &&& done == survey_outcome(survey_view(survey), old(self).cluster_size())
                &&& published(survey_view(survey), old(self).cluster_size(), final(self).mapping())
            },
    {
        self.cache.publish(survey)
    }

    /// The worker that owns `partition`.
    ///
    /// Resolves through the cache, which the first call builds. Once the
    /// cache is built the call changes nothing and answers from it:
    /// `UnknownPartition` where the mapping lacks the partition. Where the
    /// build fails the cache stays empty and the build error is returned.
    pub fn worker_for(&mut self, partition: u32) -> (answer: Result<u32, RoutingError>)
        ensures
            old(self).steps_to(*final(self)),
            final(self).answers_worker(partition, answer),
    {
        match self.cache.get_or_build(&self.manager) {
            Ok(m) => m.worker_for(partition),
            Err(e) => Err(e),
        }
    }

    /// The partitions that `worker` owns, each once.
    ///
    /// A worker outside the cluster is refused with `InvalidWorker` before
    /// anything else happens. Otherwise the call resolves through the cache
    /// as `worker_for` does, and answers with the worker's listing, which is
    /// empty for a worker that owns nothing.
    pub fn partitions_for(&mut self, worker: u32) -> (answer: Result<Vec<u32>, RoutingError>)
        ensures
            old(self).steps_to(*final(self)),
            final(self).answers_partitions(worker, answer),
            worker >= old(self).cluster_size() ==> final(self).mapping() == old(self).mapping(),
    {
        if worker as usize >= self.cache.num_servers() {
            proof {
                use_type_invariant(&self.cache);
            }
            return Err(RoutingError::InvalidWorker { worker });
        }
        match self.cache.get_or_build(&self.manager) {
            Ok(m) => m.partitions_for(worker),
            Err(e) => Err(e),
        }
    }
}

/// In any one state of a strategy, `worker_for` answers `worker` for
/// `partition` exactly if `partitions_for` answers for `worker` with a list
/// that holds `partition`.
pub proof fn lemma_routing_is_inverse<M: PartitionManager>(
    strategy: PartitionStrategy<M>,
    partition: u32,
    worker: u32,
    by_partition: Result<u32, RoutingError>,
    by_worker: Result<Vec<u32>, RoutingError>,
)
    requires
        strategy.wf(),
        strategy.answers_worker(partition, by_partition),
        strategy.answers_partitions(worker, by_worker),
    ensures
        by_partition == Ok::<u32, RoutingError>(worker) <==> (by_worker is Ok
            && by_worker->Ok_0@.contains(partition)),
{
    if strategy.mapping() is Some {
        let m = strategy.mapping().unwrap();
        assert(m.listing(worker).contains(partition) <==> (m.owner().contains_key(partition)
            && m.owner()[partition] == worker));
    }
}

/// Once the mappings are built, every worker of the cluster gets a list,
/// possibly empty and without repetitions, and every partition of the mapping
/// gets a worker of the cluster.
pub proof fn lemma_routing_is_total<M: PartitionManager>(
    strategy: PartitionStrategy<M>,
    partition: u32,
    worker: u32,
    by_partition: Result<u32, RoutingError>,
    by_worker: Result<Vec<u32>, RoutingError>,
)
    requires
        strategy.wf(),
        strategy.mapping() is Some,
        strategy.answers_worker(partition, by_partition),
        strategy.answers_partitions(worker, by_worker),
    ensures
        worker < strategy.cluster_size() <==> by_worker is Ok,
        by_worker matches Ok(list) ==> list@.no_duplicates(),
        strategy.mapping().unwrap().owner().contains_key(partition) <==> by_partition is Ok,
        by_partition matches Ok(w) ==> w < strategy.cluster_size(),
{
}

/// Over any run of routing queries, a strategy whose mappings have been
/// built holds the same mapping ever after.
pub proof fn lemma_built_mapping_stays<M: PartitionManager>(
    states: Seq<PartitionStrategy<M>>,
    i: int,
    j: int,
)
    requires
        forall|k: int|
            0 <= k < states.len() - 1 ==> (#[trigger] states[k]).steps_to(states[k + 1]),
        0 <= i <= j < states.len(),
        states[i].mapping() is Some,
    ensures
        states[j].mapping() == states[i].mapping(),
        states[j].cluster_size() == states[i].cluster_size(),
    decreases j - i,
{
    if i < j {
        lemma_built_mapping_stays(states, i, j - 1);
    }
}

/// Once the mappings are built, a query asked again gets the same answer,
/// however many other queries came between.
pub proof fn lemma_repeated_queries_agree<M: PartitionManager>(
    earlier: PartitionStrategy<M>,
    later: PartitionStrategy<M>,
    partition: u32,
    worker: u32,
    by_partition: (Result<u32, RoutingError>, Result<u32, RoutingError>),
    by_worker: (Result<Vec<u32>, RoutingError>, Result<Vec<u32>, RoutingError>),
)
    requires
        earlier.mapping() is Some,
        later.mapping() == earlier.mapping(),
        later.cluster_size() == earlier.cluster_size(),
        earlier.answers_worker(partition, by_partition.0),
        later.answers_worker(partition, by_partition.1),
        earlier.answers_partitions(worker, by_worker.0),
        later.answers_partitions(worker, by_worker.1),
    ensures
        by_partition.0 == by_partition.1,
        listing_view(by_worker.0) == listing_view(by_worker.1),
{
}

} // verus!
