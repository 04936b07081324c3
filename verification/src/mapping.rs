//! The two mappings between partitions and workers, built together from one
//! report and never changed afterwards.

use crate::error::RoutingError;
use crate::report::{
    cluster_check, first_report, lemma_first_misassigned, lemma_listing_contains,
    lemma_listing_distinct, lemma_owner_in_cluster, lemma_owner_push, misassigned,
    reported_listing, reported_owner, Assignment,
};
use std::collections::HashMap;
use vstd::prelude::*;

verus! {

/// What `listings` holds for `worker`: its list, or nothing where it has no
/// entry.
spec fn listing_of(listings: Map<u32, Vec<u32>>, worker: u32) -> Seq<u32> {
    if listings.contains_key(worker) {
        listings[worker]@
    } else {
        Seq::empty()
    }
}

/// An answer that lists partitions, with the list taken as a sequence.
pub open spec fn listing_view(answer: Result<Vec<u32>, RoutingError>) -> Result<
    Seq<u32>,
    RoutingError,
> {
    match answer {
        Ok(list) => Ok(list@),
        Err(e) => Err(e),
    }
}

/// A partition-to-worker mapping together with its inverse, for a cluster of
/// a fixed size.
///
/// Every value of this type is consistent: each partition it holds is owned
/// by a worker of the cluster, and a worker's listing holds exactly the
/// partitions that the mapping gives to that worker, each once. A worker that
/// owns nothing has the empty listing.
#[derive(Debug)]
pub struct PartitionMap {
    owners: HashMap<u32, u32>,
    listings: HashMap<u32, Vec<u32>>,
    num_servers: usize,
}

impl PartitionMap {
    /// The partition-to-worker mapping.
    pub closed spec fn owner(&self) -> Map<u32, u32> {
        self.owners@
    }

    /// The partitions listed for `worker`, in the order in which they are
    /// handed out. Empty for a worker that owns nothing.
    pub closed spec fn listing(&self, worker: u32) -> Seq<u32> {
        listing_of(self.listings@, worker)
    }

    /// The number of workers of the cluster that the mapping was built for.
    pub closed spec fn cluster_size(&self) -> usize {
        self.num_servers
    }

    /// The consistency that every mapping has: owners are workers of the
    /// cluster, no listing repeats a partition, and the listings are the
    /// exact inverse of the owner mapping.
    #[verifier::type_invariant]
    pub open spec fn wf(&self) -> bool {
        &&& forall|p: u32| #[trigger]
            self.owner().contains_key(p) ==> self.owner()[p] < self.cluster_size()
        &&& forall|w: u32| (#[trigger] self.listing(w)).no_duplicates()
        &&& forall|w: u32, p: u32| #[trigger]
            self.listing(w).contains(p) <==> (self.owner().contains_key(p) && self.owner()[p]
                == w)
    }

    /// The answer to "which worker owns `partition`".
    pub open spec fn worker_answer(&self, partition: u32) -> Result<u32, RoutingError> {
        if self.owner().contains_key(partition) {
            Ok(self.owner()[partition])
        } else {
            Err(RoutingError::UnknownPartition { partition })
        }
    }

    /// The answer to "which partitions does `worker` own".
    pub open spec fn partitions_answer(&self, worker: u32) -> Result<Seq<u32>, RoutingError> {
        if worker < self.cluster_size() {
            Ok(self.listing(worker))
        } else {
            Err(RoutingError::InvalidWorker { worker })
        }
    }

    /// The mapping is the one that `report` stands for in a cluster of
    /// `num_servers` workers.
    pub open spec fn describes(&self, report: Seq<Assignment>, num_servers: usize) -> bool {
        &&& self.cluster_size() == num_servers
        &&& self.owner() == reported_owner(report)
        &&& forall|w: u32| #[trigger] self.listing(w) == reported_listing(report, w)
    }

    /// Builds both mappings from a report.
    ///
    /// Fails where the cluster cannot take the report, with the configuration
    /// error of the first line that names a worker outside the cluster;
    /// nothing is built then. Otherwise each partition goes to the worker of
    /// the first line that names it.
    pub fn from_report(report: &[Assignment], num_servers: usize) -> (built: Result<
        PartitionMap,
        RoutingError,
    >)
        ensures
            match built {
                Ok(m) => {
                    &&& cluster_check(report@, num_servers) is Ok
                    &&& m.wf()
                    &&& m.describes(report@, num_servers)
                },
                Err(e) => cluster_check(report@, num_servers) == Err::<(), RoutingError>(e),
            },
    {
        let mut owners: HashMap<u32, u32> = HashMap::new();
        let mut listings: HashMap<u32, Vec<u32>> = HashMap::new();
        let mut i: usize = 0;
        while i < report.len()
            invariant
                i <= report.len(),
                forall|j: int| 0 <= j < i ==> !misassigned(#[trigger] report@[j], num_servers),
                owners@ == reported_owner(report@.take(i as int)),
                forall|w: u32| #[trigger]
                    listing_of(listings@, w) == reported_listing(report@.take(i as int), w),
            decreases report.len() - i,
        {
            let line = report[i];
            if line.worker as usize >= num_servers {
                proof {
                    lemma_first_misassigned(report@, num_servers, i as int);
                }
                return Err(
                    RoutingError::ConfigurationError {
                        partition: line.partition,
                        worker: line.worker,
                    },
                );
            }
            proof {
                let earlier = report@.take(i as int);
                let longer = report@.take(i + 1);
                assert(longer =~= earlier.push(line));
                assert(longer.drop_last() =~= earlier);
                lemma_owner_push(earlier, line);
            }
            if !owners.contains_key(&line.partition) {
                owners.insert(line.partition, line.worker);
                let ghost before = listings@;
                let mut list = match listings.remove(&line.worker) {
                    Some(list) => list,
                    None => Vec::new(),
                };
                list.push(line.partition);
                listings.insert(line.worker, list);
                assert forall|w: u32| #[trigger]
                    listing_of(listings@, w) == reported_listing(report@.take(i + 1), w) by {
                    assert(listing_of(before, w) == reported_listing(report@.take(i as int), w));
                }
            }
            i += 1;
        }
        proof {
            assert(report@.take(i as int) =~= report@);
            assert forall|p: u32| #[trigger] owners@.contains_key(p) implies owners@[p]
                < num_servers by {
                lemma_owner_in_cluster(report@, num_servers, p);
            }
            assert forall|w: u32| (#[trigger] listing_of(listings@, w)).no_duplicates() by {
                lemma_listing_distinct(report@, w);
            }
            assert forall|w: u32, p: u32| #[trigger]
                listing_of(listings@, w).contains(p) <==> (owners@.contains_key(p) && owners@[p]
                    == w) by {
                lemma_listing_contains(report@, w, p);
            }
        }
        Ok(PartitionMap { owners, listings, num_servers })
    }

    /// The number of workers of the cluster.
    pub fn num_servers(&self) -> (n: usize)
        ensures
            n == self.cluster_size(),
    {
        self.num_servers
    }

    /// The number of partitions that the mapping holds.
    pub fn partition_count(&self) -> (n: usize)
        ensures
            n == self.owner().len(),
    {
        self.owners.len()
    }

    /// The worker that owns `partition`, or `UnknownPartition` where the
    /// mapping does not hold it.
    pub fn worker_for(&self, partition: u32) -> (answer: Result<u32, RoutingError>)
        ensures
            answer == self.worker_answer(partition),
    {
        match self.owners.get(&partition) {
            Some(worker) => Ok(*worker),
            None => Err(RoutingError::UnknownPartition { partition }),
        }
    }

    /// The partitions that `worker` owns, or `InvalidWorker` where the
    /// cluster has no such worker.
    pub fn partitions_for(&self, worker: u32) -> (answer: Result<Vec<u32>, RoutingError>)
        ensures
            listing_view(answer) == self.partitions_answer(worker),
    {
        if worker as usize >= self.num_servers {
            return Err(RoutingError::InvalidWorker { worker });
        }
        match self.listings.get(&worker) {
            Some(list) => Ok(list.clone()),
            None => Ok(Vec::new()),
        }
    }
}

/// A partition is owned by a worker exactly if that worker's listing holds
/// the partition.
pub proof fn lemma_owner_inverts_listing(m: PartitionMap, partition: u32, worker: u32)
    requires
        m.wf(),
    ensures
        m.worker_answer(partition) == Ok::<u32, RoutingError>(worker) <==> (m.partitions_answer(
            worker,
        ) is Ok && m.partitions_answer(worker).unwrap().contains(partition)),
{
    assert(m.listing(worker).contains(partition) <==> (m.owner().contains_key(partition)
        && m.owner()[partition] == worker));
}

/// A partition is listed for one worker at most.
pub proof fn lemma_one_owner(m: PartitionMap, partition: u32, first: u32, second: u32)
    requires
        m.wf(),
        m.listing(first).contains(partition),
        m.listing(second).contains(partition),
    ensures
        first == second,
{
}

/// Every worker of the cluster, and no other, has an answer: its listing,
/// possibly empty, without repetitions. A worker outside the cluster is
/// listed nothing.
pub proof fn lemma_every_worker_listed(m: PartitionMap, worker: u32)
    requires
        m.wf(),
    ensures
        worker < m.cluster_size() <==> m.partitions_answer(worker) is Ok,
        m.listing(worker).no_duplicates(),
        worker >= m.cluster_size() ==> m.listing(worker).len() == 0,
{
    if worker >= m.cluster_size() && m.listing(worker).len() > 0 {
        let p = m.listing(worker)[0];
        assert(m.listing(worker).contains(p));
    }
}

/// Two mappings that stand for the same report in clusters of the same size
/// answer every routing query alike.
pub proof fn lemma_same_report_same_answers(
    first: PartitionMap,
    second: PartitionMap,
    report: Seq<Assignment>,
    num_servers: usize,
    partition: u32,
    worker: u32,
)
    requires
        first.describes(report, num_servers),
        second.describes(report, num_servers),
    ensures
        first.worker_answer(partition) == second.worker_answer(partition),
        first.partitions_answer(worker) == second.partitions_answer(worker),
{
}

/// Every partition that the report names has an owner in the mapping built
/// from it: the worker of the first line that names it, a worker of the
/// cluster.
pub proof fn lemma_every_reported_partition_owned(
    m: PartitionMap,
    report: Seq<Assignment>,
    num_servers: usize,
    i: int,
)
    requires
        m.wf(),
        m.describes(report, num_servers),
        0 <= i < report.len(),
    ensures
        m.worker_answer(report[i].partition) == Ok::<u32, RoutingError>(
            report[first_report(report, report[i].partition)].worker,
        ),
        m.worker_answer(report[i].partition).unwrap() < num_servers,
{
}

} // verus!
