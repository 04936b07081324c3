//! The lazily filled cache of the mappings: empty until the first build
//! succeeds, unchanged from then on.
//!
//! The discipline of readers and writers is in the signatures. Building
//! takes `&mut self`, so one caller builds and nobody reads meanwhile;
//! reading takes `&self`, so any number of callers read a built cache side by
//! side. Which lock, if any, hands those references out is the caller's
//! choice.

use crate::error::RoutingError;
use crate::manager::{ask_owners, PartitionManager};
use crate::mapping::{lemma_same_report_same_answers, PartitionMap};
use crate::report::{cluster_check, Assignment};
use vstd::prelude::*;

verus! {

/// The outcome of a survey, with its report taken as a sequence.
pub open spec fn survey_view(survey: Option<Vec<Assignment>>) -> Option<Seq<Assignment>> {
    match survey {
        Some(report) => Some(report@),
        None => None,
    }
}

/// What the caller is told when `survey` is published into an empty cache
/// of a cluster of `num_servers` workers: a survey that failed is a
/// `BuildFailure`, and a report is judged by `cluster_check`.
pub open spec fn survey_outcome(survey: Option<Seq<Assignment>>, num_servers: usize) -> Result<
    (),
    RoutingError,
> {
    match survey {
        None => Err(RoutingError::BuildFailure),
        Some(report) => cluster_check(report, num_servers),
    }
}

/// What an empty cache of a cluster of `num_servers` workers holds after
/// `survey` has been published into it: the mapping that the report stands
/// for where the outcome is `Ok`, and nothing where it is not.
pub open spec fn published(
    survey: Option<Seq<Assignment>>,
    num_servers: usize,
    after: Option<PartitionMap>,
) -> bool {
    if survey_outcome(survey, num_servers) is Ok {
        &&& survey matches Some(report)
        &&& after matches Some(m)
        &&& m.describes(report, num_servers)
    } else {
        after is None
    }
}

/// Holds at most one `PartitionMap`, both directions of it together, for a
/// cluster of a fixed size.
///
/// A cache starts empty. Only a build that succeeds fills it, so a caller
/// never sees a half-built mapping, and a full cache stays as it is until it
/// is invalidated. Whatever it holds was built for its own cluster size.
#[derive(Debug)]
pub struct MappingCache {
    slot: Option<PartitionMap>,
    num_servers: usize,
}

impl MappingCache {
    /// What the cache holds.
    pub closed spec fn mapping(&self) -> Option<PartitionMap> {
        self.slot
    }

    /// The number of workers of the cluster that the cache serves.
    pub closed spec fn cluster_size(&self) -> usize {
        self.num_servers
    }

    /// Whatever the cache holds is a consistent mapping for the cache's
    /// cluster size.
    #[verifier::type_invariant]
    pub open spec fn wf(&self) -> bool {
        self.mapping() matches Some(m) ==> m.wf() && m.cluster_size() == self.cluster_size()
    }

    /// What `publish` and `get_or_build` keep of a cache: its cluster size,
    /// and its mapping once it has one.
    pub open spec fn keeps(&self, after: MappingCache) -> bool {
        &&& after.wf()
        &&& after.cluster_size() == self.cluster_size()
        &&& self.mapping() is Some ==> after.mapping() == self.mapping()
    }

    /// An empty cache for a cluster of `num_servers` workers.
    pub fn new(num_servers: usize) -> (cache: MappingCache)
        ensures
            cache.wf(),
            cache.mapping() is None,
            cache.cluster_size() == num_servers,
    {
        MappingCache { slot: None, num_servers }
    }

    /// The number of workers of the cluster.
    pub fn num_servers(&self) -> (n: usize)
        ensures
            n == self.cluster_size(),
    {
        self.num_servers
    }

    /// Whether a mapping has been built.
    pub fn is_built(&self) -> (b: bool)
        ensures
            b == (self.mapping() is Some),
    {
        self.slot.is_some()
    }

    /// The mapping, where one has been built. Never builds.
    pub fn get(&self) -> (m: Option<&PartitionMap>)
        ensures
            match m {
                Some(m) => {
                    &&& self.mapping() == Some(*m)
                    &&& m.wf()
                    &&& m.cluster_size() == self.cluster_size()
                },
                None => self.mapping() is None,
            },
    {
        proof {
            use_type_invariant(self);
        }
        match &self.slot {
            Some(m) => Some(m),
            None => None,
        }
    }

    /// Takes the outcome of a survey of the partition manager and fills the
    /// cache from it, unless the cache is full already: a full cache is left
    /// as it is and the survey is ignored.
    pub fn publish(&mut self, survey: Option<Vec<Assignment>>) -> (done: Result<(), RoutingError>)
        ensures
            old(self).keeps(*final(self)),
            old(self).mapping() is Some ==> done == Ok::<(), RoutingError>(()),
            old(self).mapping() is None ==> {
                &&& done == survey_outcome(survey_view(survey), old(self).cluster_size())
                &&& published(survey_view(survey), old(self).cluster_size(), final(self).mapping())
            },
    {
        proof {
            use_type_invariant(&*self);
        }
        if self.slot.is_some() {
            return Ok(());
        }
        match survey {
            None => Err(RoutingError::BuildFailure),
            Some(report) => {
                match PartitionMap::from_report(&report, self.num_servers) {
                    Ok(m) => {
                        self.slot = Some(m);
                        Ok(())
                    },
                    Err(e) => Err(e),
                }
            },
        }
    }

    /// The mapping, built from the manager's report where the cache is empty.
    ///
    /// A full cache answers at once, without asking the manager. An empty
    /// one asks the manager for every partition and its owner and publishes
    /// the outcome: it is filled where that succeeds and stays empty where it
    /// fails, so that a later call tries again.
    pub fn get_or_build<M: PartitionManager>(&mut self, manager: &M) -> (got: Result<
        &PartitionMap,
        RoutingError,
    >)
        ensures
            old(self).keeps(*final(self)),
            match got {
                Ok(m) => {
                    &&& final(self).mapping() == Some(*m)
                    &&& m.wf()
                    &&& m.cluster_size() == old(self).cluster_size()
                },
                Err(e) => {
                    &&& old(self).mapping() is None
                    &&& final(self).mapping() is None
                    &&& e.build_time()
                },
            },
    {
        if self.slot.is_none() {
            let outcome = match manager.partition_ids() {
                Some(ids) => ask_owners(manager, &ids),
                None => None,
            };
            match self.publish(outcome) {
                Ok(()) => {},
                Err(e) => {
                    return Err(e);
                },
            }
        }
        proof {
            use_type_invariant(&*self);
        }
        match &self.slot {
            Some(m) => Ok(m),
            None => Err(RoutingError::BuildFailure),
        }
    }

    /// Empties the cache, for a reload of the snapshot. The next
    /// `get_or_build` builds anew.
    pub fn invalidate(&mut self)
        ensures
            final(self).wf(),
            final(self).cluster_size() == old(self).cluster_size(),
            final(self).mapping() is None,
    {
        self.slot = None;
    }
}

/// Publishing is determined by the survey: the same survey, published into
/// two empty caches of the same cluster size, leaves both empty or both with
/// mappings that answer every routing query alike.
pub proof fn lemma_same_survey_same_mapping(
    survey: Option<Seq<Assignment>>,
    num_servers: usize,
    first: Option<PartitionMap>,
    second: Option<PartitionMap>,
    partition: u32,
    worker: u32,
)
    requires
        published(survey, num_servers, first),
        published(survey, num_servers, second),
    ensures
        first is Some <==> survey_outcome(survey, num_servers) is Ok,
        first is Some <==> second is Some,
        first matches Some(m) ==> {
            &&& second matches Some(k)
            &&& m.worker_answer(partition) == k.worker_answer(partition)
            &&& m.partitions_answer(worker) == k.partitions_answer(worker)
        },
{
    if first is Some {
        lemma_same_report_same_answers(
            first.unwrap(),
            second.unwrap(),
            survey.unwrap(),
            num_servers,
            partition,
            worker,
        );
    }
}

/// Over any run of `publish` and `get_or_build`, a cache that has been
/// built holds the same mapping ever after: the first build that succeeds is
/// the only one.
pub proof fn lemma_first_build_stays(states: Seq<MappingCache>, i: int, j: int)
    requires
        forall|k: int| 0 <= k < states.len() - 1 ==> (#[trigger] states[k]).keeps(states[k + 1]),
        0 <= i <= j < states.len(),
        states[i].mapping() is Some,
    ensures
        states[j].mapping() == states[i].mapping(),
    decreases j - i,
{
    if i < j {
        lemma_first_build_stays(states, i, j - 1);
    }
}

} // verus!
