//! The partition manager: the authority that knows which partitions a
//! snapshot has and which worker owns each of them.

use crate::report::Assignment;
use vstd::prelude::*;

verus! {

/// What the routing code asks of a partition manager.
///
/// Both operations are reads. Nothing is assumed of what an implementation
/// answers: whatever it reports is checked when the mappings are built.
pub trait PartitionManager {
    /// Every partition id of the snapshot, or `None` where the manager cannot
    /// enumerate them.
    fn partition_ids(&self) -> Option<Vec<u32>>;

    /// The worker that owns `partition`, or `None` where the manager cannot
    /// tell.
    fn owner_of(&self, partition: u32) -> Option<u32>;
}

/// Asks the manager for the owner of each of `ids`, in that order, and stops
/// at the first one that it cannot tell: the answer is `None` then. Otherwise
/// the report has one line for each id, in the order of `ids`, with the owner
/// that the manager gave. Where there are no ids the manager is not asked,
/// and the report is the empty one.
pub(crate) fn ask_owners<M: PartitionManager>(manager: &M, ids: &[u32]) -> (report: Option<
    Vec<Assignment>,
>)
    ensures
        report matches Some(lines) ==> {
            &&& lines@.len() == ids@.len()
            &&& forall|i: int| 0 <= i < ids@.len() ==> (#[trigger] lines@[i]).partition == ids@[i]
        },
        ids@.len() == 0 ==> {
            &&& report matches Some(lines)
            &&& lines@ == Seq::<Assignment>::empty()
        },
{
    let mut lines: Vec<Assignment> = Vec::new();
    let mut i: usize = 0;
    while i < ids.len()
        invariant
            i <= ids.len(),
            lines@.len() == i,
            forall|j: int| 0 <= j < i ==> (#[trigger] lines@[j]).partition == ids@[j],
        decreases ids.len() - i,
    {
        let partition = ids[i];
        match manager.owner_of(partition) {
            Some(worker) => {
                lines.push(Assignment { partition, worker });
            },
            None => {
                return None;
            },
        }
        i += 1;
    }
    Some(lines)
}

} // verus!
