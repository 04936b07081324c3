//! What a partition manager reports, and which mappings a report stands for.
//!
//! A report is a sequence of lines, each naming a partition and its owner.
//! A partition has one owner: where a report names a partition more than
//! once, its first line counts and the later ones are ignored.

use crate::error::RoutingError;
use vstd::prelude::*;

verus! {

/// One line of a report: `partition` is owned by `worker`.
#[derive(Debug, Clone, Copy, PartialEq, Eq, Structural)]
pub struct Assignment {
    pub partition: u32,
    pub worker: u32,
}

/// The report names `partition` in at least one line.
pub open spec fn reports(report: Seq<Assignment>, partition: u32) -> bool {
    exists|i: int| 0 <= i < report.len() && (#[trigger] report[i]).partition == partition
}

/// Line `i` is the first line of the report that names its partition.
pub open spec fn is_first_report(report: Seq<Assignment>, i: int) -> bool {
    &&& 0 <= i < report.len()
    &&& forall|j: int| 0 <= j < i ==> (#[trigger] report[j]).partition != report[i].partition
}

/// The index of the first line that names `partition`, where there is one.
pub open spec fn first_report(report: Seq<Assignment>, partition: u32) -> int {
    choose|i: int| is_first_report(report, i) && report[i].partition == partition
}

/// The partition-to-worker mapping that a report stands for: every partition
/// that the report names, with the worker of the first line that names it.
pub open spec fn reported_owner(report: Seq<Assignment>) -> Map<u32, u32> {
    Map::new(|p: u32| reports(report, p), |p: u32| report[first_report(report, p)].worker)
}

/// The partitions that a report gives to `worker`, in the order in which the
/// report first names them.
pub open spec fn reported_listing(report: Seq<Assignment>, worker: u32) -> Seq<u32>
    decreases report.len(),
{
    if report.len() == 0 {
        Seq::empty()
    } else {
        let earlier = report.drop_last();
        let line = report.last();
        if line.worker == worker && !reports(earlier, line.partition) {
            reported_listing(earlier, worker).push(line.partition)
        } else {
            reported_listing(earlier, worker)
        }
    }
}

/// The line names a worker that a cluster of `num_servers` workers lacks.
pub open spec fn misassigned(line: Assignment, num_servers: usize) -> bool {
    line.worker >= num_servers
}

/// Every line of the report names a worker of the cluster.
pub open spec fn well_assigned(report: Seq<Assignment>, num_servers: usize) -> bool {
    forall|i: int| 0 <= i < report.len() ==> !misassigned(#[trigger] report[i], num_servers)
}

/// Line `i` is the first line of the report that names a worker outside the
/// cluster.
pub open spec fn is_first_misassigned(report: Seq<Assignment>, num_servers: usize, i: int) -> bool {
    &&& 0 <= i < report.len()
    &&& misassigned(report[i], num_servers)
    &&& forall|j: int| 0 <= j < i ==> !misassigned(#[trigger] report[j], num_servers)
}

/// The index of the first line that names a worker outside the cluster,
/// where there is one.
pub open spec fn first_misassigned(report: Seq<Assignment>, num_servers: usize) -> int {
    choose|i: int| is_first_misassigned(report, num_servers, i)
}

/// Whether a cluster of `num_servers` workers can take the report: it can
/// where every line names one of its workers, and otherwise the
/// configuration error names the first line that does not.
pub open spec fn cluster_check(report: Seq<Assignment>, num_servers: usize) -> Result<
    (),
    RoutingError,
> {
    if well_assigned(report, num_servers) {
        Ok(())
    } else {
        let line = report[first_misassigned(report, num_servers)];
        Err(RoutingError::ConfigurationError { partition: line.partition, worker: line.worker })
    }
}

/// Among the lines up to `i` that name the partition of line `i`, one is the
/// first.
proof fn lemma_least_report(report: Seq<Assignment>, i: int)
    requires
        0 <= i < report.len(),
    ensures
        exists|k: int| is_first_report(report, k) && report[k].partition == report[i].partition,
    decreases i,
{
    if is_first_report(report, i) {
    } else {
        let j = choose|j: int| 0 <= j < i && (#[trigger] report[j]).partition == report[i].partition;
        lemma_least_report(report, j);
    }
}

/// A partition that the report names has a first line, and no other line is
/// the first to name it.
pub proof fn lemma_first_report(report: Seq<Assignment>, partition: u32)
    requires
        reports(report, partition),
    ensures
        is_first_report(report, first_report(report, partition)),
        report[first_report(report, partition)].partition == partition,
        forall|k: int|
            is_first_report(report, k) && report[k].partition == partition ==> k == first_report(
                report,
                partition,
            ),
{
    let i = choose|i: int| 0 <= i < report.len() && (#[trigger] report[i]).partition == partition;
    lemma_least_report(report, i);
}

/// One more line leaves the first line of every partition named before
/// where it was, and is itself the first line of a partition not named
/// before.
pub proof fn lemma_first_report_push(report: Seq<Assignment>, line: Assignment, partition: u32)
    requires
        reports(report, partition) || partition == line.partition,
    ensures
        reports(report.push(line), partition),
        reports(report, partition) ==> first_report(report.push(line), partition) == first_report(
            report,
            partition,
        ),
        !reports(report, partition) ==> first_report(report.push(line), partition) == report.len(),
{
    let longer = report.push(line);
    let first = if reports(report, partition) {
        lemma_first_report(report, partition);
        first_report(report, partition)
    } else {
        report.len() as int
    };
    assert(longer[first].partition == partition);
    assert(is_first_report(longer, first)) by {
        assert forall|j: int| 0 <= j < first implies (#[trigger] longer[j]).partition
            != partition by {
            assert(longer[j] == report[j]);
        }
    }
    lemma_first_report(longer, partition);
}

/// One more line adds its partition to the mapping unless an earlier line
/// named that partition already.
pub proof fn lemma_owner_push(report: Seq<Assignment>, line: Assignment)
    ensures
        reports(report.push(line), line.partition),
        reports(report, line.partition) ==> reported_owner(report.push(line)) == reported_owner(
            report,
        ),
        !reports(report, line.partition) ==> reported_owner(report.push(line)) == reported_owner(
            report,
        ).insert(line.partition, line.worker),
{
    let longer = report.push(line);
    lemma_first_report_push(report, line, line.partition);
    assert forall|p: u32| reports(longer, p) implies reports(report, p) || p == line.partition by {
        let i = choose|i: int| 0 <= i < longer.len() && (#[trigger] longer[i]).partition == p;
        if i < report.len() {
            assert(report[i].partition == p);
        }
    }
    assert forall|p: u32| reports(report, p) implies reports(longer, p) && reported_owner(
        longer,
    )[p] == reported_owner(report)[p] by {
        lemma_first_report_push(report, line, p);
        lemma_first_report(report, p);
    }
    if reports(report, line.partition) {
        assert(reported_owner(longer) =~= reported_owner(report));
    } else {
        assert(reported_owner(longer) =~= reported_owner(report).insert(
            line.partition,
            line.worker,
        ));
    }
}

/// A worker's listing holds exactly the partitions that the report's mapping
/// gives to that worker.
pub proof fn lemma_listing_contains(report: Seq<Assignment>, worker: u32, partition: u32)
    ensures
        reported_listing(report, worker).contains(partition) <==> (reported_owner(
            report,
        ).contains_key(partition) && reported_owner(report)[partition] == worker),
    decreases report.len(),
{
    if report.len() > 0 {
        let earlier = report.drop_last();
        let line = report.last();
        assert(earlier.push(line) =~= report);
        lemma_listing_contains(earlier, worker, partition);
        lemma_owner_push(earlier, line);
        if line.worker == worker && !reports(earlier, line.partition) {
            let before = reported_listing(earlier, worker);
            let after = before.push(line.partition);
            assert(after[before.len() as int] == line.partition);
            if before.contains(partition) {
                let k = choose|k: int| 0 <= k < before.len() && before[k] == partition;
                assert(after[k] == partition);
            }
        }
    }
}

/// No partition occurs twice in a worker's listing.
pub proof fn lemma_listing_distinct(report: Seq<Assignment>, worker: u32)
    ensures
        reported_listing(report, worker).no_duplicates(),
    decreases report.len(),
{
    if report.len() > 0 {
        let earlier = report.drop_last();
        let line = report.last();
        lemma_listing_distinct(earlier, worker);
        lemma_listing_contains(earlier, worker, line.partition);
    }
}

/// Every partition of a worker's listing was first named by a line of the
/// report, and the listing keeps the order of those lines.
pub proof fn lemma_listing_in_report_order(report: Seq<Assignment>, worker: u32, i: int, j: int)
    requires
        0 <= i < j < reported_listing(report, worker).len(),
    ensures
        reports(report, reported_listing(report, worker)[i]),
        reports(report, reported_listing(report, worker)[j]),
        first_report(report, reported_listing(report, worker)[i]) < first_report(
            report,
            reported_listing(report, worker)[j],
        ),
    decreases report.len(),
{
    let earlier = report.drop_last();
    let line = report.last();
    let before = reported_listing(earlier, worker);
    assert(earlier.push(line) =~= report);
    assert(before.contains(before[i]));
    lemma_listing_contains(earlier, worker, before[i]);
    lemma_first_report(earlier, before[i]);
    lemma_first_report_push(earlier, line, before[i]);
    if j < before.len() {
        lemma_listing_in_report_order(earlier, worker, i, j);
        lemma_first_report_push(earlier, line, before[j]);
    } else {
        lemma_first_report_push(earlier, line, line.partition);
    }
}

/// A line that is the first to name a worker outside the cluster is the
/// only such line, and the one that `first_misassigned` gives.
pub proof fn lemma_first_misassigned(report: Seq<Assignment>, num_servers: usize, i: int)
    requires
        is_first_misassigned(report, num_servers, i),
    ensures
        !well_assigned(report, num_servers),
        first_misassigned(report, num_servers) == i,
{
    let f = first_misassigned(report, num_servers);
    assert(is_first_misassigned(report, num_servers, f));
    if f < i {
        assert(!misassigned(report[f], num_servers));
    } else if i < f {
        assert(!misassigned(report[i], num_servers));
    }
}

/// A report whose lines all name workers of the cluster stands for a mapping
/// into the cluster.
pub proof fn lemma_owner_in_cluster(report: Seq<Assignment>, num_servers: usize, partition: u32)
    requires
        well_assigned(report, num_servers),
        reports(report, partition),
    ensures
        reported_owner(report)[partition] < num_servers,
{
    lemma_first_report(report, partition);
}

} // verus!
