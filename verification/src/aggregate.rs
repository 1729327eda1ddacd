//! Draining and totalling the timing results of one strategy run.

use vstd::prelude::*;

use crate::work::{LoadOutcome, TimingResult};

verus! {

/// Totals over one strategy run: the sum of the measured per-file
/// durations, and how many loads succeeded and how many failed. The
/// total is the sum of the individually measured durations, not a
/// re-measurement of the whole run's wall-clock span.
#[derive(Clone, Copy, PartialEq, Eq, Structural, Debug)]
pub struct AggregateResult {
    pub total_nanos: u128,
    pub succeeded: usize,
    pub failed: usize,
}

/// The duration one result contributes to the total: a failed load
/// contributes nothing.
pub open spec fn spec_nanos_of(r: TimingResult) -> int {
    match r.outcome {
        LoadOutcome::Loaded { nanos } => nanos as int,
        LoadOutcome::Failed => 0,
    }
}

/// Whether one result reports a completed load.
pub open spec fn spec_is_loaded(r: TimingResult) -> bool {
    match r.outcome {
        LoadOutcome::Loaded { .. } => true,
        LoadOutcome::Failed => false,
    }
}

/// Sum of the durations of a sequence of results.
pub open spec fn spec_total_nanos(rs: Seq<TimingResult>) -> int
    decreases rs.len(),
{
    if rs.len() == 0 {
        0
    } else {
        spec_total_nanos(rs.drop_last()) + spec_nanos_of(rs.last())
    }
}

/// Number of results in a sequence that report a completed load.
pub open spec fn spec_succeeded(rs: Seq<TimingResult>) -> int
    decreases rs.len(),
{
    if rs.len() == 0 {
        0
    } else {
        spec_succeeded(rs.drop_last()) + if spec_is_loaded(rs.last()) {
            1int
        } else {
            0int
        }
    }
}

/// The total is nonnegative and at most one maximal duration per
/// result, and the success count is between zero and the number of
/// results.
pub proof fn lemma_aggregate_bounds(rs: Seq<TimingResult>)
    ensures
        0 <= spec_total_nanos(rs) <= rs.len() * (u64::MAX as int),
        0 <= spec_succeeded(rs) <= rs.len(),
    decreases rs.len(),
{
    if rs.len() > 0 {
        lemma_aggregate_bounds(rs.drop_last());
        assert((rs.len() - 1) * (u64::MAX as int) + (u64::MAX as int) == rs.len() * (
        u64::MAX as int)) by (nonlinear_arith);
    }
}

/// Drain a run's collected results into the aggregate totals: the sum
/// of all reported durations, the number of loads that succeeded, and
/// the number that failed. Every result is accounted for: the two
/// counts always add up to the number of results.
pub fn aggregate(results: &Vec<TimingResult>) -> (agg: AggregateResult)
    ensures
        agg.total_nanos as int == spec_total_nanos(results@),
        agg.succeeded as int == spec_succeeded(results@),
        agg.failed as int == results@.len() - spec_succeeded(results@),
        agg.succeeded + agg.failed == results@.len(),
{
    let mut total: u128 = 0;
    let mut succeeded: usize = 0;
    let mut failed: usize = 0;
    let mut i: usize = 0;
    while i < results.len()
        invariant
            i <= results.len(),
            total as int == spec_total_nanos(results@.take(i as int)),
            succeeded as int == spec_succeeded(results@.take(i as int)),
            succeeded <= i,
            failed == i - succeeded,
        decreases results.len() - i,
    {
        proof {
            assert(results@.take(i + 1).drop_last() =~= results@.take(i as int));
            lemma_aggregate_bounds(results@.take(i as int));
        }
        match results[i].outcome {
            LoadOutcome::Loaded { nanos } => {
                total = total + nanos as u128;
                succeeded = succeeded + 1;
            },
            LoadOutcome::Failed => {
                failed = failed + 1;
            },
        }
        i = i + 1;
    }
    proof {
        assert(results@.take(results@.len() as int) =~= results@);
    }
    AggregateResult { total_nanos: total, succeeded, failed }
}

/// Reporting the results of two groups of workers one after the other
/// totals the same as totalling the groups separately and adding.
pub proof fn lemma_aggregate_concat(a: Seq<TimingResult>, b: Seq<TimingResult>)
    ensures
        spec_total_nanos(a + b) == spec_total_nanos(a) + spec_total_nanos(b),
        spec_succeeded(a + b) == spec_succeeded(a) + spec_succeeded(b),
    decreases b.len(),
{
    if b.len() == 0 {
        assert(a + b =~= a);
    } else {
        lemma_aggregate_concat(a, b.drop_last());
        assert((a + b).drop_last() =~= a + b.drop_last());
        assert((a + b).last() == b.last());
    }
}

/// Taking one result out of a sequence takes exactly its contribution
/// out of the totals.
pub proof fn lemma_aggregate_remove(rs: Seq<TimingResult>, j: int)
    requires
        0 <= j < rs.len(),
    ensures
        spec_total_nanos(rs.remove(j)) == spec_total_nanos(rs) - spec_nanos_of(rs[j]),
        spec_succeeded(rs.remove(j)) == spec_succeeded(rs) - if spec_is_loaded(rs[j]) {
            1int
        } else {
            0int
        },
    decreases rs.len(),
{
    if j == rs.len() - 1 {
        assert(rs.remove(j) =~= rs.drop_last());
    } else {
        assert(rs.remove(j).drop_last() =~= rs.drop_last().remove(j));
        assert(rs.remove(j).last() == rs.last());
        lemma_aggregate_remove(rs.drop_last(), j);
    }
}

/// The aggregate is independent of arrival order: two runs that
/// collect the same results, in whatever completion order the workers
/// delivered them, have the same number of results, the same total
/// duration and the same success count. Correctness of the concurrent
/// strategies therefore does not depend on the order in which results
/// come off the shared channel.
pub proof fn lemma_aggregate_order_independent(rs1: Seq<TimingResult>, rs2: Seq<TimingResult>)
    requires
        rs1.to_multiset() == rs2.to_multiset(),
    ensures
        rs1.len() == rs2.len(),
        spec_total_nanos(rs1) == spec_total_nanos(rs2),
        spec_succeeded(rs1) == spec_succeeded(rs2),
    decreases rs1.len(),
{
    broadcast use vstd::seq_lib::group_to_multiset_ensures;

    if rs1.len() > 0 {
        let j = rs1.len() - 1;
        let x = rs1[j];
        assert(rs1.contains(x));
        assert(rs2.to_multiset().count(x) > 0);
        assert(rs2.contains(x));
        assert(exists|k: int| 0 <= k < rs2.len() && rs2[k] == x);
        let k = choose|k: int| 0 <= k < rs2.len() && rs2[k] == x;
        assert(rs2[k] == x);
        assert(rs1.remove(j).to_multiset() =~= rs1.to_multiset().remove(x));
        assert(rs2.remove(k).to_multiset() =~= rs2.to_multiset().remove(x));
        lemma_aggregate_order_independent(rs1.remove(j), rs2.remove(k));
        lemma_aggregate_remove(rs1, j);
        lemma_aggregate_remove(rs2, k);
    } else {
        rs1.to_multiset_ensures();
        rs2.to_multiset_ensures();
        assert(rs2.len() == 0);
    }
}

/// The identifiers a sequence of results reports, in report order.
pub open spec fn spec_ids(rs: Seq<TimingResult>) -> Seq<Seq<char>> {
    rs.map_values(|r: TimingResult| r.item@)
}

/// The dispatched identifiers of a file list, in list order.
pub open spec fn spec_path_views(ps: Seq<String>) -> Seq<Seq<char>> {
    ps.map_values(|p: String| p@)
}

/// How often one identifier occurs in a sequence of identifiers.
pub open spec fn spec_count_of(ids: Seq<Seq<char>>, x: Seq<char>) -> int
    decreases ids.len(),
{
    if ids.len() == 0 {
        0
    } else {
        spec_count_of(ids.drop_last(), x) + if ids.last() == x {
            1int
        } else {
            0int
        }
    }
}

/// Complete accounting: as many results came back as files were
/// dispatched, and every identifier is reported exactly as often as it
/// was dispatched — none lost, none duplicated, none invented.
pub open spec fn spec_accounted_for(paths: Seq<Seq<char>>, ids: Seq<Seq<char>>) -> bool {
    &&& ids.len() == paths.len()
    &&& forall|x: Seq<char>| spec_count_of(paths, x) == spec_count_of(ids, x)
}

/// Two complete runs over one file list agree on what they collected:
/// whatever their strategies and arrival orders, they report the same
/// number of results and every identifier equally often. The count
/// and the identifier set collected are therefore the same across the
/// sequential, concurrent and partitioned strategies.
pub proof fn lemma_runs_collect_same_identifiers(
    paths: Seq<Seq<char>>,
    ids1: Seq<Seq<char>>,
    ids2: Seq<Seq<char>>,
)
    requires
        spec_accounted_for(paths, ids1),
        spec_accounted_for(paths, ids2),
    ensures
        ids1.len() == ids2.len(),
        forall|x: Seq<char>| spec_count_of(ids1, x) == spec_count_of(ids2, x),
{
    assert forall|x: Seq<char>| spec_count_of(ids1, x) == spec_count_of(ids2, x) by {
        assert(spec_count_of(paths, x) == spec_count_of(ids1, x));
        assert(spec_count_of(paths, x) == spec_count_of(ids2, x));
    }
}

/// An identifier occurs in a sequence exactly when its count there is
/// positive, and counts are never negative.
pub proof fn lemma_count_occurs(ids: Seq<Seq<char>>, x: Seq<char>)
    ensures
        0 <= spec_count_of(ids, x),
        (spec_count_of(ids, x) > 0) <==> (exists|j: int| 0 <= j < ids.len() && ids[j] == x),
    decreases ids.len(),
{
    if ids.len() > 0 {
        lemma_count_occurs(ids.drop_last(), x);
        if ids.last() == x {
            assert(ids[ids.len() - 1] == x);
        } else if exists|j: int| 0 <= j < ids.drop_last().len() && ids.drop_last()[j] == x {
            let j = choose|j: int| 0 <= j < ids.drop_last().len() && ids.drop_last()[j] == x;
            assert(ids[j] == x);
        } else {
            assert forall|j: int| 0 <= j < ids.len() implies ids[j] != x by {
                if j < ids.len() - 1 {
                    assert(ids.drop_last()[j] == ids[j]);
                }
            }
        }
    }
}

/// How often `x` occurs in the file list.
fn count_in_paths(paths: &Vec<String>, x: &String) -> (n: usize)
    ensures
        n as int == spec_count_of(spec_path_views(paths@), x@),
{
    let ghost views = spec_path_views(paths@);
    let mut n: usize = 0;
    let mut i: usize = 0;
    while i < paths.len()
        invariant
            i <= paths.len(),
            views == spec_path_views(paths@),
            views.len() == paths@.len(),
            n as int == spec_count_of(views.take(i as int), x@),
            n <= i,
        decreases paths.len() - i,
    {
        proof {
            assert(views.take(i + 1).drop_last() =~= views.take(i as int));
            assert(views.take(i + 1).last() == paths@[i as int]@);
        }
        if paths[i] == *x {
            n = n + 1;
        }
        i = i + 1;
    }
    proof {
        assert(views.take(views.len() as int) =~= views);
    }
    n
}

/// How often `x` occurs among the reported identifiers.
fn count_in_results(results: &Vec<TimingResult>, x: &String) -> (n: usize)
    ensures
        n as int == spec_count_of(spec_ids(results@), x@),
{
    let ghost ids = spec_ids(results@);
    let mut n: usize = 0;
    let mut i: usize = 0;
    while i < results.len()
        invariant
            i <= results.len(),
            ids == spec_ids(results@),
            ids.len() == results@.len(),
            n as int == spec_count_of(ids.take(i as int), x@),
            n <= i,
        decreases results.len() - i,
    {
        proof {
            assert(ids.take(i + 1).drop_last() =~= ids.take(i as int));
            assert(ids.take(i + 1).last() == results@[i as int].item@);
        }
        if results[i].item == *x {
            n = n + 1;
        }
        i = i + 1;
    }
    proof {
        assert(ids.take(ids.len() as int) =~= ids);
    }
    n
}

/// The aggregator's accounting check, run after a strategy's results
/// are drained: decides whether the collected results account for the
/// dispatched file list exactly — one result per dispatched file,
/// under the same identifiers, with nothing lost, duplicated or
/// invented, in whatever order the results arrived.
pub fn accounted_for(paths: &Vec<String>, results: &Vec<TimingResult>) -> (ok: bool)
    ensures
        ok == spec_accounted_for(spec_path_views(paths@), spec_ids(results@)),
{
    let ghost views = spec_path_views(paths@);
    let ghost ids = spec_ids(results@);
    if paths.len() != results.len() {
        return false;
    }
    let mut i: usize = 0;
    while i < paths.len()
        invariant
            i <= paths.len(),
            views == spec_path_views(paths@),
            ids == spec_ids(results@),
            views.len() == paths@.len(),
            forall|j: int|
                0 <= j < i ==> spec_count_of(views, #[trigger] views[j]) == spec_count_of(
                    ids,
                    views[j],
                ),
        decreases paths.len() - i,
    {
        let in_paths = count_in_paths(paths, &paths[i]);
        let in_results = count_in_results(results, &paths[i]);
        if in_paths != in_results {
            proof {
                assert(views[i as int] == paths@[i as int]@);
            }
            return false;
        }
        i = i + 1;
    }
    let mut i: usize = 0;
    while i < results.len()
        invariant
            i <= results.len(),
            views == spec_path_views(paths@),
            ids == spec_ids(results@),
            ids.len() == results@.len(),
            forall|j: int|
                0 <= j < i ==> spec_count_of(views, #[trigger] ids[j]) == spec_count_of(
                    ids,
                    ids[j],
                ),
        decreases results.len() - i,
    {
        let in_paths = count_in_paths(paths, &results[i].item);
        let in_results = count_in_results(results, &results[i].item);
        if in_paths != in_results {
            proof {
                assert(ids[i as int] == results@[i as int].item@);
            }
            return false;
        }
        i = i + 1;
    }
    proof {
        assert forall|x: Seq<char>| spec_count_of(views, x) == spec_count_of(ids, x) by {
            lemma_count_occurs(views, x);
            lemma_count_occurs(ids, x);
            if spec_count_of(views, x) > 0 {
                let j = choose|j: int| 0 <= j < views.len() && views[j] == x;
                assert(spec_count_of(views, views[j]) == spec_count_of(ids, views[j]));
            } else if spec_count_of(ids, x) > 0 {
                let j = choose|j: int| 0 <= j < ids.len() && ids[j] == x;
                assert(spec_count_of(views, ids[j]) == spec_count_of(ids, ids[j]));
            }
        }
    }
    true
}

} // verus!
