//! Contiguous partitioning of a file list for the multi-worker
//! strategy: the list is split into consecutive chunks, one chunk per
//! worker to be launched, each worker then processing its chunk's
//! files in order.

use vstd::prelude::*;

verus! {

/// Chunk size used by the partitioned strategy: the ceiling of
/// `n / parallelism`, so that `parallelism` chunks of this size cover
/// the whole list.
pub open spec fn spec_chunk_size(n: int, parallelism: int) -> int {
    (n + parallelism - 1) / parallelism
}

/// Number of chunks the partitioned strategy produces for a list of
/// `n` items: the ceiling of `n / chunk_size`, and zero for an empty
/// list.
pub open spec fn spec_chunk_count(n: int, parallelism: int) -> int {
    if n == 0 {
        0
    } else {
        let cs = spec_chunk_size(n, parallelism);
        (n + cs - 1) / cs
    }
}

/// The items of a sequence of chunks, laid end to end in chunk order.
pub open spec fn spec_chunks_flat(chunks: Seq<Vec<String>>) -> Seq<String> {
    chunks.map_values(|c: Vec<String>| c@).flatten()
}

/// Basic bounds on ceiling division: the result is positive exactly
/// when the dividend is, it never exceeds the dividend, and
/// `divisor * result` covers the dividend.
pub proof fn lemma_ceil_div_bounds(n: int, d: int)
    requires
        d >= 1,
        n >= 0,
    ensures
        n == 0 ==> (n + d - 1) / d == 0,
        n >= 1 ==> (n + d - 1) / d >= 1,
        ((n + d - 1) / d) * d >= n,
        ((n + d - 1) / d) <= n,
{
    assert(n == 0 ==> (n + d - 1) / d == 0) by (nonlinear_arith)
        requires
            d >= 1,
            n >= 0,
    ;
    assert(n >= 1 ==> (n + d - 1) / d >= 1) by (nonlinear_arith)
        requires
            d >= 1,
            n >= 0,
    ;
    assert(((n + d - 1) / d) * d >= n) by (nonlinear_arith)
        requires
            d >= 1,
            n >= 0,
    ;
    assert(((n + d - 1) / d) <= n) by (nonlinear_arith)
        requires
            d >= 1,
            n >= 0,
    ;
}

/// Ceiling division of the list length by the worker count, computed
/// without overflow for any list length.
pub fn chunk_size(n: usize, parallelism: usize) -> (cs: usize)
    requires
        parallelism >= 1,
    ensures
        cs == spec_chunk_size(n as int, parallelism as int),
        n >= 1 ==> cs >= 1,
        n == 0 ==> cs == 0,
{
    if n == 0 {
        proof {
            lemma_ceil_div_bounds(n as int, parallelism as int);
        }
        0
    } else {
        let cs = (n - 1) / parallelism + 1;
        proof {
            lemma_ceil_div_bounds(n as int, parallelism as int);
            assert((n - 1) / (parallelism as int) + 1 == (n + parallelism - 1) / (
            parallelism as int)) by (nonlinear_arith)
                requires
                    n >= 1,
                    parallelism >= 1,
            ;
        }
        cs
    }
}

/// Split the file list into contiguous chunks for `parallelism`
/// workers, in list order. Every chunk but the last holds exactly
/// `spec_chunk_size` items; the last holds the remainder, at least one
/// item. Laid end to end the chunks reproduce the list exactly — they
/// are pairwise disjoint pieces of it — and there are never more of
/// them than `parallelism`, nor than there are files. An empty list
/// gives no chunks at all, so no worker is launched for it.
pub fn partition(paths: Vec<String>, parallelism: usize) -> (chunks: Vec<Vec<String>>)
    requires
        parallelism >= 1,
    ensures
        spec_chunks_flat(chunks@) == paths@,
        chunks@.len() == spec_chunk_count(paths@.len() as int, parallelism as int),
        chunks@.len() <= parallelism,
        chunks@.len() <= paths@.len(),
        forall|i: int|
            0 <= i < chunks@.len() ==> 1 <= (#[trigger] chunks@[i])@.len() <= spec_chunk_size(
                paths@.len() as int,
                parallelism as int,
            ),
        forall|i: int|
            0 <= i < chunks@.len() - 1 ==> (#[trigger] chunks@[i])@.len() == spec_chunk_size(
                paths@.len() as int,
                parallelism as int,
            ),
{
    let ghost n = paths@.len() as int;
    let ghost p = parallelism as int;
    let cs = chunk_size(paths.len(), parallelism);
    let ghost csi = cs as int;
    let mut chunks: Vec<Vec<String>> = Vec::new();
    let mut rest = paths;
    if rest.len() == 0 {
        proof {
            lemma_chunks_flat_empty();
        }
        return chunks;
    }
    while rest.len() > cs
        invariant
            parallelism >= 1,
            n == paths@.len(),
            csi == cs as int,
            csi == spec_chunk_size(n, parallelism as int),
            csi >= 1,
            1 <= rest@.len(),
            spec_chunks_flat(chunks@) + rest@ == paths@,
            n - rest@.len() == csi * chunks@.len(),
            forall|i: int| 0 <= i < chunks@.len() ==> (#[trigger] chunks@[i])@.len() == cs,
        decreases rest.len(),
    {
        let ghost chunks_pre = chunks@;
        let ghost rest_pre = rest@;
        let tail = rest.split_off(cs);
        let ghost head = rest@;
        chunks.push(rest);
        rest = tail;
        proof {
            assert(rest_pre =~= head + rest@);
            assert(chunks@ == chunks_pre.push(chunks@.last()));
            assert(chunks@.last()@ == head);
            lemma_chunks_flat_push(chunks_pre, chunks@.last());
            assert(spec_chunks_flat(chunks@) + rest@ =~= spec_chunks_flat(chunks_pre) + rest_pre);
            assert(csi * chunks@.len() == csi * chunks_pre.len() + csi) by (nonlinear_arith)
                requires
                    chunks@.len() == chunks_pre.len() + 1,
            ;
        }
    }
    let ghost chunks_pre = chunks@;
    let ghost k_full = chunks@.len();
    let ghost r = rest@.len() as int;
    chunks.push(rest);
    proof {
        assert(chunks@ == chunks_pre.push(chunks@.last()));
        assert(chunks@.last()@.len() == r);
        lemma_chunks_flat_push(chunks_pre, chunks@.last());
        assert(spec_chunks_flat(chunks@) =~= paths@);
        lemma_ceil_div_bounds(n, p);
        assert(csi * p >= n);
        assert(1 <= r <= csi);
        assert(n == csi * k_full + r);
        assert((n + csi - 1) / csi == k_full + 1) by (nonlinear_arith)
            requires
                csi >= 1,
                k_full >= 0,
                1 <= r <= csi,
                n == csi * k_full + r,
        ;
        assert(k_full + 1 <= p) by (nonlinear_arith)
            requires
                csi >= 1,
                p >= 1,
                k_full >= 0,
                1 <= r,
                n == csi * k_full + r,
                csi * p >= n,
        ;
        assert(k_full + 1 <= n) by (nonlinear_arith)
            requires
                csi >= 1,
                k_full >= 0,
                1 <= r,
                n == csi * k_full + r,
        ;
    }
    chunks
}

/// No chunks hold no items.
pub proof fn lemma_chunks_flat_empty()
    ensures
        spec_chunks_flat(Seq::<Vec<String>>::empty()) == Seq::<String>::empty(),
{
    let f = |c: Vec<String>| c@;
    assert(Seq::<Vec<String>>::empty().map_values(f) =~= Seq::<Seq<String>>::empty());
    assert(Seq::<Seq<String>>::empty().flatten() =~= Seq::<String>::empty());
}

/// Adding one more chunk to a plan appends exactly its items to the
/// planned whole.
pub proof fn lemma_chunks_flat_push(chunks: Seq<Vec<String>>, c: Vec<String>)
    ensures
        spec_chunks_flat(chunks.push(c)) == spec_chunks_flat(chunks) + c@,
{
    let f = |x: Vec<String>| x@;
    assert(chunks.push(c).map_values(f) =~= chunks.map_values(f).push(c@));
    chunks.map_values(f).lemma_flatten_push(c@);
    assert(spec_chunks_flat(chunks.push(c)) =~= spec_chunks_flat(chunks) + c@);
}

/// Total number of items over a sequence of chunks.
pub open spec fn spec_sum_lens(chunks: Seq<Seq<String>>) -> int
    decreases chunks.len(),
{
    if chunks.len() == 0 {
        0
    } else {
        chunks.first().len() + spec_sum_lens(chunks.drop_first())
    }
}

/// One result per item in every chunk is one result per file: the
/// chunks' item counts add up to the length of the list they
/// partition, so a run that reports each chunk item once reports
/// exactly as many results as there are files.
pub proof fn lemma_chunks_account_for_all(chunks: Seq<Seq<String>>)
    ensures
        spec_sum_lens(chunks) == chunks.flatten().len(),
    decreases chunks.len(),
{
    if chunks.len() > 0 {
        lemma_chunks_account_for_all(chunks.drop_first());
    }
}

/// An empty file list plans no chunks, so the partitioned strategy
/// launches no workers and collects no results for it.
pub proof fn lemma_empty_list_no_chunks(parallelism: int)
    requires
        parallelism >= 1,
    ensures
        spec_chunk_count(0, parallelism) == 0,
{
}

/// A single file under any worker count gives exactly one chunk of
/// exactly one file: exactly one worker is launched.
pub proof fn lemma_single_file_single_chunk(parallelism: int)
    requires
        parallelism >= 1,
    ensures
        spec_chunk_size(1, parallelism) == 1,
        spec_chunk_count(1, parallelism) == 1,
{
    assert(parallelism / parallelism == 1) by (nonlinear_arith)
        requires
            parallelism >= 1,
    ;
    assert(spec_chunk_size(1, parallelism) == 1);
    assert(1int / 1int == 1) by (nonlinear_arith);
}

/// A single worker gets the whole list as one chunk: the partitioned
/// strategy with no parallelism degenerates to the sequential one.
pub proof fn lemma_single_worker_single_chunk(n: int)
    requires
        n >= 1,
    ensures
        spec_chunk_size(n, 1) == n,
        spec_chunk_count(n, 1) == 1,
{
    assert((2 * n - 1) / n == 1) by (nonlinear_arith)
        requires
            n >= 1,
    ;
}

/// A plan of a single chunk holds the whole file list, in list order:
/// the one worker processes exactly the sequential strategy's workload.
pub proof fn lemma_single_chunk_is_whole_list(chunks: Seq<Vec<String>>, paths: Seq<String>)
    requires
        chunks.len() == 1,
        spec_chunks_flat(chunks) == paths,
    ensures
        chunks[0]@ == paths,
{
    let f = |c: Vec<String>| c@;
    chunks.map_values(f).lemma_flatten_one_element();
    assert(chunks.map_values(f).first() == chunks[0]@);
}

/// Relies on `num_cpus::get`: the number of logical processors
/// available to the process, promised by its documentation to be at
/// least 1. The value depends on the machine the process runs on.
#[verifier::external_body]
fn available_parallelism() -> (n: usize)
    ensures
        1 <= n,
{
    num_cpus::get()
}

/// Plan the partitioned strategy for this machine: split the list
/// into contiguous chunks, one worker per chunk, the worker count
/// taken from the machine's processor count. Whatever that count is,
/// the chunks laid end to end reproduce the list exactly, every chunk
/// is non-empty, and no more workers are planned than there are
/// files.
pub fn partition_for_machine(paths: Vec<String>) -> (chunks: Vec<Vec<String>>)
    ensures
        spec_chunks_flat(chunks@) == paths@,
        chunks@.len() <= paths@.len(),
        forall|i: int| 0 <= i < chunks@.len() ==> 1 <= (#[trigger] chunks@[i])@.len(),
{
    let workers = available_parallelism();
    partition(paths, workers)
}

} // verus!
