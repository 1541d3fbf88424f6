use vstd::prelude::*;
use vstd::arithmetic::div_mod::{lemma_fundamental_div_mod, lemma_mod_bound};
use vstd::arithmetic::mul::{lemma_mul_inequality, lemma_mul_is_commutative, lemma_mul_is_distributive_add_other_way};
use crate::Bytes;
use crate::Chunk;
use crate::RangeBytes;

verus! {

/// Size of every range but the last one: the content length divided by the
/// number of workers, rounded down.
pub open spec fn spec_chunk_size(content_length: Bytes, worker_count: u64) -> int
    recommends
        1 <= worker_count,
{
    content_length as int / worker_count as int
}

/// The partition of `[0, content_length)` into `worker_count` ranges: every
/// range holds `spec_chunk_size` bytes, except the last one, which is extended
/// to absorb the division remainder. A content length of zero yields no range.
pub open spec fn spec_partition(content_length: Bytes, worker_count: u64) -> Seq<RangeBytes>
    recommends
        1 <= worker_count,
{
    if content_length == 0 {
        Seq::empty()
    } else {
        Seq::new(
            worker_count as nat,
            |i: int|
                RangeBytes(
                    (i * spec_chunk_size(content_length, worker_count)) as u64,
                    if i == worker_count as int - 1 {
                        content_length
                    } else {
                        ((i + 1) * spec_chunk_size(content_length, worker_count)) as u64
                    },
                ),
        )
    }
}

/// A multiple of the chunk size, up to the `worker_count`-th, never exceeds the
/// content length.
proof fn lemma_scaled_chunk_bound(content_length: Bytes, worker_count: u64, i: int)
    requires
        1 <= worker_count,
        0 <= i <= worker_count,
    ensures
        0 <= i * spec_chunk_size(content_length, worker_count) <= content_length,
{
    let cl = content_length as int;
    let wc = worker_count as int;
    let q = spec_chunk_size(content_length, worker_count);
    lemma_fundamental_div_mod(cl, wc);
    lemma_mod_bound(cl, wc);
    assert(wc * q <= cl);
    assert(q >= 0) by {
        if q < 0 {
            lemma_mul_inequality(wc, 0, -q);
        }
    }
    lemma_mul_inequality(i, wc, q);
    lemma_mul_inequality(0, i, q);
}

/// Multiples of a nonnegative factor grow with the multiplier.
proof fn lemma_scaled_monotone(i: int, j: int, q: int)
    requires
        i <= j,
        0 <= q,
    ensures
        i * q <= j * q,
{
    lemma_mul_inequality(i, j, q);
}

/// Partition a known content length into disjoint, contiguous ranges, one per
/// worker, the last one absorbing the remainder; a zero content length yields
/// no range at all.
pub fn partition(content_length: Bytes, worker_count: u64) -> (ranges: Vec<RangeBytes>)
    requires
        1 <= worker_count,
    ensures
        ranges@ == spec_partition(content_length, worker_count),
{
    let mut ranges: Vec<RangeBytes> = Vec::new();
    if content_length == 0 {
        assert(ranges@ =~= spec_partition(content_length, worker_count));
        return ranges;
    }
    let chunk_size: u64 = content_length / worker_count;
    proof {
        lemma_scaled_chunk_bound(content_length, worker_count, worker_count as int);
    }
    let mut i: u64 = 0;
    let mut start: u64 = 0;
    while i < worker_count - 1
        invariant
            1 <= worker_count,
            0 < content_length,
            chunk_size == spec_chunk_size(content_length, worker_count),
            0 <= i <= worker_count - 1,
            start == i * chunk_size as int,
            ranges@.len() == i,
            forall|j: int|
                0 <= j < i ==> ranges@[j] == spec_partition(content_length, worker_count)[j],
        decreases worker_count - i,
    {
        proof {
            lemma_scaled_chunk_bound(content_length, worker_count, i as int + 1);
            lemma_scaled_chunk_bound(content_length, worker_count, i as int);
            lemma_mul_is_distributive_add_other_way(
                spec_chunk_size(content_length, worker_count),
                i as int,
                1,
            );
        }
        let next: u64 = start + chunk_size;
        ranges.push(RangeBytes(start, next));
        start = next;
        i = i + 1;
    }
    proof {
        lemma_scaled_chunk_bound(content_length, worker_count, worker_count as int - 1);
    }
    ranges.push(RangeBytes(start, content_length));
    assert(ranges@ =~= spec_partition(content_length, worker_count));
    ranges
}

/// The worker count actually used for the fetch: a server that does not accept
/// partial content is only ever read by a single worker.
pub open spec fn spec_effective_worker_count(accept_partialcontent: bool, requested: u64) -> u64 {
    if accept_partialcontent {
        requested
    } else {
        1
    }
}

/// Force a single worker when the server does not accept partial content;
/// otherwise keep the requested worker count.
pub fn effective_worker_count(accept_partialcontent: bool, requested: u64) -> (count: u64)
    requires
        1 <= requested,
    ensures
        count == spec_effective_worker_count(accept_partialcontent, requested),
        1 <= count,
{
    if accept_partialcontent {
        requested
    } else {
        1
    }
}

/// Position `b` of the resource falls inside one of the ranges.
pub open spec fn covered(rs: Seq<RangeBytes>, b: int) -> bool {
    exists|i: int| 0 <= i < rs.len() && (#[trigger] rs[i].0) <= b < rs[i].1
}

/// The ranges produced by partitioning are ordered, contiguous, pairwise
/// disjoint, stay within the resource, cover exactly `[0, content_length)`,
/// and the last one absorbs the division remainder.
pub proof fn lemma_partition_exact(content_length: Bytes, worker_count: u64)
    requires
        1 <= worker_count,
    ensures
        ({
            let rs = spec_partition(content_length, worker_count);
            let q = spec_chunk_size(content_length, worker_count);
            &&& content_length == 0 ==> rs.len() == 0
            &&& content_length > 0 ==> rs.len() == worker_count
            &&& forall|i: int| 0 <= i < rs.len() ==> (#[trigger] rs[i].0) <= rs[i].1 <= content_length
            &&& rs.len() > 0 ==> rs[0].0 == 0 && rs[rs.len() - 1].1 == content_length
            &&& forall|i: int| 0 <= i < rs.len() - 1 ==> #[trigger] rs[i].1 == rs[i + 1].0
            &&& forall|i: int, j: int| 0 <= i < j < rs.len() ==> (#[trigger] rs[i].1) <= (#[trigger] rs[j].0)
            &&& forall|b: int| 0 <= b < content_length ==> #[trigger] covered(rs, b)
            &&& content_length > 0 ==> rs[rs.len() - 1].1 - rs[rs.len() - 1].0 == content_length
                - (worker_count - 1) * q
        }),
{
    let rs = spec_partition(content_length, worker_count);
    let cl = content_length as int;
    let wc = worker_count as int;
    let q = spec_chunk_size(content_length, worker_count);
    if content_length > 0 {
        assert forall|i: int| 0 <= i < rs.len() implies (#[trigger] rs[i].0) <= rs[i].1 <= content_length by {
            lemma_scaled_chunk_bound(content_length, worker_count, i);
            lemma_scaled_chunk_bound(content_length, worker_count, i + 1);
            lemma_scaled_monotone(i, i + 1, q);
            if i == wc - 1 {
                lemma_scaled_chunk_bound(content_length, worker_count, wc);
                lemma_scaled_monotone(i, wc, q);
            }
        }
        assert forall|i: int| 0 <= i < rs.len() - 1 implies #[trigger] rs[i].1 == rs[i + 1].0 by {
            lemma_scaled_chunk_bound(content_length, worker_count, i + 1);
        }
        assert forall|i: int, j: int| 0 <= i < j < rs.len() implies (#[trigger] rs[i].1) <= (#[trigger] rs[j].0) by {
            lemma_scaled_chunk_bound(content_length, worker_count, i + 1);
            lemma_scaled_chunk_bound(content_length, worker_count, j);
            lemma_scaled_monotone(i + 1, j, q);
        }
        assert forall|b: int| 0 <= b < content_length implies #[trigger] covered(rs, b) by {
            lemma_fundamental_div_mod(cl, wc);
            lemma_mod_bound(cl, wc);
            assert(q >= 0) by {
                if q < 0 {
                    lemma_mul_inequality(wc, 0, -q);
                }
            }
            if q == 0 {
                lemma_scaled_chunk_bound(content_length, worker_count, wc - 1);
                assert(rs[wc - 1].0 <= b < rs[wc - 1].1);
            } else {
                let i = if b / q < wc - 1 {
                    b / q
                } else {
                    wc - 1
                };
                lemma_fundamental_div_mod(b, q);
                lemma_mod_bound(b, q);
                if b / q < wc - 1 {
                    lemma_mod_bound(b, q);
                    assert(b / q >= 0) by {
                        lemma_fundamental_div_mod(b, q);
                        if b / q < 0 {
                            lemma_mul_inequality(b / q, -1, q);
                            lemma_mul_is_commutative(q, b / q);
                        }
                    }
                    lemma_scaled_chunk_bound(content_length, worker_count, i);
                    lemma_scaled_chunk_bound(content_length, worker_count, i + 1);
                    lemma_mul_is_commutative(q, b / q);
                    lemma_mul_is_distributive_add_other_way(q, i, 1);
                    assert(rs[i].0 <= b < rs[i].1);
                } else {
                    lemma_scaled_chunk_bound(content_length, worker_count, wc - 1);
                    lemma_scaled_monotone(wc - 1, b / q, q);
                    assert(rs[wc - 1].0 <= b < rs[wc - 1].1);
                }
            }
        }
        lemma_scaled_chunk_bound(content_length, worker_count, wc - 1);
    }
}

/// Whatever worker count the caller requested, a server that does not accept
/// partial content is fetched as one single range covering the whole resource.
pub proof fn lemma_no_partial_content_single_range(content_length: Bytes, requested: u64)
    requires
        1 <= requested,
    ensures
        ({
            let rs = spec_partition(
                content_length,
                spec_effective_worker_count(false, requested),
            );
            &&& content_length == 0 ==> rs.len() == 0
            &&& content_length > 0 ==> rs.len() == 1 && rs[0] == RangeBytes(0, content_length)
        }),
{
    let rs = spec_partition(content_length, 1);
    if content_length > 0 {
        assert(spec_chunk_size(content_length, 1) == content_length as int);
        assert(rs[0] == RangeBytes(0, content_length));
    }
}

/// Copy `bytes` into `out` starting at `offset`; every byte outside the
/// written window keeps its previous value.
pub fn write_at(out: &mut Vec<u8>, offset: usize, bytes: &Vec<u8>)
    requires
        offset + bytes@.len() <= old(out)@.len(),
    ensures
        final(out)@.len() == old(out)@.len(),
        forall|p: int|
            0 <= p < old(out)@.len() ==> final(out)@[p] == (if offset <= p < offset
                + bytes@.len() {
                bytes@[p - offset]
            } else {
                old(out)@[p]
            }),
{
    let total: usize = out.len();
    let mut k: usize = 0;
    while k < bytes.len()
        invariant
            offset + bytes@.len() <= old(out)@.len(),
            total == old(out)@.len(),
            out@.len() == old(out)@.len(),
            0 <= k <= bytes@.len(),
            forall|p: int|
                0 <= p < out@.len() ==> out@[p] == (if offset <= p < offset + k {
                    bytes@[p - offset]
                } else {
                    old(out)@[p]
                }),
        decreases bytes@.len() - k,
    {
        let target: usize = offset + k;
        out[target] = bytes[k];
        k = k + 1;
    }
}

/// The ranges are ordered and pairwise disjoint.
pub open spec fn ranges_sorted_disjoint(rs: Seq<RangeBytes>) -> bool {
    forall|i: int, j: int| 0 <= i < j < rs.len() ==> rs[i].1 <= rs[j].0
}

/// Every range is well formed and stays inside a resource of `len` bytes.
pub open spec fn ranges_within(rs: Seq<RangeBytes>, len: int) -> bool {
    forall|i: int| 0 <= i < rs.len() ==> (#[trigger] rs[i].0) <= rs[i].1 <= len
}

/// Every fetched chunk holds exactly as many bytes as its range.
pub open spec fn chunk_sizes_match(rs: Seq<RangeBytes>, chunks: Seq<Option<Chunk>>) -> bool {
    forall|i: int|
        0 <= i < rs.len() ==> ((#[trigger] chunks[i]) matches Some(c) ==> c@.len() == rs[i].1
            - rs[i].0)
}

/// Position `p` lies inside the range of some chunk that was fetched.
pub open spec fn covered_by_success(
    rs: Seq<RangeBytes>,
    chunks: Seq<Option<Chunk>>,
    p: int,
) -> bool {
    exists|i: int|
        0 <= i < rs.len() && (#[trigger] chunks[i]) is Some && rs[i].0 <= p < rs[i].1
}

/// Write every fetched chunk to its own byte range of the output and report
/// whether every single chunk was fetched: one missing chunk taints the whole
/// download, while the others are still written out.
pub fn apply_chunks(out: &mut Vec<u8>, ranges: &Vec<RangeBytes>, chunks: &Vec<Option<Chunk>>) -> (ok:
    bool)
    requires
        chunks@.len() == ranges@.len(),
        ranges_sorted_disjoint(ranges@),
        ranges_within(ranges@, old(out)@.len() as int),
        chunk_sizes_match(ranges@, chunks@),
    ensures
        final(out)@.len() == old(out)@.len(),
        ok <==> (forall|i: int| 0 <= i < chunks@.len() ==> (#[trigger] chunks@[i]) is Some),
        forall|i: int, p: int|
            0 <= i < ranges@.len() && 0 <= p < old(out)@.len() ==> ((#[trigger] chunks@[i]) matches Some(c)
                ==> (ranges@[i].0 <= p < ranges@[i].1 ==> (#[trigger] final(out)@[p]) == c@[p - ranges@[i].0])),
        forall|p: int|
            0 <= p < old(out)@.len() && !covered_by_success(ranges@, chunks@, p)
                ==> final(out)@[p] == old(out)@[p],
{
    let total: usize = out.len();
    let mut ok = true;
    let mut idx: usize = 0;
    while idx < chunks.len()
        invariant
            chunks@.len() == ranges@.len(),
            ranges_sorted_disjoint(ranges@),
            ranges_within(ranges@, old(out)@.len() as int),
            chunk_sizes_match(ranges@, chunks@),
            0 <= idx <= chunks@.len(),
            total == old(out)@.len(),
            out@.len() == old(out)@.len(),
            ok <==> (forall|i: int| 0 <= i < idx ==> (#[trigger] chunks@[i]) is Some),
            forall|i: int, p: int|
                0 <= i < idx && 0 <= p < old(out)@.len() ==> ((#[trigger] chunks@[i]) matches Some(c)
                    ==> (ranges@[i].0 <= p < ranges@[i].1 ==> (#[trigger] out@[p]) == c@[p - ranges@[i].0])),
            forall|p: int|
                0 <= p < old(out)@.len() && !(exists|i: int|
                    0 <= i < idx && (#[trigger] chunks@[i]) is Some && ranges@[i].0 <= p
                        < ranges@[i].1) ==> out@[p] == old(out)@[p],
        decreases chunks@.len() - idx,
    {
        match &chunks[idx] {
            Some(chunk) => {
                let r = ranges[idx];
                proof {
                    assert(ranges@[idx as int].0 <= ranges@[idx as int].1 <= old(out)@.len());
                    assert(chunks@[idx as int] matches Some(c) ==> c@.len() == ranges@[
                        idx as int].1 - ranges@[idx as int].0);
                }
                let start: usize = r.0 as usize;
                let ghost prev = out@;
                write_at(out, start, chunk);
                proof {
                    assert forall|i: int, p: int|
                        0 <= i < idx + 1 && 0 <= p < old(out)@.len() implies ((
                    #[trigger] chunks@[i]) matches Some(c) ==> (ranges@[i].0 <= p < ranges@[i].1
                        ==> (#[trigger] out@[p]) == c@[p - ranges@[i].0])) by {
                        if chunks@[i] matches Some(c) && ranges@[i].0 <= p < ranges@[i].1 {
                            if i < idx {
                                assert(ranges@[i].1 <= ranges@[idx as int].0);
                                assert(out@[p] == prev[p]);
                            }
                        }
                    }
                    assert forall|p: int|
                        0 <= p < old(out)@.len() && !(exists|i: int|
                            0 <= i < idx + 1 && (#[trigger] chunks@[i]) is Some && ranges@[i].0
                                <= p < ranges@[i].1) implies out@[p] == old(out)@[p] by {
                        assert(!(chunks@[idx as int] is Some && ranges@[idx as int].0 <= p
                            < ranges@[idx as int].1));
                        assert(out@[p] == prev[p]);
                    }
                }
            },
            None => {
                ok = false;
            },
        }
        idx = idx + 1;
    }
    ok
}

} // verus!
