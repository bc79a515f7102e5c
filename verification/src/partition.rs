//! Page-range partitioning. A probe request at page one reports a total
//! result count and a page bound; the remaining pages are split into
//! contiguous half-open ranges, one per worker task, that cover the page
//! span exactly once.

use vstd::prelude::*;

verus! {

/// A contiguous half-open page range `[start_page, end_page)` owned by one
/// worker task for the duration of a run, together with the query it serves.
#[derive(Debug, Clone, PartialEq, Eq)]
pub struct WorkAssignment {
    pub query: String,
    pub start_page: u32,
    pub end_page: u32,
}

/// The smaller of two integers.
pub open spec fn min_int(a: int, b: int) -> int {
    if a <= b {
        a
    } else {
        b
    }
}

/// The last page worth fetching: the reported page bound, clamped by how
/// many pages the capped result count fills. The probe owns page one and
/// the workers share pages two through this one, both ends included.
pub open spec fn last_page_index(total_count: int, max_page: int, page_size: int, cap: int) -> int
    recommends
        page_size >= 1,
{
    min_int(max_page, min_int(total_count, cap) / page_size)
}

/// The pages each worker takes when `n` pages are shared by `workers` tasks:
/// enough that no pages are left over, so the final range may come up short.
pub open spec fn chunk_len(n: int, workers: int) -> int
    recommends
        n >= 0,
        workers >= 1,
{
    let c = (n + workers - 1) / workers;
    if c < 1 {
        1
    } else {
        c
    }
}

/// Splits `[lo, hi)` into consecutive ranges of length `step`, the last one
/// truncated at `hi`.
pub open spec fn split_ranges(lo: int, hi: int, step: int) -> Seq<(int, int)>
    recommends
        step >= 1,
    decreases hi - lo,
{
    if lo >= hi || step < 1 {
        seq![]
    } else {
        let next = min_int(lo + step, hi);
        seq![(lo, next)] + split_ranges(next, hi, step)
    }
}

/// The page ranges that `partition` hands out, as plain integer pairs:
/// the pages `[2, last_page_index]` as the half-open span
/// `[2, last_page_index + 1)`. Page one stays with the probe request.
pub open spec fn spec_partition(
    total_count: int,
    max_page: int,
    workers: int,
    page_size: int,
    cap: int,
) -> Seq<(int, int)>
    recommends
        workers >= 1,
        page_size >= 1,
{
    let last = last_page_index(total_count, max_page, page_size, cap);
    split_ranges(2, last + 1, chunk_len(if last >= 2 {
        last - 1
    } else {
        0
    }, workers))
}

/// Whether some range in `r` contains the page `p`.
pub open spec fn page_covered(r: Seq<(int, int)>, p: int) -> bool {
    exists|i: int| 0 <= i < r.len() && (#[trigger] r[i]).0 <= p < r[i].1
}

/// The page ranges of a sequence of assignments.
pub open spec fn ranges_of(v: Seq<WorkAssignment>) -> Seq<(int, int)> {
    v.map_values(|a: WorkAssignment| (a.start_page as int, a.end_page as int))
}

/// How `split_ranges` covers its span: ranges are non-empty, consecutive
/// (each begins where the one before it ended), within bounds, start at `lo`
/// and end at `hi`, and none is longer than `step`.
pub proof fn lemma_split_ranges_shape(lo: int, hi: int, step: int)
    requires
        step >= 1,
    ensures
        ({
            let r = split_ranges(lo, hi, step);
            &&& (r.len() == 0 <==> lo >= hi)
            &&& forall|i: int| 0 <= i < r.len() ==> lo <= #[trigger] r[i].0 < r[i].1 <= hi
            &&& forall|i: int|
                0 <= i < r.len() ==> #[trigger] r[i].1 - r[i].0 <= step
            &&& forall|i: int| 0 <= i < r.len() - 1 ==> #[trigger] r[i].1 == r[i + 1].0
            &&& (r.len() > 0 ==> r[0].0 == lo && r[r.len() - 1].1 == hi)
            &&& (hi - lo) <= r.len() * step
            &&& (r.len() >= 1 ==> (r.len() - 1) * step < hi - lo)
        }),
    decreases hi - lo,
{
    if lo < hi {
        let next = min_int(lo + step, hi);
        lemma_split_ranges_shape(next, hi, step);
        let r = split_ranges(lo, hi, step);
        let tail = split_ranges(next, hi, step);
        assert(r =~= seq![(lo, next)] + tail);
        assert forall|i: int| 0 <= i < r.len() - 1 implies #[trigger] r[i].1 == r[i + 1].0 by {
            if i == 0 {
                if tail.len() > 0 {
                    assert(r[1] == tail[0]);
                }
            } else {
                assert(r[i] == tail[i - 1] && r[i + 1] == tail[i]);
            }
        }
        assert((hi - next) <= tail.len() * step);
        assert(r.len() * step == tail.len() * step + step) by (nonlinear_arith)
            requires
                r.len() == tail.len() + 1,
        ;
        if tail.len() > 0 {
            assert((tail.len() - 1) * step < hi - next);
            assert((r.len() - 1) * step == (tail.len() - 1) * step + step) by (nonlinear_arith)
                requires
                    r.len() == tail.len() + 1,
            ;
        }
    }
}

/// Every page in `[lo, hi)` falls inside exactly one of the ranges.
pub proof fn lemma_split_ranges_cover(lo: int, hi: int, step: int, p: int)
    requires
        step >= 1,
        lo <= p < hi,
    ensures
        exists|i: int|
            0 <= i < split_ranges(lo, hi, step).len() && (#[trigger] split_ranges(
                lo,
                hi,
                step,
            )[i]).0 <= p < split_ranges(lo, hi, step)[i].1,
    decreases hi - lo,
{
    let next = min_int(lo + step, hi);
    let r = split_ranges(lo, hi, step);
    let tail = split_ranges(next, hi, step);
    assert(r =~= seq![(lo, next)] + tail);
    if p < next {
        assert(r[0].0 <= p < r[0].1);
    } else {
        lemma_split_ranges_cover(next, hi, step, p);
        let j = choose|j: int| 0 <= j < tail.len() && (#[trigger] tail[j]).0 <= p < tail[j].1;
        assert(r[j + 1] == tail[j]);
        assert(r[j + 1].0 <= p < r[j + 1].1);
    }
}

/// Distinct ranges never overlap: they are strictly ordered left to right.
pub proof fn lemma_split_ranges_disjoint(lo: int, hi: int, step: int)
    requires
        step >= 1,
    ensures
        forall|i: int, j: int|
            0 <= i < j < split_ranges(lo, hi, step).len() ==> (#[trigger] split_ranges(
                lo,
                hi,
                step,
            )[i]).1 <= (#[trigger] split_ranges(lo, hi, step)[j]).0,
    decreases hi - lo,
{
    if lo < hi {
        let next = min_int(lo + step, hi);
        let r = split_ranges(lo, hi, step);
        let tail = split_ranges(next, hi, step);
        assert(r =~= seq![(lo, next)] + tail);
        lemma_split_ranges_disjoint(next, hi, step);
        lemma_split_ranges_shape(next, hi, step);
        assert forall|i: int, j: int| 0 <= i < j < r.len() implies (#[trigger] r[i]).1
            <= (#[trigger] r[j]).0 by {
            if i == 0 {
                assert(r[j] == tail[j - 1]);
            } else {
                assert(r[i] == tail[i - 1] && r[j] == tail[j - 1]);
            }
        }
    }
}

/// No more ranges are produced than there are workers to take them.
pub proof fn lemma_partition_worker_bound(
    total_count: int,
    max_page: int,
    workers: int,
    page_size: int,
    cap: int,
)
    requires
        workers >= 1,
        page_size >= 1,
    ensures
        spec_partition(total_count, max_page, workers, page_size, cap).len() <= workers,
{
    let last = last_page_index(total_count, max_page, page_size, cap);
    let n: int = if last >= 2 {
        last - 1
    } else {
        0
    };
    let c = chunk_len(n, workers);
    let r = split_ranges(2, last + 1, c);
    lemma_split_ranges_shape(2, last + 1, c);
    if r.len() > workers {
        assert(c * workers >= n) by (nonlinear_arith)
            requires
                workers >= 1,
                n >= 0,
                c >= (n + workers - 1) / workers,
        ;
        assert((r.len() - 1) * c >= workers * c) by (nonlinear_arith)
            requires
                r.len() - 1 >= workers,
                c >= 1,
        ;
        assert(false);
    }
}

/// Splits the pages `[2, last_page_index]` left after the probe into
/// contiguous ranges, one per worker, covering that span exactly once and
/// through the last page. When fewer than one full chunk of pages remains
/// per worker, later workers get nothing. With `last_page_index` below two
/// the probe result alone satisfies the query and no assignments are
/// produced.
pub fn partition(
    query: &str,
    total_count: u32,
    max_page: u32,
    worker_count: u32,
    page_size: u32,
    hard_cap: u32,
) -> (r: Vec<WorkAssignment>)
    requires
        worker_count >= 1,
        page_size >= 1,
        max_page < u32::MAX,
    ensures
        ranges_of(r@) == spec_partition(
            total_count as int,
            max_page as int,
            worker_count as int,
            page_size as int,
            hard_cap as int,
        ),
        forall|i: int| 0 <= i < r@.len() ==> (#[trigger] r@[i]).query@ == query@,
        forall|i: int|
            0 <= i < r@.len() ==> 2 <= (#[trigger] r@[i]).start_page < r@[i].end_page,
        r@.len() <= worker_count,
{
    let result_count: u32 = if total_count <= hard_cap {
        total_count
    } else {
        hard_cap
    };
    let filled_pages: u32 = result_count / page_size;
    let last: u32 = if max_page <= filled_pages {
        max_page
    } else {
        filled_pages
    };
    let hi: u32 = last + 1;
    let n: u32 = if last >= 2 {
        last - 1
    } else {
        0
    };
    let c64: u64 = (n as u64 + worker_count as u64 - 1) / worker_count as u64;
    proof {
        assert(c64 <= n as int || c64 == 0) by (nonlinear_arith)
            requires
                c64 == (n as int + worker_count as int - 1) / worker_count as int,
                worker_count >= 1,
                n >= 0,
        ;
    }
    let chunk: u32 = if c64 < 1 {
        1
    } else {
        c64 as u32
    };
    let ghost gchunk = chunk_len(n as int, worker_count as int);
    proof {
        assert(chunk == gchunk);
    }
    let mut out: Vec<WorkAssignment> = Vec::new();
    let mut start: u32 = 2;
    proof {
        assert(ranges_of(out@) =~= Seq::<(int, int)>::empty());
        assert(split_ranges(hi as int, hi as int, gchunk as int) =~= Seq::<
            (int, int),
        >::empty());
    }
    while start < hi
        invariant
            2 <= start,
            start <= hi || (start == 2 && hi < 2),
            hi == last + 1,
            chunk == gchunk,
            1 <= chunk,
            ranges_of(out@) + split_ranges(start as int, hi as int, chunk as int)
                =~= split_ranges(2, hi as int, chunk as int),
            forall|i: int| 0 <= i < out@.len() ==> (#[trigger] out@[i]).query@ == query@,
        decreases hi - start,
    {
        let headroom: u32 = hi - start;
        let end: u32 = if headroom > chunk {
            start + chunk
        } else {
            hi
        };
        let ghost prior = out@;
        out.push(
            WorkAssignment {
                query: query.to_owned(),
                start_page: start,
                end_page: end,
            },
        );
        proof {
            assert(end as int == min_int(start as int + chunk as int, hi as int));
            assert(ranges_of(out@) =~= ranges_of(prior).push((start as int, end as int)));
            assert(split_ranges(start as int, hi as int, chunk as int) =~= seq![
                (start as int, end as int),
            ] + split_ranges(end as int, hi as int, chunk as int));
            assert(ranges_of(out@) + split_ranges(end as int, hi as int, chunk as int)
                =~= split_ranges(2, hi as int, chunk as int));
        }
        start = end;
    }
    proof {
        assert(split_ranges(start as int, hi as int, chunk as int) =~= Seq::<
            (int, int),
        >::empty());
        assert(ranges_of(out@) =~= split_ranges(2, hi as int, chunk as int));
        assert(last as int == last_page_index(
            total_count as int,
            max_page as int,
            page_size as int,
            hard_cap as int,
        ));
        lemma_partition_worker_bound(
            total_count as int,
            max_page as int,
            worker_count as int,
            page_size as int,
            hard_cap as int,
        );
        lemma_split_ranges_shape(2, hi as int, chunk as int);
        assert forall|i: int| 0 <= i < out@.len() implies 2 <= (#[trigger] out@[i]).start_page
            < out@[i].end_page by {
            let rr = split_ranges(2, hi as int, chunk as int);
            assert(ranges_of(out@)[i] == (out@[i].start_page as int, out@[i].end_page as int));
            assert(rr[i] == ranges_of(out@)[i]);
            assert(2 <= rr[i].0 < rr[i].1);
        }
    }
    out
}

/// What `partition` promises of a result, stated once so that callers can
/// speak about two runs at a time.
pub open spec fn partition_post(
    r: Seq<WorkAssignment>,
    query: Seq<char>,
    total_count: int,
    max_page: int,
    workers: int,
    page_size: int,
    cap: int,
) -> bool {
    &&& ranges_of(r) == spec_partition(total_count, max_page, workers, page_size, cap)
    &&& forall|i: int| 0 <= i < r.len() ==> (#[trigger] r[i]).query@ == query
}

/// Partitioning is a pure function of the probe numbers: two results for the
/// same query and probe response carry the same ranges and the same query,
/// page for page.
pub proof fn lemma_partition_idempotent(
    r1: Seq<WorkAssignment>,
    r2: Seq<WorkAssignment>,
    query: Seq<char>,
    total_count: int,
    max_page: int,
    workers: int,
    page_size: int,
    cap: int,
)
    requires
        partition_post(r1, query, total_count, max_page, workers, page_size, cap),
        partition_post(r2, query, total_count, max_page, workers, page_size, cap),
    ensures
        ranges_of(r1) == ranges_of(r2),
        r1.len() == r2.len(),
        forall|i: int|
            0 <= i < r1.len() ==> (#[trigger] r1[i]).start_page == r2[i].start_page
                && r1[i].end_page == r2[i].end_page && r1[i].query@ == r2[i].query@,
{
    assert(r1.len() == ranges_of(r1).len());
    assert(r2.len() == ranges_of(r2).len());
    assert forall|i: int| 0 <= i < r1.len() implies (#[trigger] r1[i]).start_page
        == r2[i].start_page && r1[i].end_page == r2[i].end_page && r1[i].query@
        == r2[i].query@ by {
        assert(ranges_of(r1)[i] == ranges_of(r2)[i]);
    }
}

/// The work assignments for a query cover the pages `[2, last_page_index]`
/// exactly once — no gaps, no overlaps, the last page included — and
/// consecutive workers meet at a shared boundary; together with the probe
/// page they cover the whole span from page one through the last page.
pub proof fn lemma_partition_covers(
    total_count: int,
    max_page: int,
    workers: int,
    page_size: int,
    cap: int,
)
    requires
        workers >= 1,
        page_size >= 1,
    ensures
        ({
            let r = spec_partition(total_count, max_page, workers, page_size, cap);
            let last = last_page_index(total_count, max_page, page_size, cap);
            &&& forall|i: int| 0 <= i < r.len() ==> 2 <= #[trigger] r[i].0 < r[i].1 <= last + 1
            &&& forall|i: int| 0 <= i < r.len() - 1 ==> #[trigger] r[i].1 == r[i + 1].0
            &&& (r.len() > 0 ==> r[0].0 == 2 && r[r.len() - 1].1 == last + 1)
            &&& forall|p: int| 2 <= p <= last ==> #[trigger] page_covered(r, p)
            &&& forall|p: int| 1 <= p <= last ==> p == 1 || #[trigger] page_covered(r, p)
            &&& forall|i: int, j: int|
                0 <= i < j < r.len() ==> (#[trigger] r[i]).1 <= (#[trigger] r[j]).0
            &&& r.len() <= workers
        }),
{
    let last = last_page_index(total_count, max_page, page_size, cap);
    let n: int = if last >= 2 {
        last - 1
    } else {
        0
    };
    let c = chunk_len(n, workers);
    lemma_split_ranges_shape(2, last + 1, c);
    lemma_split_ranges_disjoint(2, last + 1, c);
    assert forall|p: int| 2 <= p <= last implies #[trigger] page_covered(
        spec_partition(total_count, max_page, workers, page_size, cap),
        p,
    ) by {
        lemma_split_ranges_cover(2, last + 1, c, p);
    }
    lemma_partition_worker_bound(total_count, max_page, workers, page_size, cap);
}

} // verus!
