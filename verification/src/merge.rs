//! Batching for the merged output stream. Completed records are grouped
//! into fixed-size batches before they are handed to the storage sink,
//! trading latency for fewer, larger writes; the final batch takes whatever
//! is left.

use vstd::prelude::*;

use crate::partition::min_int;

verus! {

/// Splits `items` into consecutive batches of `batch_size`, in order, the
/// last batch possibly shorter but never empty. Batch `i` holds exactly the
/// items `[i * batch_size, min((i + 1) * batch_size, n))` of the input, so
/// the batches concatenate back to the input: nothing is dropped, nothing
/// is reordered, nothing is duplicated.
pub fn into_batches<T>(items: Vec<T>, batch_size: usize) -> (r: Vec<Vec<T>>)
    requires
        batch_size >= 1,
    ensures
        forall|i: int|
            0 <= i < r@.len() ==> (#[trigger] r@[i])@ == items@.subrange(
                i * batch_size as int,
                min_int((i + 1) * batch_size as int, items@.len() as int),
            ),
        r@.len() * batch_size as int >= items@.len(),
        r@.len() >= 1 ==> ((r@.len() - 1) * batch_size as int) < items@.len(),
        r@.len() == 0 <==> items@.len() == 0,
{
    let ghost input = items@;
    let n = items.len();
    let mut rest = items;
    let mut out: Vec<Vec<T>> = Vec::new();
    let mut taken: usize = 0;
    proof {
        assert(input.skip(0) =~= input);
        assert(out@.len() * batch_size as int == 0) by (nonlinear_arith)
            requires
                out@.len() == 0,
        ;
    }
    while taken < n
        invariant
            taken <= n,
            n == input.len(),
            batch_size >= 1,
            rest@ =~= input.skip(taken as int),
            taken < n ==> taken as int == out@.len() * batch_size as int,
            taken == n ==> out@.len() * batch_size as int >= n,
            taken == n && out@.len() >= 1 ==> ((out@.len() - 1) * batch_size as int) < n,
            out@.len() == 0 ==> taken == 0,
            forall|i: int|
                0 <= i < out@.len() ==> (#[trigger] out@[i])@ == input.subrange(
                    i * batch_size as int,
                    min_int((i + 1) * batch_size as int, n as int),
                ),
        decreases n - taken,
    {
        let room: usize = n - taken;
        let take: usize = if room < batch_size {
            room
        } else {
            batch_size
        };
        let ghost start = taken as int;
        let mut batch: Vec<T> = Vec::new();
        let mut j: usize = 0;
        while j < take
            invariant
                j <= take,
                taken + take <= n,
                n == input.len(),
                rest@ =~= input.skip(start + j),
                batch@ =~= input.subrange(start, start + j),
                start == taken as int,
            decreases take - j,
        {
            let item = rest.remove(0);
            batch.push(item);
            j += 1;
            proof {
                assert(rest@ =~= input.skip(start + j));
                assert(batch@ =~= input.subrange(start, start + j));
            }
        }
        let ghost k: int = out@.len() as int;
        out.push(batch);
        proof {
            assert((k + 1) * batch_size as int == k * batch_size as int + batch_size as int)
                by (nonlinear_arith);
            assert(start + take as int == min_int((k + 1) * batch_size as int, n as int));
            assert(out@[k]@ == input.subrange(
                k * batch_size as int,
                min_int((k + 1) * batch_size as int, n as int),
            ));
        }
        taken += take;
    }
    proof {
        if out@.len() == 0 {
            assert(n == 0);
        }
    }
    out
}

} // verus!
