use vstd::prelude::*;

verus! {

/// The number of texts embedded together when no batch size is given.
pub const DEFAULT_BATCH_SIZE: usize = 32;

/// The batch size used for a requested one: 0 asks for the default.
pub fn effective_batch_size(batch_size: usize) -> (r: usize)
    ensures
        r == (if batch_size == 0 {
            DEFAULT_BATCH_SIZE
        } else {
            batch_size
        }),
        r > 0,
{
    if batch_size == 0 {
        DEFAULT_BATCH_SIZE
    } else {
        batch_size
    }
}

/// The batches (start and end positions) in which `n` texts are embedded:
/// consecutive runs of `size` texts from the start, the last one shorter
/// when `size` does not divide `n`.
pub open spec fn batches_ok(r: Seq<(usize, usize)>, n: nat, size: nat) -> bool {
    &&& r.len() == (if n % size == 0 {
        n / size
    } else {
        n / size + 1
    })
    &&& forall|k: int|
        0 <= k < r.len() ==> {
            &&& (#[trigger] r[k]).0 == k * size
            &&& r[k].1 == (if (k + 1) * size <= n {
                (k + 1) * size
            } else {
                n as int
            })
        }
}

/// Cuts `n` texts into batches of `batch_size` (0 meaning the default size).
pub fn batch_ranges(n: usize, batch_size: usize) -> (r: Vec<(usize, usize)>)
    ensures
        batches_ok(r@, n as nat, effective_batch_size_spec(batch_size) as nat),
{
    let size = effective_batch_size(batch_size);
    let mut out: Vec<(usize, usize)> = Vec::new();
    let mut start: usize = 0;
    assert(out@.len() == 0);
    assert(out@.len() * size == 0) by (nonlinear_arith)
        requires
            out@.len() == 0,
    ;
    while start < n
        invariant
            size > 0,
            size == effective_batch_size_spec(batch_size),
            start <= n,
            start == (if out@.len() * size <= n {
                out@.len() * size
            } else {
                n as int
            }),
            out@.len() > 0 ==> (out@.len() - 1) * size < n,
            forall|k: int|
                0 <= k < out@.len() ==> {
                    &&& (#[trigger] out@[k]).0 == k * size
                    &&& out@[k].1 == (if (k + 1) * size <= n {
                        (k + 1) * size
                    } else {
                        n as int
                    })
                },
        decreases n - start,
    {
        let ghost k = out@.len() as int;
        assert(start == k * size);
        assert((k + 1) * size == k * size + size) by (nonlinear_arith);
        let end = if n - start <= size {
            n
        } else {
            start + size
        };
        out.push((start, end));
        start = end;
    }
    proof {
        lemma_batch_count(n as nat, size as nat, out@.len(), start as nat);
    }
    out
}

/// The batch size used for a requested one.
pub open spec fn effective_batch_size_spec(batch_size: usize) -> usize {
    if batch_size == 0 {
        DEFAULT_BATCH_SIZE
    } else {
        batch_size
    }
}

proof fn lemma_batch_count(n: nat, size: nat, count: nat, reached: nat)
    requires
        size > 0,
        count > 0 ==> (count - 1) * size < n,
        count == 0 ==> n == 0,
        n <= count * size,
    ensures
        count == (if n % size == 0 {
            n / size
        } else {
            n / size + 1
        }),
{
    assert(count == (if n % size == 0 {
        n / size
    } else {
        n / size + 1
    })) by (nonlinear_arith)
        requires
            size > 0,
            count > 0 ==> (count - 1) * size < n,
            count == 0 ==> n == 0,
            n <= count * size,
    ;
}

} // verus!
