use vstd::prelude::*;

verus! {

/// The longest length among the rows (0 for none).
pub open spec fn max_row_len(rows: Seq<Vec<u32>>) -> nat
    decreases rows.len(),
{
    if rows.len() == 0 {
        0
    } else {
        let m = max_row_len(rows.drop_last());
        if rows.last()@.len() > m {
            rows.last()@.len()
        } else {
            m
        }
    }
}

/// Every row is at most `max_row_len` long, and one row reaches it.
proof fn lemma_max_row_len(rows: Seq<Vec<u32>>)
    ensures
        forall|i: int| 0 <= i < rows.len() ==> (#[trigger] rows[i])@.len() <= max_row_len(rows),
        rows.len() > 0 ==> exists|i: int| 0 <= i < rows.len() && (#[trigger] rows[i])@.len() == max_row_len(rows),
        rows.len() == 0 ==> max_row_len(rows) == 0,
    decreases rows.len(),
{
    if rows.len() > 0 {
        let init = rows.drop_last();
        lemma_max_row_len(init);
        assert forall|i: int| 0 <= i < rows.len() implies (#[trigger] rows[i])@.len() <= max_row_len(rows) by {
            if i < init.len() {
                assert(rows[i] == init[i]);
            }
        }
        if rows.last()@.len() > max_row_len(init) || init.len() == 0 {
            assert(rows[rows.len() - 1]@.len() == max_row_len(rows));
        } else {
            let i = choose|i: int| 0 <= i < init.len() && (#[trigger] init[i])@.len() == max_row_len(init);
            assert(rows[i] == init[i]);
        }
    }
}

/// Token rows padded to one width: the ids row after row, each row filled
/// up with 0, and a mask that is 1 where a token stands and 0 in the filling.
#[derive(Debug, Clone)]
pub struct PaddedBatch {
    pub ids: Vec<u32>,
    pub mask: Vec<u8>,
    pub rows: usize,
    pub width: usize,
}

/// Whether `p` is `rows` padded to their longest length.
pub open spec fn padded_ok(p: PaddedBatch, rows: Seq<Vec<u32>>) -> bool {
    &&& p.rows == rows.len()
    &&& p.width == max_row_len(rows)
    &&& p.ids@.len() == p.rows * p.width
    &&& p.mask@.len() == p.rows * p.width
    &&& forall|i: int, j: int|
        0 <= i < p.rows && 0 <= j < p.width ==> {
            &&& #[trigger] p.ids@[i * p.width + j] == if j < rows[i]@.len() {
                rows[i]@[j]
            } else {
                0u32
            }
            &&& p.mask@[i * p.width + j] == if j < rows[i]@.len() {
                1u8
            } else {
                0u8
            }
        }
}

/// Pads token rows to their longest length, for one batched inference.
pub fn pad_token_rows(rows: &Vec<Vec<u32>>) -> (r: PaddedBatch)
    requires
        rows@.len() * max_row_len(rows@) <= usize::MAX,
    ensures
        padded_ok(r, rows@),
{
    proof {
        lemma_max_row_len(rows@);
    }
    let mut width: usize = 0;
    let mut k: usize = 0;
    while k < rows.len()
        invariant
            k <= rows@.len(),
            width == max_row_len(rows@.take(k as int)),
        decreases rows@.len() - k,
    {
        proof {
            assert(rows@.take(k + 1).drop_last() =~= rows@.take(k as int));
        }
        if rows[k].len() > width {
            width = rows[k].len();
        }
        k = k + 1;
    }
    proof {
        assert(rows@.take(rows@.len() as int) =~= rows@);
    }
    let n = rows.len();
    let mut ids: Vec<u32> = Vec::new();
    let mut mask: Vec<u8> = Vec::new();
    let mut i: usize = 0;
    while i < n
        invariant
            n == rows@.len(),
            i <= n,
            width == max_row_len(rows@),
            n * width <= usize::MAX,
            forall|q: int| 0 <= q < n ==> (#[trigger] rows@[q])@.len() <= width,
            ids@.len() == i * width,
            mask@.len() == i * width,
            forall|a: int, b: int|
                0 <= a < i && 0 <= b < width ==> {
                    &&& #[trigger] ids@[a * width + b] == if b < rows@[a]@.len() {
                        rows@[a]@[b]
                    } else {
                        0u32
                    }
                    &&& mask@[a * width + b] == if b < rows@[a]@.len() {
                        1u8
                    } else {
                        0u8
                    }
                },
        decreases n - i,
    {
        let row = &rows[i];
        let ghost base = ids@.len();
        let ghost ids_before = ids@;
        let ghost mask_before = mask@;
        let mut j: usize = 0;
        while j < width
            invariant
                j <= width,
                row@.len() <= width,
                base == i * width,
                ids@.len() == base + j,
                mask@.len() == base + j,
                forall|q: int| 0 <= q < base ==> ids@[q] == ids_before[q] && mask@[q] == mask_before[q],
                forall|b: int|
                    0 <= b < j ==> {
                        &&& #[trigger] ids@[base + b] == if b < row@.len() {
                            row@[b]
                        } else {
                            0u32
                        }
                        &&& mask@[base + b] == if b < row@.len() {
                            1u8
                        } else {
                            0u8
                        }
                    },
            decreases width - j,
        {
            if j < row.len() {
                ids.push(row[j]);
                mask.push(1);
            } else {
                ids.push(0);
                mask.push(0);
            }
            j = j + 1;
        }
        proof {
            assert((i + 1) * width == i * width + width) by (nonlinear_arith);
            assert forall|a: int, b: int| 0 <= a < i + 1 && 0 <= b < width implies {
                &&& #[trigger] ids@[a * width + b] == if b < rows@[a]@.len() {
                    rows@[a]@[b]
                } else {
                    0u32
                }
                &&& mask@[a * width + b] == if b < rows@[a]@.len() {
                    1u8
                } else {
                    0u8
                }
            } by {
                if a < i {
                    assert(a * width + b < i * width) by (nonlinear_arith)
                        requires
                            a < i,
                            b < width,
                    ;
                    assert(ids@[a * width + b] == ids_before[a * width + b]);
                } else {
                    assert(a * width == base);
                    assert(ids@[base + b] == ids@[a * width + b]);
                }
            }
        }
        i = i + 1;
    }
    PaddedBatch { ids, mask, rows: n, width }
}

/// The token ids kept of an encoding: at most `max_length` of them.
pub fn truncate_ids(ids: Vec<u32>, max_length: usize) -> (r: Vec<u32>)
    ensures
        r@ == if ids@.len() > max_length {
            ids@.take(max_length as int)
        } else {
            ids@
        },
{
    if ids.len() > max_length {
        let mut r: Vec<u32> = Vec::new();
        let mut i: usize = 0;
        while i < max_length
            invariant
                i <= max_length,
                max_length < ids@.len(),
                r@ == ids@.take(i as int),
            decreases max_length - i,
        {
            r.push(ids[i]);
            assert(ids@.take(i + 1) =~= ids@.take(i as int).push(ids@[i as int]));
            i = i + 1;
        }
        r
    } else {
        ids
    }
}

} // verus!
