use vstd::prelude::*;
use vstd::arithmetic::div_mod::{lemma_mod_breakdown, lemma_small_mod};
use crate::observer::prompt::{decimal, decimal_string};
use crate::text::strings::{owned, push_str};

verus! {

// The vector file: a header of two little-endian `u64` (the number of
// vectors, then their dimension), the ids as `i64` in the machine's own byte
// order, then the vectors' elements, one vector after another.

/// The length of the header of a vector file.
pub const HEADER_LEN: usize = 16;

/// `256` to the power `k`.
pub open spec fn byte_base(k: nat) -> nat
    decreases k,
{
    if k == 0 {
        1
    } else {
        256 * byte_base((k - 1) as nat)
    }
}

/// The `k` lowest bytes of `n`, lowest first.
pub open spec fn le_bytes(n: nat, k: nat) -> Seq<u8>
    decreases k,
{
    if k == 0 {
        Seq::empty()
    } else {
        seq![(n % 256) as u8] + le_bytes(n / 256, (k - 1) as nat)
    }
}

/// The number that bytes stand for, lowest byte first.
pub open spec fn le_value(b: Seq<u8>) -> nat
    decreases b.len(),
{
    if b.len() == 0 {
        0
    } else {
        b[0] as nat + 256 * le_value(b.drop_first())
    }
}

/// Reading back `k` written bytes gives the number modulo `256^k`.
pub proof fn lemma_le_round_trip(n: nat, k: nat)
    ensures
        le_bytes(n, k).len() == k,
        le_value(le_bytes(n, k)) == n % byte_base(k),
    decreases k,
{
    if k == 0 {
    } else {
        lemma_le_round_trip(n / 256, (k - 1) as nat);
        let b = le_bytes(n, k);
        assert(b.drop_first() =~= le_bytes(n / 256, (k - 1) as nat));
        assert(byte_base((k - 1) as nat) > 0) by {
            lemma_byte_base_positive((k - 1) as nat);
        }
        lemma_mod_breakdown(n as int, 256, byte_base((k - 1) as nat) as int);
    }
}

/// `256^k` is positive.
pub proof fn lemma_byte_base_positive(k: nat)
    ensures
        byte_base(k) > 0,
    decreases k,
{
    if k > 0 {
        lemma_byte_base_positive((k - 1) as nat);
    }
}

/// `256^8` is `2^64`.
pub proof fn lemma_byte_base_8()
    ensures
        byte_base(8) == 0x1_0000_0000_0000_0000,
{
    assert(byte_base(0) == 1);
    assert(byte_base(1) == 0x100);
    assert(byte_base(2) == 0x1_0000);
    assert(byte_base(3) == 0x100_0000);
    assert(byte_base(4) == 0x1_0000_0000);
    assert(byte_base(5) == 0x100_0000_0000);
    assert(byte_base(6) == 0x1_0000_0000_0000);
    assert(byte_base(7) == 0x100_0000_0000_0000);
    assert(byte_base(8) == 0x1_0000_0000_0000_0000);
}

/// Eight bytes hold any `u64`.
pub proof fn lemma_u64_le_round_trip(n: u64)
    ensures
        le_bytes(n as nat, 8).len() == 8,
        le_value(le_bytes(n as nat, 8)) == n,
{
    lemma_le_round_trip(n as nat, 8);
    lemma_byte_base_8();
    lemma_small_mod(n as nat, byte_base(8));
}

/// Appends the eight little-endian bytes of `n`.
fn push_le_u64(out: &mut Vec<u8>, n: u64)
    ensures
        final(out)@ == old(out)@ + le_bytes(n as nat, 8),
{
    let mut m = n;
    let mut i: usize = 0;
    while i < 8
        invariant
            i <= 8,
            out@ + le_bytes(m as nat, (8 - i) as nat) == old(out)@ + le_bytes(n as nat, 8),
        decreases 8 - i,
    {
        let ghost before = out@;
        let byte = (m % 256) as u8;
        out.push(byte);
        proof {
            assert(le_bytes(m as nat, (8 - i) as nat) == seq![byte] + le_bytes(
                (m / 256) as nat,
                (8 - i - 1) as nat,
            ));
            assert(before + le_bytes(m as nat, (8 - i) as nat) =~= out@ + le_bytes(
                (m / 256) as nat,
                (8 - i - 1) as nat,
            ));
        }
        m = m / 256;
        i = i + 1;
    }
    assert(le_bytes(m as nat, 0) =~= Seq::<u8>::empty());
    assert(out@ =~= out@ + le_bytes(m as nat, 0));
}

/// Reads a little-endian `u64` from the eight bytes at `start`.
fn read_le_u64(b: &[u8], start: usize) -> (r: u64)
    requires
        start + 8 <= b@.len(),
        start + 8 <= usize::MAX,
    ensures
        r == le_value(b@.subrange(start as int, start + 8)),
{
    let ghost bytes = b@.subrange(start as int, start + 8);
    let mut v: u64 = 0;
    let mut i: usize = 8;
    while i > 0
        invariant
            i <= 8,
            start + 8 <= b@.len(),
            start + 8 <= usize::MAX,
            bytes == b@.subrange(start as int, start + 8),
            v == le_value(bytes.skip(i as int)),
            v < byte_base((8 - i) as nat),
        decreases i,
    {
        i = i - 1;
        let byte = b[start + i];
        proof {
            assert(bytes.skip(i as int).drop_first() =~= bytes.skip(i + 1));
            assert(bytes.skip(i as int)[0] == byte);
            assert(byte_base((8 - i) as nat) == 256 * byte_base((8 - i - 1) as nat));
            lemma_byte_base_8();
            lemma_byte_base_monotone((8 - i) as nat, 8);
            assert(v * 256 + byte < byte_base((8 - i) as nat)) by (nonlinear_arith)
                requires
                    v < byte_base((8 - i - 1) as nat),
                    byte < 256,
                    byte_base((8 - i) as nat) == 256 * byte_base((8 - i - 1) as nat),
            ;
        }
        v = byte as u64 + 256 * v;
    }
    assert(bytes.skip(0) =~= bytes);
    v
}

/// `256^k` grows with `k`.
pub proof fn lemma_byte_base_monotone(j: nat, k: nat)
    requires
        j <= k,
    ensures
        byte_base(j) <= byte_base(k),
    decreases k,
{
    if j < k {
        lemma_byte_base_monotone(j, (k - 1) as nat);
        lemma_byte_base_positive((k - 1) as nat);
    }
}

/// The header of a vector file.
pub open spec fn header_bytes(n_docs: u64, dim: u64) -> Seq<u8> {
    le_bytes(n_docs as nat, 8) + le_bytes(dim as nat, 8)
}

/// Writes the header of a vector file holding `n_docs` vectors of dimension `dim`.
pub fn encode_header(n_docs: u64, dim: u64) -> (r: Vec<u8>)
    ensures
        r@ == header_bytes(n_docs, dim),
{
    let mut out: Vec<u8> = Vec::new();
    push_le_u64(&mut out, n_docs);
    push_le_u64(&mut out, dim);
    assert(out@ =~= header_bytes(n_docs, dim));
    out
}

/// Reads the header of a vector file: the number of vectors and their dimension.
pub fn decode_header(h: &[u8]) -> (r: (u64, u64))
    requires
        h@.len() >= HEADER_LEN,
    ensures
        r.0 == le_value(h@.subrange(0, 8)),
        r.1 == le_value(h@.subrange(8, 16)),
{
    (read_le_u64(h, 0), read_le_u64(h, 8))
}

/// Reading back a written header gives the numbers that were written.
pub proof fn lemma_header_round_trip(n_docs: u64, dim: u64)
    ensures
        header_bytes(n_docs, dim).len() == HEADER_LEN,
        le_value(header_bytes(n_docs, dim).subrange(0, 8)) == n_docs,
        le_value(header_bytes(n_docs, dim).subrange(8, 16)) == dim,
{
    lemma_u64_le_round_trip(n_docs);
    lemma_u64_le_round_trip(dim);
    let h = header_bytes(n_docs, dim);
    assert(h.subrange(0, 8) =~= le_bytes(n_docs as nat, 8));
    assert(h.subrange(8, 16) =~= le_bytes(dim as nat, 8));
}

/// The error for a file whose vectors have another dimension than asked.
pub fn dimension_mismatch_message(dim: usize, file_dim: usize, path: &str) -> (r: String)
    ensures
        r@ == "Dimension mismatch: expected "@ + decimal(dim as nat) + ", found "@
            + decimal(file_dim as nat) + " in '"@ + path@ + "'"@,
{
    let mut m = owned("Dimension mismatch: expected ");
    push_str(&mut m, decimal_string(dim as u64).as_str());
    push_str(&mut m, ", found ");
    push_str(&mut m, decimal_string(file_dim as u64).as_str());
    push_str(&mut m, " in '");
    push_str(&mut m, path);
    push_str(&mut m, "'");
    m
}

/// The elements of the vectors, one vector after another.
pub open spec fn flat_elements<T>(vs: Seq<Seq<T>>) -> Seq<T>
    decreases vs.len(),
{
    if vs.len() == 0 {
        Seq::empty()
    } else {
        flat_elements(vs.drop_last()) + vs.last()
    }
}

/// The vectors' views.
pub open spec fn vector_views<T>(vs: Seq<Vec<T>>) -> Seq<Seq<T>> {
    vs.map_values(|v: Vec<T>| v@)
}

/// Lays the vectors out one after another.
pub fn flatten<T: Copy>(vectors: &Vec<Vec<T>>) -> (r: Vec<T>)
    ensures
        r@ == flat_elements(vector_views(vectors@)),
{
    let mut out: Vec<T> = Vec::new();
    let mut i: usize = 0;
    while i < vectors.len()
        invariant
            i <= vectors@.len(),
            out@ == flat_elements(vector_views(vectors@.take(i as int))),
        decreases vectors@.len() - i,
    {
        let v = &vectors[i];
        let ghost before = out@;
        let mut j: usize = 0;
        while j < v.len()
            invariant
                j <= v@.len(),
                out@ == before + v@.take(j as int),
            decreases v@.len() - j,
        {
            out.push(v[j]);
            assert(v@.take(j + 1) =~= v@.take(j as int).push(v@[j as int]));
            j = j + 1;
        }
        proof {
            assert(v@.take(v@.len() as int) =~= v@);
            assert(vector_views(vectors@.take(i + 1)).drop_last() =~= vector_views(
                vectors@.take(i as int),
            ));
            assert(vector_views(vectors@.take(i + 1)).last() == v@);
        }
        i = i + 1;
    }
    assert(vectors@.take(vectors@.len() as int) =~= vectors@);
    out
}

/// Cuts `n_docs` vectors of dimension `dim` out of laid-out elements.
pub fn split_vectors<T: Copy>(flat: &Vec<T>, n_docs: usize, dim: usize) -> (r: Vec<Vec<T>>)
    requires
        flat@.len() == n_docs * dim,
    ensures
        r@.len() == n_docs,
        forall|i: int|
            0 <= i < n_docs ==> #[trigger] r@[i]@ == flat@.subrange(i * dim, (i + 1) * dim),
{
    let total = flat.len();
    let mut out: Vec<Vec<T>> = Vec::new();
    let mut i: usize = 0;
    while i < n_docs
        invariant
            i <= n_docs,
            flat@.len() == n_docs * dim,
            total == flat@.len(),
            out@.len() == i,
            forall|k: int|
                0 <= k < i ==> #[trigger] out@[k]@ == flat@.subrange(k * dim, (k + 1) * dim),
        decreases n_docs - i,
    {
        proof {
            assert((i + 1) * dim <= n_docs * dim) by (nonlinear_arith)
                requires
                    i < n_docs,
            ;
            assert((i + 1) * dim == i * dim + dim) by (nonlinear_arith);
            assert(i * dim <= (i + 1) * dim) by (nonlinear_arith);
        }
        let start = i * dim;
        let mut v: Vec<T> = Vec::new();
        let mut j: usize = 0;
        while j < dim
            invariant
                j <= dim,
                start == i * dim,
                start + dim <= flat@.len(),
                total == flat@.len(),
                v@ == flat@.subrange(start as int, start + j),
            decreases dim - j,
        {
            v.push(flat[start + j]);
            assert(flat@.subrange(start as int, start + j + 1) =~= flat@.subrange(
                start as int,
                start + j,
            ).push(flat@[start + j]));
            j = j + 1;
        }
        out.push(v);
        proof {
            assert forall|k: int| 0 <= k < i + 1 implies #[trigger] out@[k]@ == flat@.subrange(
                k * dim,
                (k + 1) * dim,
            ) by {
                if k == i {
                    assert((k + 1) * dim == k * dim + dim) by (nonlinear_arith);
                }
            }
        }
        i = i + 1;
    }
    out
}

/// Cutting laid-out vectors of one dimension gives the vectors back.
pub proof fn lemma_flatten_split<T>(vs: Seq<Seq<T>>, dim: nat)
    requires
        forall|i: int| 0 <= i < vs.len() ==> (#[trigger] vs[i]).len() == dim,
    ensures
        flat_elements(vs).len() == vs.len() * dim,
        forall|i: int|
            0 <= i < vs.len() ==> flat_elements(vs).subrange(i * dim, (i + 1) * dim) == #[trigger] vs[i],
    decreases vs.len(),
{
    if vs.len() > 0 {
        let init = vs.drop_last();
        lemma_flatten_split(init, dim);
        let f = flat_elements(vs);
        let g = flat_elements(init);
        assert(f == g + vs.last());
        assert(g.len() == init.len() * dim);
        assert(f.len() == vs.len() * dim) by (nonlinear_arith)
            requires
                f.len() == g.len() + dim,
                g.len() == init.len() * dim,
                init.len() + 1 == vs.len(),
        ;
        assert forall|i: int| 0 <= i < vs.len() implies f.subrange(i * dim, (i + 1) * dim)
            == #[trigger] vs[i] by {
            assert((i + 1) * dim == i * dim + dim) by (nonlinear_arith);
            if i < init.len() {
                assert((i + 1) * dim <= init.len() * dim) by (nonlinear_arith)
                    requires
                        i < init.len(),
                ;
                assert(f.subrange(i * dim, (i + 1) * dim) =~= g.subrange(i * dim, (i + 1) * dim));
                assert(init[i] == vs[i]);
            } else {
                assert(i * dim == g.len());
                assert(f.subrange(i * dim, (i + 1) * dim) =~= vs.last());
            }
        }
    }
}

/// A persisted index is read back only when it holds one vector per id.
pub fn check_index_lengths(n_ids: usize, n_vectors: usize) -> (r: Result<(), String>)
    ensures
        r is Ok <==> n_ids == n_vectors,
        r matches Err(e) ==> e@ == "Index ids/vectors length mismatch"@,
{
    if n_ids != n_vectors {
        Err(owned("Index ids/vectors length mismatch"))
    } else {
        Ok(())
    }
}

/// Wrapper of `bytemuck::try_cast_slice::<u8, i64>`, copied out: the bytes
/// read as ids, in the machine's own byte order. It fails where the length is
/// not a multiple of 8 and where the bytes are not aligned for `i64` (which
/// depends on where they lie in memory, so nothing more is stated of it); the
/// values, which depend on the machine's byte order, are not stated.
#[verifier::external_body]
pub(crate) fn ids_from_bytes(bytes: &[u8]) -> (r: Option<Vec<i64>>)
    ensures
        match r {
            Some(v) => v@.len() * 8 == bytes@.len(),
            None => true,
        },
        bytes@.len() % 8 != 0 ==> r is None,
{
    match bytemuck::try_cast_slice::<u8, i64>(bytes) {
        Ok(ids) => Some(ids.to_vec()),
        Err(_) => None,
    }
}

/// Wrapper of `bytemuck::cast_slice::<i64, u8>`, copied out: the ids as bytes,
/// eight to an id, in the machine's own byte order (the byte values, which
/// depend on that order, are not stated). Bytes need no alignment, so the
/// cast does not fail.
#[verifier::external_body]
pub(crate) fn ids_to_bytes(ids: &[i64]) -> (r: Vec<u8>)
    ensures
        r@.len() == ids@.len() * 8,
{
    bytemuck::cast_slice::<i64, u8>(ids).to_vec()
}

/// The ids section of a vector file of `n_docs` vectors, read from its bytes:
/// `None` unless it is exactly eight bytes per id; no ids for no vectors;
/// otherwise the bytes read as ids where the cast can be made.
pub fn id_section(body: &[u8], n_docs: usize) -> (r: Option<Vec<i64>>)
    ensures
        body@.len() != 8 * n_docs ==> r is None,
        n_docs == 0 && body@.len() == 0 ==> (r matches Some(v) && v@.len() == 0),
        r matches Some(v) ==> v@.len() == n_docs && body@.len() == 8 * n_docs,
{
    if n_docs > usize::MAX / 8 || body.len() != 8 * n_docs {
        return None;
    }
    if n_docs == 0 {
        return Some(Vec::new());
    }
    ids_from_bytes(body)
}

/// The ids section of a vector file for these ids: eight bytes per id.
pub fn id_section_bytes(ids: &Vec<i64>) -> (r: Vec<u8>)
    ensures
        r@.len() == 8 * ids@.len(),
{
    ids_to_bytes(ids.as_slice())
}

} // verus!
