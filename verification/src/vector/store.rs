use vstd::prelude::*;
use crate::observer::prompt::{decimal, decimal_string};
use crate::text::strings::{owned, push_str};
use crate::types::VectorMeta;

verus! {

/// The dimension of the embeddings that the store holds by default.
pub const DEFAULT_DIM: usize = 384;

/// Why a vector was refused.
#[derive(Debug, Clone, PartialEq, Eq)]
pub enum StoreError {
    /// The vector's length differs from the store's dimension.
    Dimension { expected: usize, got: usize },
}

impl StoreError {
    /// The text of the error.
    pub fn message(&self) -> (r: String)
        ensures
            match *self {
                StoreError::Dimension { expected, got } => r@ == "Expected "@
                    + decimal(expected as nat) + " dims, got "@ + decimal(got as nat),
            },
    {
        match self {
            StoreError::Dimension { expected, got } => {
                let mut m = owned("Expected ");
                push_str(&mut m, decimal_string(*expected as u64).as_str());
                push_str(&mut m, " dims, got ");
                push_str(&mut m, decimal_string(*got as u64).as_str());
                m
            },
        }
    }
}

/// The first position of `id` in `ids`, if it occurs there.
pub open spec fn first_position(ids: Seq<i64>, id: i64) -> Option<int>
    decreases ids.len(),
{
    if ids.len() == 0 {
        None
    } else {
        match first_position(ids.drop_last(), id) {
            Some(p) => Some(p),
            None => if ids.last() == id {
                Some(ids.len() - 1)
            } else {
                None
            },
        }
    }
}

/// `first_position` is the least position that holds `id`, and `None` when
/// none does.
pub proof fn lemma_first_position(ids: Seq<i64>, id: i64)
    ensures
        match first_position(ids, id) {
            Some(p) => 0 <= p < ids.len() && ids[p] == id && forall|j: int|
                0 <= j < p ==> ids[j] != id,
            None => !ids.contains(id),
        },
    decreases ids.len(),
{
    if ids.len() > 0 {
        let d = ids.drop_last();
        lemma_first_position(d, id);
        assert forall|j: int| 0 <= j < d.len() implies d[j] == ids[j] by {}
        match first_position(d, id) {
            Some(p) => {
                assert(d[p] == ids[p]);
            },
            None => {
                assert forall|j: int| 0 <= j < d.len() implies ids[j] != id by {
                    assert(d[j] == ids[j]);
                }
                if ids.last() != id {
                    assert forall|j: int| 0 <= j < ids.len() implies ids[j] != id by {
                        if j < d.len() {
                            assert(d[j] == ids[j]);
                        }
                    }
                }
            },
        }
    }
}

/// A store of embedding vectors, each kept beside the memory id it belongs to
/// and its metadata. All vectors have the store's dimension; an id may occur
/// more than once, and lookups by id find its first occurrence.
#[derive(Clone, Debug)]
pub struct VectorStore<T> {
    pub ids: Vec<i64>,
    pub vectors: Vec<Vec<T>>,
    pub metadata: Vec<VectorMeta>,
    dim: usize,
}

impl<T> VectorStore<T> {
    /// The dimension the store accepts.
    pub closed spec fn dimension(&self) -> nat {
        self.dim as nat
    }

    /// The memory ids, one per stored vector, in order.
    pub closed spec fn id_seq(&self) -> Seq<i64> {
        self.ids@
    }

    /// The stored vectors, in order.
    pub closed spec fn vector_seq(&self) -> Seq<Vec<T>> {
        self.vectors@
    }

    /// The metadata, one per stored vector, in order.
    pub closed spec fn meta_seq(&self) -> Seq<VectorMeta> {
        self.metadata@
    }

    /// The three columns have one entry per stored vector, and every vector
    /// has the store's dimension.
    pub open spec fn well_formed(&self) -> bool {
        &&& self.id_seq().len() == self.vector_seq().len()
        &&& self.id_seq().len() == self.meta_seq().len()
        &&& forall|i: int| 0 <= i < self.vector_seq().len() ==> #[trigger] self.vector_seq()[i]@.len()
            == self.dimension()
    }

    /// The vector stored first under `id`, if any.
    pub open spec fn lookup(&self, id: i64) -> Option<Seq<T>> {
        match first_position(self.id_seq(), id) {
            Some(p) => Some(self.vector_seq()[p]@),
            None => None,
        }
    }

    /// An empty store for vectors of dimension `dim`.
    pub fn new(dim: usize) -> (s: Self)
        ensures
            s.well_formed(),
            s.dimension() == dim,
            s.id_seq().len() == 0,
    {
        VectorStore { ids: Vec::new(), vectors: Vec::new(), metadata: Vec::new(), dim }
    }

    /// An empty store for vectors of dimension `dim`, with room set aside
    /// for `capacity` of them.
    pub fn with_capacity(dim: usize, capacity: usize) -> (s: Self)
        ensures
            s.well_formed(),
            s.dimension() == dim,
            s.id_seq().len() == 0,
    {
        VectorStore {
            ids: Vec::with_capacity(capacity),
            vectors: Vec::with_capacity(capacity),
            metadata: Vec::with_capacity(capacity),
            dim,
        }
    }

    /// An empty store for vectors of the default dimension.
    pub fn default_dim() -> (s: Self)
        ensures
            s.well_formed(),
            s.dimension() == DEFAULT_DIM,
            s.id_seq().len() == 0,
    {
        Self::new(DEFAULT_DIM)
    }

    /// The number of stored vectors.
    pub fn len(&self) -> (r: usize)
        ensures
            r == self.id_seq().len(),
    {
        self.ids.len()
    }

    /// Whether the store holds no vector.
    pub fn is_empty(&self) -> (r: bool)
        ensures
            r == (self.id_seq().len() == 0),
    {
        self.ids.len() == 0
    }

    /// The dimension the store accepts.
    pub fn dim(&self) -> (r: usize)
        ensures
            r == self.dimension(),
    {
        self.dim
    }

    /// Appends a vector under `memory_id`; refused, with the store unchanged,
    /// when its length is not the store's dimension.
    pub fn insert(&mut self, memory_id: i64, vector: Vec<T>, meta: VectorMeta) -> (r: Result<
        (),
        StoreError,
    >)
        requires
            old(self).well_formed(),
        ensures
            final(self).well_formed(),
            final(self).dimension() == old(self).dimension(),
            r is Err <==> vector@.len() != old(self).dimension(),
            r matches Err(e) ==> e == (StoreError::Dimension {
                expected: old(self).dimension() as usize,
                got: vector@.len() as usize,
            }),
            r is Err ==> *final(self) == *old(self),
            r is Ok ==> {
                &&& final(self).id_seq() == old(self).id_seq().push(memory_id)
                &&& final(self).vector_seq() == old(self).vector_seq().push(vector)
                &&& final(self).meta_seq() == old(self).meta_seq().push(meta)
            },
    {
        if vector.len() != self.dim {
            return Err(StoreError::Dimension { expected: self.dim, got: vector.len() });
        }
        self.ids.push(memory_id);
        self.vectors.push(vector);
        self.metadata.push(meta);
        proof {
            assert forall|i: int| 0 <= i < self.vector_seq().len() implies #[trigger] self.vector_seq()[
                i]@.len() == self.dimension() by {
                if i < old(self).vector_seq().len() {
                    assert(self.vector_seq()[i] == old(self).vector_seq()[i]);
                }
            }
        }
        Ok(())
    }

    /// Removes the first entry stored under `memory_id`; whether there was one.
    pub fn remove(&mut self, memory_id: i64) -> (r: bool)
        requires
            old(self).well_formed(),
        ensures
            final(self).well_formed(),
            final(self).dimension() == old(self).dimension(),
            r == old(self).id_seq().contains(memory_id),
            match first_position(old(self).id_seq(), memory_id) {
                Some(p) => {
                    &&& final(self).id_seq() == old(self).id_seq().remove(p)
                    &&& final(self).vector_seq() == old(self).vector_seq().remove(p)
                    &&& final(self).meta_seq() == old(self).meta_seq().remove(p)
                },
                None => *final(self) == *old(self),
            },
    {
        proof {
            lemma_first_position(self.id_seq(), memory_id);
        }
        match self.index_of(memory_id) {
            Some(pos) => {
                self.ids.remove(pos);
                self.vectors.remove(pos);
                self.metadata.remove(pos);
                proof {
                    assert forall|i: int| 0 <= i < self.vector_seq().len() implies #[trigger] self.vector_seq()[
                        i]@.len() == self.dimension() by {
                        if i < pos {
                            assert(self.vector_seq()[i] == old(self).vector_seq()[i]);
                        } else {
                            assert(self.vector_seq()[i] == old(self).vector_seq()[i + 1]);
                        }
                    }
                }
                true
            },
            None => false,
        }
    }

    /// The vector stored first under `memory_id`.
    pub fn get(&self, memory_id: i64) -> (r: Option<&[T]>)
        requires
            self.well_formed(),
        ensures
            match self.lookup(memory_id) {
                Some(v) => r matches Some(s) && s@ == v,
                None => r is None,
            },
    {
        proof {
            lemma_first_position(self.id_seq(), memory_id);
        }
        match self.index_of(memory_id) {
            Some(idx) => {
                let s = self.vectors[idx].as_slice();
                assert(s@ == self.vector_seq()[idx as int]@);
                Some(s)
            },
            None => None,
        }
    }

    /// The vector at position `index`.
    pub fn get_vector(&self, index: usize) -> (r: Option<&[T]>)
        ensures
            index < self.vector_seq().len() ==> (r matches Some(s) && s@ == self.vector_seq()[index as int]@),
            index >= self.vector_seq().len() ==> r is None,
    {
        if index < self.vectors.len() {
            Some(self.vectors[index].as_slice())
        } else {
            None
        }
    }

    /// The memory id at position `index`.
    pub fn get_id(&self, index: usize) -> (r: Option<i64>)
        ensures
            r == (if index < self.id_seq().len() {
                Some(self.id_seq()[index as int])
            } else {
                None::<i64>
            }),
    {
        if index < self.ids.len() {
            Some(self.ids[index])
        } else {
            None
        }
    }

    /// The first position that holds `memory_id`.
    pub fn index_of(&self, memory_id: i64) -> (r: Option<usize>)
        ensures
            match first_position(self.id_seq(), memory_id) {
                Some(p) => r matches Some(i) && i == p,
                None => r is None,
            },
    {
        proof {
            lemma_first_position(self.id_seq(), memory_id);
        }
        let mut i: usize = 0;
        while i < self.ids.len()
            invariant
                i <= self.id_seq().len(),
                forall|j: int| 0 <= j < i ==> self.id_seq()[j] != memory_id,
                match first_position(self.id_seq(), memory_id) {
                    Some(p) => 0 <= p < self.id_seq().len() && self.id_seq()[p] == memory_id && forall|j: int|
                        0 <= j < p ==> self.id_seq()[j] != memory_id,
                    None => !self.id_seq().contains(memory_id),
                },
            decreases self.id_seq().len() - i,
        {
            if self.ids[i] == memory_id {
                return Some(i);
            }
            i = i + 1;
        }
        None
    }
}

impl<T> Default for VectorStore<T> {
    fn default() -> (s: Self)
        ensures
            s.well_formed(),
            s.dimension() == DEFAULT_DIM,
            s.id_seq().len() == 0,
    {
        Self::default_dim()
    }
}

/// Appending `id` leaves an earlier first position of `id` where it was, and
/// otherwise makes the new last position the first.
pub proof fn lemma_first_position_push(ids: Seq<i64>, x: i64, id: i64)
    ensures
        first_position(ids.push(x), id) == (match first_position(ids, id) {
            Some(p) => Some(p),
            None => if x == id {
                Some(ids.len() as int)
            } else {
                None
            },
        }),
{
    assert(ids.push(x).drop_last() =~= ids);
}

/// A read after a write: once a vector is inserted under an id that the store
/// did not hold, looking that id up gives the vector; other ids, and ids held
/// before, look up as they did.
pub proof fn lemma_lookup_after_insert<T>(
    before: VectorStore<T>,
    after: VectorStore<T>,
    memory_id: i64,
    vector: Vec<T>,
    meta: VectorMeta,
    id: i64,
)
    requires
        before.well_formed(),
        after.id_seq() == before.id_seq().push(memory_id),
        after.vector_seq() == before.vector_seq().push(vector),
    ensures
        after.lookup(id) == (if id == memory_id && !before.id_seq().contains(memory_id) {
            Some(vector@)
        } else {
            before.lookup(id)
        }),
{
    lemma_first_position_push(before.id_seq(), memory_id, id);
    lemma_first_position(before.id_seq(), id);
    lemma_first_position(before.id_seq(), memory_id);
    match first_position(before.id_seq(), id) {
        Some(p) => {
            assert(after.vector_seq()[p] == before.vector_seq()[p]);
        },
        None => {},
    }
}

/// Removing an id that occurs once in the store leaves no entry under it.
pub proof fn lemma_remove_single(before: Seq<i64>, id: i64)
    requires
        before.contains(id),
        forall|i: int, j: int|
            0 <= i < before.len() && 0 <= j < before.len() && before[i] == id && before[j] == id
                ==> i == j,
    ensures
        match first_position(before, id) {
            Some(p) => !before.remove(p).contains(id),
            None => false,
        },
{
    lemma_first_position(before, id);
    match first_position(before, id) {
        Some(p) => {
            if before.remove(p).contains(id) {
                let k = choose|k: int| 0 <= k < before.remove(p).len() && before.remove(p)[k] == id;
                if k < p {
                    assert(before[k] == id);
                } else {
                    assert(before[k + 1] == id);
                }
            }
        },
        None => {},
    }
}

} // verus!
