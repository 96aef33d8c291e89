use std::collections::HashMap;
use vstd::prelude::*;

verus! {

/// The last position of `id` in `s`, if it occurs there.
pub open spec fn last_position(s: Seq<i64>, id: i64) -> Option<int>
    decreases s.len(),
{
    if s.len() == 0 {
        None
    } else if s.last() == id {
        Some(s.len() - 1)
    } else {
        last_position(s.drop_last(), id)
    }
}

/// Whether an optional position stands for `expected`.
pub open spec fn same_position(pos: Option<usize>, expected: Option<int>) -> bool {
    match pos {
        Some(p) => expected == Some(p as int),
        None => expected is None,
    }
}

/// A value occurs in a sequence with one more value appended exactly when it
/// is that value or occurs in the sequence.
pub proof fn lemma_contains_push(s: Seq<i64>, x: i64, y: i64)
    ensures
        s.push(x).contains(y) <==> (s.contains(y) || y == x),
{
    if s.push(x).contains(y) {
        let k = choose|k: int| 0 <= k < s.push(x).len() && s.push(x)[k] == y;
        if k < s.len() {
            assert(s[k] == y);
        }
    }
    if s.contains(y) {
        let k = choose|k: int| 0 <= k < s.len() && s[k] == y;
        assert(s.push(x)[k] == y);
    }
    if y == x {
        assert(s.push(x)[s.len() as int] == y);
    }
}

/// Appending a value moves its last position to the end and leaves the
/// others where they were.
pub proof fn lemma_last_position_push(s: Seq<i64>, x: i64, id: i64)
    ensures
        last_position(s.push(x), id) == (if x == id {
            Some(s.len() as int)
        } else {
            last_position(s, id)
        }),
{
    assert(s.push(x).drop_last() =~= s);
}

/// A document as the two ranked lists place it: the positions (from 0) of
/// its last occurrence in the text-search list and in the vector list.
#[derive(Debug, Clone, Copy, PartialEq, Eq)]
pub struct FusedRanks {
    pub fts: Option<usize>,
    pub vec: Option<usize>,
}

/// The rank that a document missing from one list is given there: three
/// times the number of results asked for.
pub fn penalty_rank(limit: usize) -> (r: usize)
    requires
        limit * 3 <= usize::MAX,
    ensures
        r == limit * 3,
{
    limit * 3
}

/// The rank (from 1) of a document in one list, or the penalty rank where the
/// list lacks it.
pub fn list_rank(pos: Option<usize>, penalty: usize) -> (r: usize)
    requires
        pos matches Some(p) ==> p < usize::MAX,
    ensures
        r == match pos {
            Some(p) => (p + 1) as usize,
            None => penalty,
        },
{
    match pos {
        Some(p) => p + 1,
        None => penalty,
    }
}

/// Gathers the documents of a text-search list and a vector list, as
/// reciprocal rank fusion scores them: each document of either list, keyed by
/// its id, with the positions of its last occurrence in each list.
pub fn fuse_ranks(fts_ids: &Vec<i64>, vec_ids: &Vec<i64>) -> (r: HashMap<i64, FusedRanks>)
    ensures
        forall|id: i64| #[trigger]
            r@.contains_key(id) <==> (fts_ids@.contains(id) || vec_ids@.contains(id)),
        forall|id: i64| #[trigger]
            r@.contains_key(id) ==> {
                &&& same_position(r@[id].fts, last_position(fts_ids@, id))
                &&& same_position(r@[id].vec, last_position(vec_ids@, id))
            },
{
    broadcast use vstd::std_specs::hash::group_hash_axioms;

    let mut map: HashMap<i64, FusedRanks> = HashMap::new();
    let mut k: usize = 0;
    while k < fts_ids.len()
        invariant
            k <= fts_ids@.len(),
            forall|id: i64| #[trigger]
                map@.contains_key(id) <==> fts_ids@.take(k as int).contains(id),
            forall|id: i64| #[trigger]
                map@.contains_key(id) ==> same_position(
                    map@[id].fts,
                    last_position(fts_ids@.take(k as int), id),
                ) && map@[id].vec is None,
        decreases fts_ids@.len() - k,
    {
        let id = fts_ids[k];
        proof {
            let t = fts_ids@.take(k as int);
            assert(fts_ids@.take(k + 1) =~= t.push(id));
            assert forall|x: i64|
                #[trigger] fts_ids@.take(k + 1).contains(x) <==> (t.contains(x) || x == id) by {
                lemma_contains_push(t, id, x);
            }
            assert forall|x: i64| #[trigger]
                last_position(fts_ids@.take(k + 1), x) == (if x == id {
                    Some(k as int)
                } else {
                    last_position(t, x)
                }) by {
                lemma_last_position_push(t, id, x);
            }
        }
        map.insert(id, FusedRanks { fts: Some(k), vec: None });
        k = k + 1;
    }
    assert(fts_ids@.take(fts_ids@.len() as int) =~= fts_ids@);
    let mut k: usize = 0;
    while k < vec_ids.len()
        invariant
            k <= vec_ids@.len(),
            forall|id: i64| #[trigger]
                map@.contains_key(id) <==> (fts_ids@.contains(id) || vec_ids@.take(
                    k as int,
                ).contains(id)),
            forall|id: i64| #[trigger]
                map@.contains_key(id) ==> {
                    &&& same_position(map@[id].fts, last_position(fts_ids@, id))
                    &&& same_position(map@[id].vec, last_position(vec_ids@.take(k as int), id))
                },
        decreases vec_ids@.len() - k,
    {
        let id = vec_ids[k];
        proof {
            let t = vec_ids@.take(k as int);
            assert(vec_ids@.take(k + 1) =~= t.push(id));
            assert forall|x: i64|
                #[trigger] vec_ids@.take(k + 1).contains(x) <==> (t.contains(x) || x == id) by {
                lemma_contains_push(t, id, x);
            }
            assert forall|x: i64| #[trigger]
                last_position(vec_ids@.take(k + 1), x) == (if x == id {
                    Some(k as int)
                } else {
                    last_position(t, x)
                }) by {
                lemma_last_position_push(t, id, x);
            }
            lemma_last_position_absent(fts_ids@, id);
        }
        let fts = match map.get(&id) {
            Some(e) => e.fts,
            None => None,
        };
        map.insert(id, FusedRanks { fts, vec: Some(k) });
        k = k + 1;
    }
    assert(vec_ids@.take(vec_ids@.len() as int) =~= vec_ids@);
    map
}

/// A value that does not occur has no last position.
pub proof fn lemma_last_position_absent(s: Seq<i64>, id: i64)
    ensures
        !s.contains(id) ==> last_position(s, id) is None,
    decreases s.len(),
{
    if s.len() > 0 && !s.contains(id) {
        let t = s.drop_last();
        assert(!t.contains(id)) by {
            if t.contains(id) {
                let q = choose|q: int| 0 <= q < t.len() && t[q] == id;
                assert(s[q] == id);
            }
        }
        assert(s[s.len() - 1] == s.last());
        lemma_last_position_absent(t, id);
    }
}

} // verus!
