use vstd::prelude::*;
use crate::text::strings::{owned, str_eq, string_views};

verus! {

// The counting half of a BM25 index: how often each term occurs in each
// document, how many documents hold each term, and how long each document
// is. The scores themselves are floating point and are computed from these
// counts by the caller.

/// The value stored under `key` in an association list (its last entry
/// under that key).
pub open spec fn assoc_get(v: Seq<(String, u32)>, key: Seq<char>) -> Option<u32>
    decreases v.len(),
{
    if v.len() == 0 {
        None
    } else if v.last().0@ == key {
        Some(v.last().1)
    } else {
        assoc_get(v.drop_last(), key)
    }
}

/// The count stored under `key`, 0 where there is none.
pub open spec fn assoc_count(v: Seq<(String, u32)>, key: Seq<char>) -> nat {
    match assoc_get(v, key) {
        Some(c) => c as nat,
        None => 0,
    }
}

/// No key occurs twice in an association list.
pub open spec fn keys_distinct(v: Seq<(String, u32)>) -> bool {
    forall|i: int, j: int| 0 <= i < j < v.len() ==> (#[trigger] v[i]).0@ != (#[trigger] v[j]).0@
}

/// Whether some entry of an association list has `key`.
pub open spec fn has_key(v: Seq<(String, u32)>, key: Seq<char>) -> bool {
    exists|j: int| 0 <= j < v.len() && (#[trigger] v[j]).0@ == key
}

/// How many times `t` occurs in `s`.
pub open spec fn occurrences(s: Seq<Seq<char>>, t: Seq<char>) -> nat
    decreases s.len(),
{
    if s.len() == 0 {
        0
    } else {
        occurrences(s.drop_last(), t) + if s.last() == t {
            1nat
        } else {
            0nat
        }
    }
}

/// `t` occurs at most as often as `s` is long.
pub proof fn lemma_occurrences_bound(s: Seq<Seq<char>>, t: Seq<char>)
    ensures
        occurrences(s, t) <= s.len(),
        occurrences(s, t) > 0 <==> s.contains(t),
    decreases s.len(),
{
    if s.len() > 0 {
        lemma_occurrences_bound(s.drop_last(), t);
        if s.drop_last().contains(t) {
            let k = choose|k: int| 0 <= k < s.drop_last().len() && s.drop_last()[k] == t;
            assert(s[k] == t);
        }
        if s.contains(t) && s.last() != t {
            let k = choose|k: int| 0 <= k < s.len() && s[k] == t;
            assert(s.drop_last()[k] == t);
        }
        if s.last() == t {
            assert(s[s.len() - 1] == t);
        }
    }
}

/// Looking a key up after a write at position `p` of a list with distinct keys.
proof fn lemma_assoc_get_at(v: Seq<(String, u32)>, p: int, key: Seq<char>)
    requires
        keys_distinct(v),
        0 <= p < v.len(),
        v[p].0@ == key,
    ensures
        assoc_get(v, key) == Some(v[p].1),
    decreases v.len(),
{
    if p < v.len() - 1 {
        assert(v.last().0@ != key) by {
            assert(v[p].0@ != v[v.len() - 1].0@);
        }
        let w = v.drop_last();
        assert(keys_distinct(w)) by {
            assert forall|i: int, j: int| 0 <= i < j < w.len() implies (#[trigger] w[i]).0@
                != (#[trigger] w[j]).0@ by {
                assert(w[i] == v[i] && w[j] == v[j]);
            }
        }
        assert(w[p] == v[p]);
        lemma_assoc_get_at(w, p, key);
    }
}

/// A key that no entry holds is not found.
proof fn lemma_assoc_get_absent(v: Seq<(String, u32)>, key: Seq<char>)
    requires
        forall|i: int| 0 <= i < v.len() ==> (#[trigger] v[i]).0@ != key,
    ensures
        assoc_get(v, key) is None,
    decreases v.len(),
{
    if v.len() > 0 {
        let w = v.drop_last();
        assert(v[v.len() - 1].0@ != key);
        assert forall|i: int| 0 <= i < w.len() implies (#[trigger] w[i]).0@ != key by {
            assert(w[i] == v[i]);
        }
        lemma_assoc_get_absent(w, key);
    }
}

/// Where in an association list `key` is stored.
fn find_key(v: &Vec<(String, u32)>, key: &str) -> (r: Option<usize>)
    ensures
        match r {
            Some(p) => p < v@.len() && v@[p as int].0@ == key@,
            None => forall|i: int| 0 <= i < v@.len() ==> (#[trigger] v@[i]).0@ != key@,
        },
{
    let mut i: usize = 0;
    while i < v.len()
        invariant
            i <= v@.len(),
            forall|k: int| 0 <= k < i ==> (#[trigger] v@[k]).0@ != key@,
        decreases v@.len() - i,
    {
        if str_eq(v[i].0.as_str(), key) {
            return Some(i);
        }
        i = i + 1;
    }
    None
}

/// Adds 1 to the count stored under `key`, storing 1 where there is none.
fn increment(v: &mut Vec<(String, u32)>, key: &str)
    requires
        keys_distinct(old(v)@),
        assoc_count(old(v)@, key@) < u32::MAX,
    ensures
        keys_distinct(final(v)@),
        forall|k: Seq<char>| #[trigger]
            assoc_count(final(v)@, k) == assoc_count(old(v)@, k) + if k == key@ {
                1nat
            } else {
                0nat
            },
        old(v)@.len() <= final(v)@.len() <= old(v)@.len() + 1,
        forall|i: int| 0 <= i < old(v)@.len() ==> (#[trigger] final(v)@[i]).0@ == old(v)@[i].0@,
        forall|i: int| old(v)@.len() <= i < final(v)@.len() ==> (#[trigger] final(v)@[i]).0@ == key@,
{
    match find_key(v, key) {
        Some(p) => {
            proof {
                lemma_assoc_get_at(old(v)@, p as int, key@);
            }
            let c = v[p].1;
            let name = owned(v[p].0.as_str());
            v.set(p, (name, c + 1));
            proof {
                assert forall|i: int, j: int| 0 <= i < j < v@.len() implies (#[trigger] v@[i]).0@
                    != (#[trigger] v@[j]).0@ by {
                    assert(old(v)@[i].0@ != old(v)@[j].0@);
                }
                assert forall|k: Seq<char>| #[trigger]
                    assoc_count(v@, k) == assoc_count(old(v)@, k) + if k == key@ {
                        1nat
                    } else {
                        0nat
                    } by {
                    lemma_assoc_get_at(v@, p as int, key@);
                    if k != key@ {
                        lemma_assoc_same_elsewhere(old(v)@, v@, p as int, k);
                    }
                }
            }
        },
        None => {
            proof {
                lemma_assoc_get_absent(old(v)@, key@);
            }
            v.push((owned(key), 1));
            proof {
                assert forall|i: int, j: int| 0 <= i < j < v@.len() implies (#[trigger] v@[i]).0@
                    != (#[trigger] v@[j]).0@ by {
                    if j < old(v)@.len() {
                        assert(old(v)@[i].0@ != old(v)@[j].0@);
                    }
                }
                assert(v@.drop_last() =~= old(v)@);
            }
        },
    }
}

/// Changing the entry at `p` leaves the lookups of other keys alone.
proof fn lemma_assoc_same_elsewhere(a: Seq<(String, u32)>, b: Seq<(String, u32)>, p: int, k: Seq<char>)
    requires
        a.len() == b.len(),
        0 <= p < a.len(),
        a[p].0@ == b[p].0@,
        a[p].0@ != k,
        forall|i: int| 0 <= i < a.len() && i != p ==> a[i] == b[i],
    ensures
        assoc_get(a, k) == assoc_get(b, k),
    decreases a.len(),
{
    if a.len() > 0 {
        if p < a.len() - 1 {
            lemma_assoc_same_elsewhere(a.drop_last(), b.drop_last(), p, k);
        } else {
            assert(a.drop_last() =~= b.drop_last());
        }
    }
}

/// What adding document `doc` with `tokens` makes of the counts `before`:
/// the document's counts and length are replaced, documents up to it are
/// made room for (empty), the others are kept, and each of its terms that it
/// did not hold before is counted into the document frequencies.
pub open spec fn document_added(
    before: TermCounts,
    after: TermCounts,
    doc: int,
    tokens: Seq<Seq<char>>,
) -> bool {
    &&& after.n_docs == if doc + 1 > before.n_docs {
        doc + 1
    } else {
        before.n_docs as int
    }
    &&& after.doc_len@[doc] == tokens.len()
    &&& forall|d: int|
        0 <= d < before.n_docs && d != doc ==> #[trigger] after.doc_len@[d] == before.doc_len@[d]
    &&& forall|d: int|
        before.n_docs <= d < after.n_docs && d != doc ==> #[trigger] after.doc_len@[d] == 0
    &&& forall|t: Seq<char>| #[trigger] after.tf_count(doc, t) == occurrences(tokens, t)
    &&& forall|t: Seq<char>| #[trigger] after.holds_term(doc, t) == tokens.contains(t)
    &&& forall|d: int, t: Seq<char>|
        d != doc ==> #[trigger] after.tf_count(d, t) == before.tf_count(d, t)
    &&& forall|d: int, t: Seq<char>|
        d != doc ==> #[trigger] after.holds_term(d, t) == before.holds_term(d, t)
    &&& forall|t: Seq<char>| #[trigger]
        after.df_count(t) == before.df_count(t) + if tokens.contains(t) && !before.holds_term(
            doc,
            t,
        ) {
            1nat
        } else {
            0nat
        }
}

/// Term counts of a set of documents, numbered from 0.
#[derive(Debug, Clone)]
pub struct TermCounts {
    /// For each document, each of its terms with the times it occurs.
    pub tf: Vec<Vec<(String, u32)>>,
    /// Each term with the number of documents it was added with.
    pub df: Vec<(String, u32)>,
    /// For each document, its number of tokens.
    pub doc_len: Vec<usize>,
    /// The number of documents: one more than the highest document number.
    pub n_docs: usize,
}

impl TermCounts {
    /// One entry per document in each column, and no term twice in a list.
    pub open spec fn well_formed(&self) -> bool {
        &&& self.tf@.len() == self.doc_len@.len()
        &&& self.tf@.len() == self.n_docs
        &&& forall|d: int| 0 <= d < self.tf@.len() ==> keys_distinct(#[trigger] self.tf@[d]@)
        &&& keys_distinct(self.df@)
    }

    /// How many times `term` occurs in document `doc` (0 for a document
    /// that is not there).
    pub open spec fn tf_count(&self, doc: int, term: Seq<char>) -> nat {
        if 0 <= doc < self.tf@.len() {
            assoc_count(self.tf@[doc]@, term)
        } else {
            0
        }
    }

    /// Whether document `doc` holds `term`.
    pub open spec fn holds_term(&self, doc: int, term: Seq<char>) -> bool {
        0 <= doc < self.tf@.len() && has_key(self.tf@[doc]@, term)
    }

    /// How many documents `term` was counted in.
    pub open spec fn df_count(&self, term: Seq<char>) -> nat {
        assoc_count(self.df@, term)
    }

    /// How many of the documents before `n` hold `term`.
    pub open spec fn docs_holding(&self, term: Seq<char>, n: int) -> nat
        decreases n,
    {
        if n <= 0 {
            0
        } else {
            self.docs_holding(term, n - 1) + if self.holds_term(n - 1, term) {
                1nat
            } else {
                0nat
            }
        }
    }

    /// Every term's document frequency is the number of documents that hold it.
    pub open spec fn df_exact(&self) -> bool {
        forall|t: Seq<char>| #[trigger] self.df_count(t) == self.docs_holding(t, self.n_docs as int)
    }

    /// No documents.
    pub fn new() -> (r: Self)
        ensures
            r.well_formed(),
            r.n_docs == 0,
            forall|t: Seq<char>| #[trigger] r.df_count(t) == 0,
            r.df_exact(),
    {
        TermCounts { tf: Vec::new(), df: Vec::new(), doc_len: Vec::new(), n_docs: 0 }
    }

    /// Counts the tokens of document `doc_id`, replacing what was counted for
    /// it before. A term is counted into the document frequencies when the
    /// document did not hold it before.
    pub fn add_document(&mut self, doc_id: usize, tokens: &Vec<String>)
        requires
            old(self).well_formed(),
            doc_id < usize::MAX,
            tokens@.len() < u32::MAX,
            forall|t: Seq<char>|
                string_views(tokens@).contains(t) ==> #[trigger] old(self).df_count(t) < u32::MAX,
        ensures
            final(self).well_formed(),
            document_added(*old(self), *final(self), doc_id as int, string_views(tokens@)),
            old(self).df_exact() && (forall|t: Seq<char>|
                old(self).holds_term(doc_id as int, t) ==> string_views(tokens@).contains(t))
                ==> final(self).df_exact(),
            doc_id >= old(self).tf@.len() || old(self).tf@[doc_id as int]@.len() == 0 ==> forall|
                t: Seq<char>,
            | #[trigger]
                final(self).df_count(t) == old(self).df_count(t) + if string_views(
                    tokens@,
                ).contains(t) {
                    1nat
                } else {
                    0nat
                },
    {
        // Make room for the document.
        while self.tf.len() <= doc_id
            invariant
                doc_id < usize::MAX,
                self.tf@.len() == self.doc_len@.len(),
                self.tf@.len() == self.n_docs,
                old(self).tf@.len() <= self.tf@.len(),
                self.tf@.len() <= (if doc_id + 1 > old(self).n_docs {
                    doc_id + 1
                } else {
                    old(self).n_docs as int
                }),
                forall|d: int| 0 <= d < self.tf@.len() ==> keys_distinct(#[trigger] self.tf@[d]@),
                self.df@ == old(self).df@,
                forall|d: int| 0 <= d < old(self).tf@.len() ==> #[trigger] self.tf@[d] == old(self).tf@[d],
                forall|d: int|
                    0 <= d < old(self).tf@.len() ==> #[trigger] self.doc_len@[d]
                        == old(self).doc_len@[d],
                forall|d: int|
                    old(self).tf@.len() <= d < self.tf@.len() ==> #[trigger] self.tf@[d]@
                        == Seq::<(String, u32)>::empty(),
                forall|d: int|
                    old(self).tf@.len() <= d < self.tf@.len() ==> #[trigger] self.doc_len@[d] == 0,
            decreases doc_id + 1 - self.tf@.len(),
        {
            self.tf.push(Vec::new());
            self.doc_len.push(0);
            self.n_docs = self.n_docs + 1;
        }
        let ghost mid = *self;
        proof {
            assert forall|t: Seq<char>| #[trigger] old(self).holds_term(doc_id as int, t) == has_key(
                self.tf@[doc_id as int]@,
                t,
            ) by {
                if doc_id >= old(self).tf@.len() {
                    assert(self.tf@[doc_id as int]@ == Seq::<(String, u32)>::empty());
                }
            }
        }
        // Count the document's terms.
        let mut term_freq: Vec<(String, u32)> = Vec::new();
        let mut i: usize = 0;
        while i < tokens.len()
            invariant
                i <= tokens@.len(),
                tokens@.len() < u32::MAX,
                keys_distinct(term_freq@),
                forall|t: Seq<char>| #[trigger]
                    assoc_count(term_freq@, t) == occurrences(string_views(tokens@).take(i as int), t),
                forall|k: int|
                    0 <= k < term_freq@.len() ==> string_views(tokens@).contains(
                        #[trigger] term_freq@[k].0@,
                    ),
            decreases tokens@.len() - i,
        {
            let ghost views = string_views(tokens@);
            proof {
                assert(views.take(i + 1) =~= views.take(i as int).push(views[i as int]));
                lemma_occurrences_bound(views.take(i as int), tokens@[i as int]@);
                assert(views[i as int] == tokens@[i as int]@);
            }
            let ghost before = term_freq@;
            increment(&mut term_freq, tokens[i].as_str());
            proof {
                assert(views.take(i + 1).drop_last() =~= views.take(i as int));
                assert(views.take(i + 1).last() == views[i as int]);
                assert forall|t: Seq<char>| #[trigger]
                    assoc_count(term_freq@, t) == occurrences(views.take(i + 1), t) by {}
                assert forall|k: int| 0 <= k < term_freq@.len() implies views.contains(
                    #[trigger] term_freq@[k].0@,
                ) by {
                    if k < before.len() {
                        assert(term_freq@[k].0@ == before[k].0@);
                    } else {
                        assert(term_freq@[k].0@ == tokens@[i as int]@);
                        assert(views[i as int] == tokens@[i as int]@);
                    }
                }
            }
            i = i + 1;
        }
        proof {
            assert(string_views(tokens@).take(tokens@.len() as int) =~= string_views(tokens@));
        }
        // Count the terms the document did not hold before into the document frequencies.
        let mut k: usize = 0;
        while k < term_freq.len()
            invariant
                k <= term_freq@.len(),
                doc_id < self.tf@.len(),
                self.tf == mid.tf,
                self.doc_len == mid.doc_len,
                self.n_docs == mid.n_docs,
                keys_distinct(term_freq@),
                keys_distinct(self.df@),
                forall|j: int|
                    0 <= j < term_freq@.len() ==> string_views(tokens@).contains(
                        #[trigger] term_freq@[j].0@,
                    ),
                forall|t: Seq<char>|
                    string_views(tokens@).contains(t) ==> #[trigger] old(self).df_count(t) < u32::MAX,
                forall|t: Seq<char>| #[trigger]
                    old(self).holds_term(doc_id as int, t) == has_key(self.tf@[doc_id as int]@, t),
                forall|t: Seq<char>| #[trigger]
                    assoc_count(self.df@, t) == old(self).df_count(t) + if has_key(
                        term_freq@.take(k as int),
                        t,
                    ) && !old(self).holds_term(doc_id as int, t) {
                        1nat
                    } else {
                        0nat
                    },
            decreases term_freq@.len() - k,
        {
            let term = term_freq[k].0.as_str();
            let ghost df_before = self.df@;
            let ghost tv = term_freq@;
            proof {
                assert forall|t: Seq<char>| #[trigger] has_key(tv.take(k + 1), t) == (has_key(
                    tv.take(k as int),
                    t,
                ) || t == term@) by {
                    if has_key(tv.take(k + 1), t) {
                        let j = choose|j: int| 0 <= j < tv.take(k + 1).len() && (#[trigger] tv.take(
                            k + 1,
                        )[j]).0@ == t;
                        if j < k {
                            assert(tv.take(k as int)[j] == tv[j]);
                        }
                    }
                    if has_key(tv.take(k as int), t) {
                        let j = choose|j: int| 0 <= j < tv.take(k as int).len() && (#[trigger] tv.take(
                            k as int,
                        )[j]).0@ == t;
                        assert(tv.take(k + 1)[j] == tv[j]);
                    }
                    if t == term@ {
                        assert(tv.take(k + 1)[k as int] == tv[k as int]);
                    }
                }
                assert(!has_key(tv.take(k as int), term@)) by {
                    if has_key(tv.take(k as int), term@) {
                        let j = choose|j: int| 0 <= j < tv.take(k as int).len() && (#[trigger] tv.take(
                            k as int,
                        )[j]).0@ == term@;
                        assert(tv[j].0@ != tv[k as int].0@);
                    }
                }
                assert(string_views(tokens@).contains(term@));
            }
            match find_key(&self.tf[doc_id], term) {
                Some(p) => {
                    proof {
                        assert(has_key(self.tf@[doc_id as int]@, term@)) by {
                            assert(self.tf@[doc_id as int]@[p as int].0@ == term@);
                        }
                    }
                },
                None => {
                    increment(&mut self.df, term);
                },
            }
            k = k + 1;
        }
        proof {
            assert(term_freq@.take(term_freq@.len() as int) =~= term_freq@);
            assert forall|t: Seq<char>| #[trigger] has_key(term_freq@, t) == string_views(
                tokens@,
            ).contains(t) by {
                if has_key(term_freq@, t) {
                    let j = choose|j: int| 0 <= j < term_freq@.len() && (#[trigger] term_freq@[j]).0@
                        == t;
                }
                if string_views(tokens@).contains(t) {
                    lemma_occurrences_bound(string_views(tokens@), t);
                    assert(assoc_count(term_freq@, t) == occurrences(string_views(tokens@), t));
                    if !has_key(term_freq@, t) {
                        lemma_assoc_get_absent(term_freq@, t);
                        assert(assoc_count(term_freq@, t) == 0);
                    }
                }
            }
        }
        self.tf.set(doc_id, term_freq);
        self.doc_len.set(doc_id, tokens.len());
        proof {
            if old(self).df_exact() && (forall|t: Seq<char>|
                old(self).holds_term(doc_id as int, t) ==> string_views(tokens@).contains(t)) {
                lemma_add_keeps_df_exact(*old(self), *self, doc_id as int, string_views(tokens@));
            }
            if doc_id >= old(self).tf@.len() || old(self).tf@[doc_id as int]@.len() == 0 {
                lemma_add_new_document(*old(self), *self, doc_id as int, string_views(tokens@));
            }
        }
    }

    /// How many times `term` occurs in document `doc_id`.
    pub fn term_frequency(&self, doc_id: usize, term: &str) -> (r: u32)
        requires
            self.well_formed(),
        ensures
            r == self.tf_count(doc_id as int, term@),
    {
        if doc_id >= self.tf.len() {
            return 0;
        }
        match find_key(&self.tf[doc_id], term) {
            Some(p) => {
                proof {
                    lemma_assoc_get_at(self.tf@[doc_id as int]@, p as int, term@);
                }
                self.tf[doc_id][p].1
            },
            None => {
                proof {
                    lemma_assoc_get_absent(self.tf@[doc_id as int]@, term@);
                }
                0
            },
        }
    }

    /// How many documents `term` was counted in.
    pub fn document_frequency(&self, term: &str) -> (r: u32)
        requires
            self.well_formed(),
        ensures
            r == self.df_count(term@),
    {
        match find_key(&self.df, term) {
            Some(p) => {
                proof {
                    lemma_assoc_get_at(self.df@, p as int, term@);
                }
                self.df[p].1
            },
            None => {
                proof {
                    lemma_assoc_get_absent(self.df@, term@);
                }
                0
            },
        }
    }
}


/// Two counts that agree on which documents other than `doc` hold `t` count
/// the same documents holding `t`, but for `doc`.
proof fn lemma_docs_holding_change(a: TermCounts, b: TermCounts, doc: int, t: Seq<char>, m: int)
    requires
        forall|d: int| d != doc ==> a.holds_term(d, t) == b.holds_term(d, t),
    ensures
        a.docs_holding(t, m) + (if b.holds_term(doc, t) && 0 <= doc < m {
            1nat
        } else {
            0nat
        }) == b.docs_holding(t, m) + (if a.holds_term(doc, t) && 0 <= doc < m {
            1nat
        } else {
            0nat
        }),
    decreases m,
{
    if m > 0 {
        lemma_docs_holding_change(a, b, doc, t, m - 1);
    }
}

/// No document beyond the counted ones holds a term.
proof fn lemma_docs_holding_beyond(a: TermCounts, t: Seq<char>, m: int)
    requires
        m >= a.tf@.len(),
    ensures
        a.docs_holding(t, m) == a.docs_holding(t, a.tf@.len() as int),
    decreases m,
{
    if m > a.tf@.len() {
        lemma_docs_holding_beyond(a, t, m - 1);
    }
}

/// Adding a document that was not there before (beyond the last one, or
/// with no terms) counts each distinct term of its tokens once more in the
/// document frequencies and leaves every other term's count alone; counts
/// that were the numbers of documents holding each term stay so.
pub proof fn lemma_add_new_document(
    before: TermCounts,
    after: TermCounts,
    doc: int,
    tokens: Seq<Seq<char>>,
)
    requires
        before.well_formed(),
        after.well_formed(),
        0 <= doc,
        document_added(before, after, doc, tokens),
        doc >= before.tf@.len() || before.tf@[doc]@.len() == 0,
    ensures
        forall|t: Seq<char>| #[trigger]
            after.df_count(t) == before.df_count(t) + if tokens.contains(t) {
                1nat
            } else {
                0nat
            },
        before.df_exact() ==> after.df_exact(),
{
    assert forall|t: Seq<char>| !before.holds_term(doc, t) by {}
    if before.df_exact() {
        lemma_add_keeps_df_exact(before, after, doc, tokens);
    }
}

/// Document frequencies stay exact when a document is added that keeps the
/// terms it held before (in particular, a document added for the first time).
pub proof fn lemma_add_keeps_df_exact(
    before: TermCounts,
    after: TermCounts,
    doc: int,
    tokens: Seq<Seq<char>>,
)
    requires
        before.well_formed(),
        after.well_formed(),
        0 <= doc,
        document_added(before, after, doc, tokens),
        before.df_exact(),
        forall|t: Seq<char>| before.holds_term(doc, t) ==> tokens.contains(t),
    ensures
        after.df_exact(),
{
    assert forall|t: Seq<char>| #[trigger] after.df_count(t) == after.docs_holding(
        t,
        after.n_docs as int,
    ) by {
        lemma_docs_holding_change(after, before, doc, t, after.n_docs as int);
        lemma_docs_holding_beyond(before, t, after.n_docs as int);
        assert(before.df_count(t) == before.docs_holding(t, before.n_docs as int));
        assert(after.holds_term(doc, t) == tokens.contains(t));
    }
}


/// The last entry for document `d` in a list of documents.
pub open spec fn last_entry(docs: Seq<(usize, Vec<String>)>, d: int) -> Option<int>
    decreases docs.len(),
{
    if docs.len() == 0 {
        None
    } else if docs.last().0 == d {
        Some(docs.len() - 1)
    } else {
        last_entry(docs.drop_last(), d)
    }
}

/// One more than the highest document number of a list (0 for none).
pub open spec fn id_bound(docs: Seq<(usize, Vec<String>)>) -> int
    decreases docs.len(),
{
    if docs.len() == 0 {
        0
    } else {
        let b = id_bound(docs.drop_last());
        if docs.last().0 + 1 > b {
            docs.last().0 + 1
        } else {
            b
        }
    }
}

/// No document number occurs twice in a list.
pub open spec fn ids_distinct(docs: Seq<(usize, Vec<String>)>) -> bool {
    forall|i: int, j: int| 0 <= i < j < docs.len() ==> (#[trigger] docs[i]).0 != (#[trigger] docs[j]).0
}

/// What counting a list of documents in turn gives: each document as its
/// last entry has it.
pub open spec fn counts_of(c: TermCounts, docs: Seq<(usize, Vec<String>)>) -> bool {
    &&& c.n_docs == id_bound(docs)
    &&& forall|d: int, t: Seq<char>| #[trigger]
        c.holds_term(d, t) == match last_entry(docs, d) {
            Some(j) => string_views(docs[j].1@).contains(t),
            None => false,
        }
    &&& forall|d: int, t: Seq<char>| #[trigger]
        c.tf_count(d, t) == match last_entry(docs, d) {
            Some(j) => occurrences(string_views(docs[j].1@), t),
            None => 0,
        }
    &&& forall|d: int|
        0 <= d < c.n_docs ==> #[trigger] c.doc_len@[d] == match last_entry(docs, d) {
            Some(j) => docs[j].1@.len() as int,
            None => 0,
        }
}

impl TermCounts {
    /// Counts a list of documents in turn (see `add_document`).
    pub fn build_from_documents(docs: &Vec<(usize, Vec<String>)>) -> (r: Self)
        requires
            docs@.len() < u32::MAX,
            forall|i: int|
                0 <= i < docs@.len() ==> (#[trigger] docs@[i]).0 < usize::MAX && docs@[i].1@.len()
                    < u32::MAX,
        ensures
            r.well_formed(),
            counts_of(r, docs@),
            forall|t: Seq<char>| #[trigger] r.df_count(t) <= docs@.len(),
            ids_distinct(docs@) ==> r.df_exact(),
    {
        let mut index = TermCounts::new();
        let mut i: usize = 0;
        while i < docs.len()
            invariant
                i <= docs@.len(),
                docs@.len() < u32::MAX,
                forall|k: int|
                    0 <= k < docs@.len() ==> (#[trigger] docs@[k]).0 < usize::MAX
                        && docs@[k].1@.len() < u32::MAX,
                index.well_formed(),
                counts_of(index, docs@.take(i as int)),
                forall|t: Seq<char>| #[trigger] index.df_count(t) <= i,
                ids_distinct(docs@.take(i as int)) ==> index.df_exact(),
            decreases docs@.len() - i,
        {
            let ghost before = index;
            let ghost prefix = docs@.take(i as int);
            let ghost next = docs@.take(i + 1);
            let doc_id = docs[i].0;
            proof {
                assert(next.drop_last() =~= prefix);
                assert(next.last() == docs@[i as int]);
            }
            index.add_document(doc_id, &docs[i].1);
            proof {
                let toks = string_views(docs@[i as int].1@);
                assert forall|d: int, t: Seq<char>| #[trigger] index.holds_term(d, t) == match last_entry(
                    next,
                    d,
                ) {
                    Some(j) => string_views(next[j].1@).contains(t),
                    None => false,
                } by {
                    if d != doc_id {
                        match last_entry(prefix, d) {
                            Some(j) => {
                                lemma_last_entry_in_range(prefix, d);
                                assert(next[j] == prefix[j]);
                            },
                            None => {},
                        }
                    }
                }
                assert forall|d: int, t: Seq<char>| #[trigger] index.tf_count(d, t) == match last_entry(
                    next,
                    d,
                ) {
                    Some(j) => occurrences(string_views(next[j].1@), t),
                    None => 0,
                } by {
                    if d != doc_id {
                        match last_entry(prefix, d) {
                            Some(j) => {
                                lemma_last_entry_in_range(prefix, d);
                                assert(next[j] == prefix[j]);
                            },
                            None => {},
                        }
                    }
                }
                assert forall|d: int| 0 <= d < index.n_docs implies #[trigger] index.doc_len@[d]
                    == match last_entry(next, d) {
                    Some(j) => next[j].1@.len() as int,
                    None => 0,
                } by {
                    if d != doc_id {
                        match last_entry(prefix, d) {
                            Some(j) => {
                                lemma_last_entry_in_range(prefix, d);
                                assert(next[j] == prefix[j]);
                                assert(d < before.n_docs) by {
                                    lemma_last_entry_below_bound(prefix, d);
                                }
                            },
                            None => {
                                if d < before.n_docs {
                                    assert(before.doc_len@[d] == 0);
                                }
                            },
                        }
                    }
                }
                if ids_distinct(next) {
                    assert(ids_distinct(prefix)) by {
                        assert forall|a: int, b: int| 0 <= a < b < prefix.len() implies (
                        #[trigger] prefix[a]).0 != (#[trigger] prefix[b]).0 by {
                            assert(prefix[a] == next[a] && prefix[b] == next[b]);
                        }
                    }
                    assert(last_entry(prefix, doc_id as int) is None) by {
                        lemma_last_entry_absent(prefix, next, doc_id as int);
                    }
                    lemma_add_keeps_df_exact(before, index, doc_id as int, toks);
                }
            }
            i = i + 1;
        }
        proof {
            assert(docs@.take(docs@.len() as int) =~= docs@);
        }
        index
    }
}

/// The last entry of a document lies in the list and is that document's.
proof fn lemma_last_entry_in_range(docs: Seq<(usize, Vec<String>)>, d: int)
    ensures
        last_entry(docs, d) matches Some(j) ==> 0 <= j < docs.len() && docs[j].0 == d,
    decreases docs.len(),
{
    if docs.len() > 0 && docs.last().0 != d {
        lemma_last_entry_in_range(docs.drop_last(), d);
        match last_entry(docs.drop_last(), d) {
            Some(j) => {
                assert(docs.drop_last()[j] == docs[j]);
            },
            None => {},
        }
    }
}

/// A document that has an entry is below the list's id bound.
proof fn lemma_last_entry_below_bound(docs: Seq<(usize, Vec<String>)>, d: int)
    ensures
        last_entry(docs, d) is Some ==> d < id_bound(docs),
    decreases docs.len(),
{
    if docs.len() > 0 && docs.last().0 != d {
        lemma_last_entry_below_bound(docs.drop_last(), d);
    }
}

/// In a list of distinct documents, the last one has no earlier entry.
proof fn lemma_last_entry_absent(prefix: Seq<(usize, Vec<String>)>, next: Seq<(usize, Vec<String>)>, d: int)
    requires
        next.len() == prefix.len() + 1,
        next.drop_last() == prefix,
        next.last().0 == d,
        ids_distinct(next),
    ensures
        last_entry(prefix, d) is None,
{
    lemma_last_entry_in_range(prefix, d);
    match last_entry(prefix, d) {
        Some(j) => {
            assert(next[j] == prefix[j]);
            assert(next[j].0 != next[next.len() - 1].0);
        },
        None => {},
    }
}

} // verus!
