//! The bounded least-recently-used render cache.
//!
//! The cache maps render keys to rendered content plus its fingerprint. Its
//! behaviour is stated against a mathematical model: the fixed capacity and
//! the sequence of entries ordered by recency, least recently written first.
//! Recency is promoted on writes only; reads leave the order untouched.
//! Capacity zero disables caching: `insert` is a no-op.

use vstd::prelude::*;

use crate::fingerprint::Fingerprint;

verus! {

/// One cached render: a key, the rendered content, and its fingerprint.
struct CacheEntry {
    key: String,
    content: String,
    etag: Fingerprint,
}

/// The mathematical image of one cache entry.
pub ghost struct EntrySnap {
    pub key: Seq<char>,
    pub content: Seq<char>,
    pub etag_weak: bool,
    pub etag_tag: Seq<char>,
}

/// The mathematical image of the whole cache: the fixed capacity and the
/// entries ordered by recency, least recently written first.
pub ghost struct CacheModel {
    pub cap: nat,
    pub entries: Seq<EntrySnap>,
}

impl CacheEntry {
    spec fn snap(self) -> EntrySnap {
        EntrySnap {
            key: self.key@,
            content: self.content@,
            etag_weak: self.etag.weak,
            etag_tag: self.etag.tag@,
        }
    }
}

pub open spec fn model_has_key(m: CacheModel, key: Seq<char>) -> bool {
    exists|i: int| 0 <= i < m.entries.len() && #[trigger] m.entries[i].key == key
}

/// The position of `key` among the entries; meaningful only under
/// `model_wf`, where at most one entry carries each key.
pub open spec fn model_index_of(m: CacheModel, key: Seq<char>) -> int {
    choose|i: int| 0 <= i < m.entries.len() && #[trigger] m.entries[i].key == key
}

pub open spec fn model_lookup(m: CacheModel, key: Seq<char>) -> Option<EntrySnap> {
    if model_has_key(m, key) {
        Some(m.entries[model_index_of(m, key)])
    } else {
        None
    }
}

/// Well-formedness: never more entries than the capacity allows, and at most
/// one entry per key.
pub open spec fn model_wf(m: CacheModel) -> bool {
    &&& m.entries.len() <= m.cap
    &&& forall|i: int, j: int|
        0 <= i < j < m.entries.len() ==> (#[trigger] m.entries[i]).key != (
        #[trigger] m.entries[j]).key
}

/// What one `insert` does to the model.
///
/// With capacity zero nothing happens. Re-inserting an existing key removes
/// its old entry and appends the new one at the most-recent end, so the key's
/// recency is refreshed and the length does not grow. A fresh key is appended;
/// when the cache is already full, the least recently written entry - the one
/// at the front - is evicted first.
pub open spec fn model_insert(m: CacheModel, e: EntrySnap) -> CacheModel {
    if m.cap == 0 {
        m
    } else if model_has_key(m, e.key) {
        CacheModel { cap: m.cap, entries: m.entries.remove(model_index_of(m, e.key)).push(e) }
    } else if m.entries.len() < m.cap {
        CacheModel { cap: m.cap, entries: m.entries.push(e) }
    } else {
        CacheModel { cap: m.cap, entries: m.entries.subrange(1, m.entries.len() as int).push(e) }
    }
}

pub open spec fn model_clear(m: CacheModel) -> CacheModel {
    CacheModel { cap: m.cap, entries: Seq::empty() }
}

/// A bounded least-recently-used cache from render keys to rendered content
/// with its fingerprint.
pub struct RenderCache {
    capacity: usize,
    entries: Vec<CacheEntry>,
}

impl RenderCache {
    pub closed spec fn model(self) -> CacheModel {
        CacheModel {
            cap: self.capacity as nat,
            entries: self.entries@.map_values(|e: CacheEntry| e.snap()),
        }
    }

    pub open spec fn wf(self) -> bool {
        model_wf(self.model())
    }

    pub open spec fn spec_len(self) -> nat {
        self.model().entries.len()
    }

    /// Create an empty cache whose capacity is fixed for its whole lifetime.
    pub fn with_capacity(capacity: usize) -> (r: RenderCache)
        ensures
            r.wf(),
            r.model().cap == capacity,
            r.model().entries == Seq::<EntrySnap>::empty(),
    {
        let r = RenderCache { capacity, entries: Vec::new() };
        proof {
            assert(r.model().entries =~= Seq::<EntrySnap>::empty());
        }
        r
    }

    /// How many entries the cache currently holds.
    pub fn size(&self) -> (r: usize)
        ensures
            r == self.spec_len(),
    {
        self.entries.len()
    }

    /// The position of `key` among the entries, if it is present.
    fn find(&self, key: &str) -> (r: Option<usize>)
        requires
            self.wf(),
        ensures
            match r {
                Some(i) => {
                    &&& i < self.model().entries.len()
                    &&& model_has_key(self.model(), key@)
                    &&& model_index_of(self.model(), key@) == i as int
                },
                None => !model_has_key(self.model(), key@),
            },
    {
        let key_owned: String = key.to_owned();
        let n = self.entries.len();
        let mut i: usize = 0;
        while i < n
            invariant
                self.wf(),
                n == self.entries@.len(),
                i <= n,
                key_owned@ == key@,
                forall|j: int| 0 <= j < i ==> #[trigger] self.model().entries[j].key != key@,
            decreases n - i,
        {
            if self.entries[i].key == key_owned {
                proof {
                    let m = self.model();
                    assert(m.entries[i as int].key == key@);
                    let w = model_index_of(m, key@);
                    assert(0 <= w < m.entries.len() && m.entries[w].key == key@);
                    if w != i as int {
                        assert(m.entries[w].key != m.entries[i as int].key);
                    }
                }
                return Some(i);
            }
            i = i + 1;
        }
        proof {
            assert(forall|j: int|
                0 <= j < self.model().entries.len() ==> #[trigger] self.model().entries[j].key
                    != key@);
        }
        None
    }

    /// Existence check; never promotes recency.
    pub fn contains_key(&self, key: &str) -> (r: bool)
        requires
            self.wf(),
        ensures
            r == model_has_key(self.model(), key@),
    {
        match self.find(key) {
            Some(_) => true,
            None => false,
        }
    }

    /// Read the entry stored under `key`; never promotes recency.
    pub fn get(&self, key: &str) -> (r: Option<(String, Fingerprint)>)
        requires
            self.wf(),
        ensures
            match r {
                Some(p) => {
                    &&& model_lookup(self.model(), key@) matches Some(e)
                    &&& p.0@ == model_lookup(self.model(), key@)->0.content
                    &&& p.1.weak == model_lookup(self.model(), key@)->0.etag_weak
                    &&& p.1.tag@ == model_lookup(self.model(), key@)->0.etag_tag
                },
                None => model_lookup(self.model(), key@) is None,
            },
    {
        match self.find(key) {
            Some(i) => {
                let e = &self.entries[i];
                Some((e.content.clone(), e.etag.clone()))
            },
            None => None,
        }
    }

    /// Insert or replace the entry under `key`, returning the previous value
    /// if one existed.
    pub fn insert(&mut self, key: String, content: String, etag: Fingerprint) -> (r: Option<
        (String, Fingerprint),
    >)
        requires
            old(self).wf(),
        ensures
            final(self).wf(),
            final(self).model() == model_insert(
                old(self).model(),
                EntrySnap { key: key@, content: content@, etag_weak: etag.weak, etag_tag: etag.tag@ },
            ),
            old(self).model().cap == 0 ==> r is None,
            old(self).model().cap > 0 ==> match r {
                Some(p) => {
                    &&& model_lookup(old(self).model(), key@) matches Some(e)
                    &&& p.0@ == model_lookup(old(self).model(), key@)->0.content
                    &&& p.1.weak == model_lookup(old(self).model(), key@)->0.etag_weak
                    &&& p.1.tag@ == model_lookup(old(self).model(), key@)->0.etag_tag
                },
                None => !model_has_key(old(self).model(), key@),
            },
    {
        let ghost snap = EntrySnap {
            key: key@,
            content: content@,
            etag_weak: etag.weak,
            etag_tag: etag.tag@,
        };
        let ghost m0 = self.model();
        if self.capacity == 0 {
            return None;
        }
        match self.find(key.as_str()) {
            Some(i) => {
                let previous = self.entries.remove(i);
                self.entries.push(CacheEntry { key, content, etag });
                proof {
                    assert(self.model().entries =~= m0.entries.remove(i as int).push(snap));
                    lemma_insert_bounded(m0, snap);
                    assert(self.model() == model_insert(m0, snap));
                }
                Some((previous.content, previous.etag))
            },
            None => {
                if self.entries.len() == self.capacity {
                    let _evicted = self.entries.remove(0);
                }
                self.entries.push(CacheEntry { key, content, etag });
                proof {
                    if m0.entries.len() == m0.cap {
                        assert(self.model().entries =~= m0.entries.subrange(
                            1,
                            m0.entries.len() as int,
                        ).push(snap));
                    } else {
                        assert(self.model().entries =~= m0.entries.push(snap));
                    }
                    lemma_insert_bounded(m0, snap);
                    assert(self.model() == model_insert(m0, snap));
                }
                None
            },
        }
    }

    /// Remove every entry; the capacity stays as it was.
    pub fn clear(&mut self)
        ensures
            final(self).wf(),
            final(self).model() == model_clear(old(self).model()),
    {
        self.entries.clear();
        proof {
            assert(self.model().entries =~= Seq::<EntrySnap>::empty());
            assert(self.model() == model_clear(old(self).model()));
        }
    }
}

/// Cache capacity invariant: an insert keeps the cache well formed, and the
/// entry count never exceeds the capacity.
pub proof fn lemma_insert_bounded(m: CacheModel, e: EntrySnap)
    requires
        model_wf(m),
    ensures
        model_wf(model_insert(m, e)),
        model_insert(m, e).entries.len() <= m.cap,
{
    let m2 = model_insert(m, e);
    if m.cap == 0 {
    } else if model_has_key(m, e.key) {
        let i = model_index_of(m, e.key);
        let removed = m.entries.remove(i);
        assert forall|p: int, q: int| 0 <= p < q < m2.entries.len() implies (
        #[trigger] m2.entries[p]).key != (#[trigger] m2.entries[q]).key by {
            if q < removed.len() {
                let pp = if p < i {
                    p
                } else {
                    p + 1
                };
                let qq = if q < i {
                    q
                } else {
                    q + 1
                };
                assert(m.entries[pp].key != m.entries[qq].key);
            } else {
                // q is the new entry; no remaining entry carries e.key
                let pp = if p < i {
                    p
                } else {
                    p + 1
                };
                if m.entries[pp].key == e.key {
                    assert(m.entries[pp].key != m.entries[i].key);
                }
            }
        }
    } else if m.entries.len() < m.cap {
        assert forall|p: int, q: int| 0 <= p < q < m2.entries.len() implies (
        #[trigger] m2.entries[p]).key != (#[trigger] m2.entries[q]).key by {
            if q < m.entries.len() {
            } else {
                assert(!(m.entries[p].key == e.key)) by {
                    if m.entries[p].key == e.key {
                        assert(model_has_key(m, e.key));
                    }
                }
            }
        }
    } else {
        let tail = m.entries.subrange(1, m.entries.len() as int);
        assert forall|p: int, q: int| 0 <= p < q < m2.entries.len() implies (
        #[trigger] m2.entries[p]).key != (#[trigger] m2.entries[q]).key by {
            if q < tail.len() {
                assert(m.entries[p + 1].key != m.entries[q + 1].key);
            } else {
                assert(!(m.entries[p + 1].key == e.key)) by {
                    if m.entries[p + 1].key == e.key {
                        assert(model_has_key(m, e.key));
                    }
                }
            }
        }
    }
}

/// Eviction order: inserting a fresh key into a full cache evicts exactly the
/// least recently written key - the front entry - and keeps every other key.
pub proof fn lemma_insert_evicts_lru(m: CacheModel, e: EntrySnap)
    requires
        model_wf(m),
        m.cap > 0,
        m.entries.len() == m.cap,
        !model_has_key(m, e.key),
    ensures
        model_insert(m, e).entries.len() == m.cap,
        !model_has_key(model_insert(m, e), m.entries[0].key),
        model_has_key(model_insert(m, e), e.key),
        forall|k: Seq<char>|
            model_has_key(m, k) && k != m.entries[0].key ==> #[trigger] model_has_key(
                model_insert(m, e),
                k,
            ),
{
    let m2 = model_insert(m, e);
    let tail = m.entries.subrange(1, m.entries.len() as int);
    assert(m2.entries =~= tail.push(e));
    // the front key is gone: it occurs nowhere in the tail, and it is not e.key
    assert(m.entries[0].key != e.key) by {
        if m.entries[0].key == e.key {
            assert(model_has_key(m, e.key));
        }
    }
    assert forall|i: int| 0 <= i < m2.entries.len() implies (#[trigger] m2.entries[i]).key
        != m.entries[0].key by {
        if i < tail.len() {
            assert(m.entries[0].key != m.entries[i + 1].key);
        }
    }
    assert(m2.entries[m2.entries.len() - 1].key == e.key);
    // every other key survives
    assert forall|k: Seq<char>| model_has_key(m, k) && k != m.entries[0].key implies
        #[trigger] model_has_key(m2, k) by {
        let i = choose|i: int| 0 <= i < m.entries.len() && #[trigger] m.entries[i].key == k;
        assert(i != 0);
        assert(m2.entries[i - 1].key == k);
    }
}

/// Cache idempotence: re-inserting the entry that is already the most recent
/// one changes nothing, so the size does not grow and the key still maps to
/// the same value.
pub proof fn lemma_insert_idempotent(m: CacheModel, e: EntrySnap)
    requires
        model_wf(m),
        m.cap > 0,
    ensures
        model_insert(model_insert(m, e), e).entries =~= model_insert(m, e).entries,
        model_insert(model_insert(m, e), e).entries.len() == model_insert(m, e).entries.len(),
        model_lookup(model_insert(m, e), e.key) == Some(e),
{
    let m1 = model_insert(m, e);
    lemma_insert_bounded(m, e);
    let last = m1.entries.len() - 1;
    assert(m1.entries[last] == e);
    assert(model_has_key(m1, e.key));
    // under well-formedness the chosen index is the last one
    let w = model_index_of(m1, e.key);
    assert(0 <= w < m1.entries.len() && m1.entries[w].key == e.key);
    if w != last {
        assert(m1.entries[w].key != m1.entries[last].key);
    }
    assert(model_lookup(m1, e.key) == Some(e));
    let m2 = model_insert(m1, e);
    assert(m2.entries =~= m1.entries.remove(last).push(e));
    assert(m2.entries =~= m1.entries);
}

/// Capacity zero disables caching: a well-formed cache with capacity zero
/// holds nothing, and an insert leaves it unchanged.
pub proof fn lemma_capacity_zero_no_op(m: CacheModel, e: EntrySnap)
    requires
        model_wf(m),
        m.cap == 0,
    ensures
        model_insert(m, e) == m,
        m.entries.len() == 0,
        forall|k: Seq<char>| !model_has_key(m, k),
{
}

} // verus!
