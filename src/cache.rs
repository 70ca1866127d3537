use vstd::prelude::*;

verus! {

#[verifier::external_type_specification]
#[verifier::external_body]
#[verifier::reject_recursive_types(K)]
#[verifier::reject_recursive_types(V)]
#[verifier::reject_recursive_types(S)]
pub struct ExLruCache<K, V, S>(lru::LruCache<K, V, S>);

#[verifier::external_type_specification]
#[verifier::external_body]
pub struct ExLruHasher(lru::DefaultHasher);

/// What an LRU cache of encoded images holds: its entries from the most
/// recently used to the least.
pub uninterp spec fn lru_entries(c: lru::LruCache<u64, Vec<u8>>) -> Seq<(u64, Seq<u8>)>;

/// The capacity an LRU cache was made with.
pub uninterp spec fn lru_capacity(c: lru::LruCache<u64, Vec<u8>>) -> nat;

/// Position of `k` among the entries, or -1.
pub open spec fn find_from(e: Seq<(u64, Seq<u8>)>, k: u64, i: int) -> int
    decreases e.len() - i,
{
    if i < 0 || i >= e.len() {
        -1
    } else if e[i].0 == k {
        i
    } else {
        find_from(e, k, i + 1)
    }
}

pub open spec fn find_key(e: Seq<(u64, Seq<u8>)>, k: u64) -> int {
    find_from(e, k, 0)
}

/// Entries after a lookup of `k`: a found entry becomes the most recent.
pub open spec fn after_get(e: Seq<(u64, Seq<u8>)>, k: u64) -> Seq<(u64, Seq<u8>)> {
    let i = find_key(e, k);
    if i >= 0 {
        seq![e[i]] + e.remove(i)
    } else {
        e
    }
}

/// Entries after storing `v` under `k`: an entry of `k` is replaced; else,
/// when the cache is full, the least recently used entry is evicted. The
/// stored entry becomes the most recent.
pub open spec fn after_put(e: Seq<(u64, Seq<u8>)>, cap: nat, k: u64, v: Seq<u8>) -> Seq<(u64, Seq<u8>)> {
    let i = find_key(e, k);
    if i >= 0 {
        seq![(k, v)] + e.remove(i)
    } else if e.len() >= cap {
        seq![(k, v)] + e.drop_last()
    } else {
        seq![(k, v)] + e
    }
}

/// Relies on `lru::LruCache::new`: an empty cache that holds at most `cap` entries.
#[verifier::external_body]
fn lru_new(cap: usize) -> (c: lru::LruCache<u64, Vec<u8>>)
    requires
        cap > 0,
    ensures
        lru_entries(c) == Seq::<(u64, Seq<u8>)>::empty(),
        lru_capacity(c) == cap,
{
    lru::LruCache::new(std::num::NonZeroUsize::new(cap).unwrap())
}

/// Relies on `lru::LruCache::get`: the value of `k`, if present, which then
/// becomes the most recently used entry. Looking up a `u64` key does not panic.
#[verifier::external_body]
fn lru_get(c: &mut lru::LruCache<u64, Vec<u8>>, k: u64) -> (r: Option<Vec<u8>>)
    ensures
        lru_capacity(*final(c)) == lru_capacity(*old(c)),
        lru_entries(*final(c)) == after_get(lru_entries(*old(c)), k),
        find_key(lru_entries(*old(c)), k) >= 0 ==> r is Some && r->0@ == lru_entries(*old(c))[find_key(lru_entries(*old(c)), k)].1,
        find_key(lru_entries(*old(c)), k) < 0 ==> r is None,
    no_unwind
{
    c.get(&k).cloned()
}

/// Relies on `lru::LruCache::put`: stores `v` under `k` as the most recently
/// used entry, replacing an entry of `k`, or else evicting the least
/// recently used one when the cache is full. Storing under a `u64` key
/// does not panic.
#[verifier::external_body]
fn lru_put(c: &mut lru::LruCache<u64, Vec<u8>>, k: u64, v: Vec<u8>)
    ensures
        lru_capacity(*final(c)) == lru_capacity(*old(c)),
        lru_entries(*final(c)) == after_put(lru_entries(*old(c)), lru_capacity(*old(c)), k, v@),
    no_unwind
{
    c.put(k, v);
}

proof fn lemma_find(e: Seq<(u64, Seq<u8>)>, k: u64, i: int)
    requires
        0 <= i <= e.len(),
    ensures
        find_from(e, k, i) == -1 || (i <= find_from(e, k, i) < e.len() && e[find_from(e, k, i)].0 == k),
        find_from(e, k, i) == -1 ==> forall|j: int| i <= j < e.len() ==> #[trigger] e[j].0 != k,
    decreases e.len() - i,
{
    if i < e.len() && e[i].0 != k {
        lemma_find(e, k, i + 1);
    }
}

proof fn lemma_after_get_unique(e: Seq<(u64, Seq<u8>)>, k: u64)
    requires
        keys_unique(e),
    ensures
        keys_unique(after_get(e, k)),
        after_get(e, k).len() == e.len(),
{
    lemma_find(e, k, 0);
    let i = find_key(e, k);
    if i >= 0 {
        let r = e.remove(i);
        let a = seq![e[i]] + r;
        assert forall|p: int, q: int| 0 <= p < q < a.len() implies #[trigger] a[p].0 != #[trigger] a[q].0 by {
            let oq = if q - 1 < i { q - 1 } else { q };
            assert(a[q] == e[oq]);
            if p == 0 {
                assert(oq != i);
            } else {
                let op = if p - 1 < i { p - 1 } else { p };
                assert(a[p] == e[op]);
                assert(op < oq);
            }
        }
    }
}

proof fn lemma_after_put_unique(e: Seq<(u64, Seq<u8>)>, cap: nat, k: u64, v: Seq<u8>)
    requires
        keys_unique(e),
        e.len() <= cap,
        cap > 0,
    ensures
        keys_unique(after_put(e, cap, k, v)),
        after_put(e, cap, k, v).len() <= cap,
{
    lemma_find(e, k, 0);
    let i = find_key(e, k);
    let a = after_put(e, cap, k, v);
    if i >= 0 {
        let r = e.remove(i);
        assert forall|p: int, q: int| 0 <= p < q < a.len() implies #[trigger] a[p].0 != #[trigger] a[q].0 by {
            let oq = if q - 1 < i { q - 1 } else { q };
            assert(a[q] == e[oq]);
            if p == 0 {
                assert(oq != i);
            } else {
                let op = if p - 1 < i { p - 1 } else { p };
                assert(a[p] == e[op]);
            }
        }
    } else {
        assert forall|p: int, q: int| 0 <= p < q < a.len() implies #[trigger] a[p].0 != #[trigger] a[q].0 by {
            assert(a[q] == e[q - 1]);
            if p > 0 {
                assert(a[p] == e[p - 1]);
            }
        }
    }
}

/// After `get_or_render` the key is the most recent entry, holding what was
/// returned; a second call with the same key is then a hit that returns the
/// same bytes, does not render, and leaves the entries as they are.
pub proof fn lemma_second_call_hits(e: Seq<(u64, Seq<u8>)>, cap: nat, key: u64, r1: Seq<u8>)
    requires
        keys_unique(e),
        e.len() <= cap,
        cap > 0,
        find_key(e, key) >= 0 ==> r1 == e[find_key(e, key)].1,
    ensures
        find_key(after_put(e, cap, key, r1), key) == 0,
        after_put(e, cap, key, r1)[0].1 == r1,
        after_put(after_put(e, cap, key, r1), cap, key, r1) == after_put(e, cap, key, r1),
{
    lemma_after_put_unique(e, cap, key, r1);
    let e1 = after_put(e, cap, key, r1);
    assert(e1[0] == (key, r1));
    assert(find_key(e1, key) == 0);
    assert(e1.remove(0) =~= e1.subrange(1, e1.len() as int));
    assert(seq![(key, r1)] + e1.remove(0) =~= e1);
}

/// Storing a new key in a full cache evicts exactly the least recently used
/// entry: every other entry stays, in order, behind the new one.
pub proof fn lemma_full_cache_evicts_lru(e: Seq<(u64, Seq<u8>)>, cap: nat, key: u64, v: Seq<u8>)
    requires
        keys_unique(e),
        e.len() == cap,
        cap > 0,
        find_key(e, key) < 0,
    ensures
        after_put(e, cap, key, v) == seq![(key, v)] + e.drop_last(),
        after_put(e, cap, key, v).len() == cap,
        forall|j: int| 0 <= j < cap - 1 ==> after_put(e, cap, key, v)[j + 1] == #[trigger] e[j],
        forall|j: int| 0 <= j < cap ==> #[trigger] after_put(e, cap, key, v)[j].0 != e.last().0,
{
    lemma_find(e, key, 0);
    let a = after_put(e, cap, key, v);
    assert forall|j: int| 0 <= j < cap implies #[trigger] a[j].0 != e.last().0 by {
        if j > 0 {
            assert(a[j] == e[j - 1]);
        }
    }
}

pub open spec fn keys_unique(e: Seq<(u64, Seq<u8>)>) -> bool {
    forall|i: int, j: int| 0 <= i < j < e.len() ==> #[trigger] e[i].0 != #[trigger] e[j].0
}

/// Capacity of the cache of rendered Open-Graph images.
pub const OG_CACHE_CAPACITY: usize = 100;

/// A bounded cache of encoded images keyed by a 64-bit hash, which evicts
/// the least recently used entry when full.
pub struct RenderCache {
    inner: lru::LruCache<u64, Vec<u8>>,
}

impl RenderCache {
    /// The entries, most recently used first.
    pub closed spec fn entries(&self) -> Seq<(u64, Seq<u8>)> {
        lru_entries(self.inner)
    }

    pub closed spec fn capacity(&self) -> nat {
        lru_capacity(self.inner)
    }

    /// Every cache has room for an entry, holds no more than its capacity,
    /// and holds each key once.
    pub open spec fn wf(&self) -> bool {
        &&& self.capacity() > 0
        &&& self.entries().len() <= self.capacity()
        &&& keys_unique(self.entries())
    }

    #[verifier::type_invariant]
    closed spec fn inv(self) -> bool {
        self.wf()
    }

    /// An empty cache for at most `cap` images.
    pub fn new(cap: usize) -> (c: RenderCache)
        requires
            cap > 0,
        ensures
            c.wf(),
            c.entries() == Seq::<(u64, Seq<u8>)>::empty(),
            c.capacity() == cap,
    {
        RenderCache { inner: lru_new(cap) }
    }

    /// Looks `key` up; a hit becomes the most recently used entry.
    pub fn get(&mut self, key: u64) -> (r: Option<Vec<u8>>)
        ensures
            final(self).wf(),
            final(self).capacity() == old(self).capacity(),
            final(self).entries() == after_get(old(self).entries(), key),
            r is Some <==> find_key(old(self).entries(), key) >= 0,
            r is Some ==> r->0@ == old(self).entries()[find_key(old(self).entries(), key)].1,
    {
        proof {
            use_type_invariant(&*self);
            lemma_find(old(self).entries(), key, 0);
            lemma_after_get_unique(old(self).entries(), key);
        }
        lru_get(&mut self.inner, key)
    }

    /// Stores `bytes` under `key` as the most recently used entry.
    pub fn put(&mut self, key: u64, bytes: Vec<u8>)
        ensures
            final(self).wf(),
            final(self).capacity() == old(self).capacity(),
            final(self).entries() == after_put(old(self).entries(), old(self).capacity(), key, bytes@),
    {
        proof {
            use_type_invariant(&*self);
            lemma_find(old(self).entries(), key, 0);
            lemma_after_put_unique(old(self).entries(), old(self).capacity(), key, bytes@);
        }
        lru_put(&mut self.inner, key, bytes);
    }

    /// The image cached under `key`; on a miss, `render` makes it and it is
    /// stored. The cache is only consulted and updated around the render.
    pub fn get_or_render<F: FnOnce() -> Vec<u8>>(&mut self, key: u64, render: F) -> (r: Vec<u8>)
        requires
            render.requires(()),
        ensures
            final(self).wf(),
            final(self).capacity() == old(self).capacity(),
            find_key(old(self).entries(), key) >= 0 ==> r@ == old(self).entries()[find_key(old(self).entries(), key)].1,
            find_key(old(self).entries(), key) < 0 ==> render.ensures((), r),
            final(self).entries() == after_put(old(self).entries(), old(self).capacity(), key, r@),
    {
        proof {
            use_type_invariant(&*self);
            lemma_find(old(self).entries(), key, 0);
        }
        match self.get(key) {
            Some(bytes) => bytes,
            None => {
                let bytes = render();
                let stored = bytes.clone();
                self.put(key, stored);
                bytes
            },
        }
    }
}

} // verus!
