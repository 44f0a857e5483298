//! Prepared statements and the bounded statement cache.
//!
//! Preparing a statement costs an engine round trip, so prepared
//! handles are memoized by their SQL text in a least-recently-used
//! cache of bounded capacity. The cache is the single owner of the
//! handles it stores: whatever leaves it — by eviction, shrinking or
//! clearing — is handed back to the caller exactly once, so the
//! engine-side resources can be released exactly once.

use std::num::NonZeroUsize;
use lru::LruCache;
use vstd::prelude::*;

use crate::error::Error;

verus! {

/// A prepared statement, standing for the engine's opaque handle by
/// its identifier. The engine-facing half (binding parameters,
/// executing) lives outside this crate.
#[derive(Debug, Clone, Copy, PartialEq, Eq, Structural)]
pub struct Statement {
    handle: u64,
}

impl Statement {
    /// The engine-assigned identifier this statement stands for.
    pub closed spec fn id(&self) -> u64 {
        self.handle
    }

    /// Wraps the identifier of a freshly prepared statement.
    pub fn new(handle: u64) -> (s: Statement)
        ensures
            s.id() == handle,
    {
        Statement { handle }
    }

    /// The engine-assigned identifier.
    pub fn handle(&self) -> (h: u64)
        ensures
            h == self.id(),
    {
        self.handle
    }
}

/// One cached entry: the SQL text's characters and the handle.
pub type CacheEntry = (Seq<char>, u64);

/// Whether some entry bears the key `k`.
pub open spec fn has_key(s: Seq<CacheEntry>, k: Seq<char>) -> bool {
    exists|i: int| 0 <= i < s.len() && (#[trigger] s[i]).0 == k
}

/// No two entries bear the same key.
pub open spec fn keys_unique(s: Seq<CacheEntry>) -> bool {
    forall|i: int, j: int|
        #![trigger s[i], s[j]]
        0 <= i < j < s.len() ==> s[i].0 != s[j].0
}

/// The entry at `i` moved to the front, everything else keeping its
/// order: the recency refresh of one access.
pub open spec fn promote(s: Seq<CacheEntry>, i: int) -> Seq<CacheEntry>
    recommends
        0 <= i < s.len(),
{
    seq![s[i]] + s.subrange(0, i) + s.subrange(i + 1, s.len() as int)
}

/// How `promote` rearranges a sequence: the chosen entry comes first
/// and every other entry keeps its relative place; length, key
/// uniqueness and key membership are all preserved.
pub proof fn lemma_promote(s: Seq<CacheEntry>, i: int)
    requires
        0 <= i < s.len(),
    ensures
        promote(s, i).len() == s.len(),
        promote(s, i)[0] == s[i],
        forall|j: int| 1 <= j <= i ==> #[trigger] promote(s, i)[j] == s[j - 1],
        forall|j: int| i < j < s.len() ==> #[trigger] promote(s, i)[j] == s[j],
        keys_unique(s) ==> keys_unique(promote(s, i)),
        forall|k: Seq<char>| has_key(promote(s, i), k) <==> has_key(s, k),
{
    let p = promote(s, i);
    assert(p.len() == s.len());
    assert forall|k: Seq<char>| has_key(p, k) implies has_key(s, k) by {
        let j = choose|j: int| 0 <= j < p.len() && (#[trigger] p[j]).0 == k;
        if j == 0 {
            assert(s[i].0 == k);
        } else if j <= i {
            assert(s[j - 1].0 == k);
        } else {
            assert(s[j].0 == k);
        }
    }
    assert forall|k: Seq<char>| has_key(s, k) implies has_key(p, k) by {
        let j = choose|j: int| 0 <= j < s.len() && (#[trigger] s[j]).0 == k;
        if j == i {
            assert(p[0].0 == k);
        } else if j < i {
            assert(p[j + 1].0 == k);
        } else {
            assert(p[j].0 == k);
        }
    }
    if keys_unique(s) {
        assert forall|a: int, b: int| 0 <= a < b < p.len() implies p[a].0 != p[b].0 by {
            if a == 0 {
                if b <= i {
                    assert(p[a] == s[i] && p[b] == s[b - 1]);
                } else {
                    assert(p[a] == s[i] && p[b] == s[b]);
                }
            } else if a <= i {
                if b <= i {
                    assert(p[a] == s[a - 1] && p[b] == s[b - 1]);
                } else {
                    assert(p[a] == s[a - 1] && p[b] == s[b]);
                }
            } else {
                assert(p[a] == s[a] && p[b] == s[b]);
            }
        }
    }
}

/// The statement cache's collection: an LRU map from SQL text to
/// handle, provided by the `lru` crate.
#[verifier::external_type_specification]
#[verifier::external_body]
#[verifier::reject_recursive_types(K)]
#[verifier::reject_recursive_types(V)]
#[verifier::reject_recursive_types(S)]
pub struct ExLruCache<K, V, S>(LruCache<K, V, S>);

/// The hasher the `lru` crate builds its caches with.
#[verifier::external_type_specification]
#[verifier::external_body]
pub struct ExLruDefaultHasher(lru::DefaultHasher);

/// What the LRU cache holds: its (key, value) entries, the most
/// recently used first.
pub uninterp spec fn lru_entries(c: LruCache<String, u64>) -> Seq<CacheEntry>;

/// The bound the LRU cache was created with.
pub uninterp spec fn lru_capacity(c: LruCache<String, u64>) -> usize;

/// Relies on `LruCache::new`: a fresh cache is empty and will hold at
/// most `cap` entries.
#[verifier::external_body]
fn lru_new(cap: usize) -> (c: LruCache<String, u64>)
    requires
        1 <= cap,
    ensures
        lru_entries(c) == Seq::<CacheEntry>::empty(),
        lru_capacity(c) == cap,
{
    LruCache::new(NonZeroUsize::new(cap).unwrap())
}

/// Relies on `LruCache::len`: the number of entries.
#[verifier::external_body]
fn lru_len(c: &LruCache<String, u64>) -> (n: usize)
    ensures
        n == lru_entries(*c).len(),
{
    c.len()
}

/// Relies on `LruCache::cap`: the configured bound.
#[verifier::external_body]
fn lru_cap(c: &LruCache<String, u64>) -> (n: usize)
    ensures
        n == lru_capacity(*c),
{
    c.cap().get()
}

/// Relies on `LruCache::get`: a hit returns the key's value and marks
/// the entry most recently used; a miss changes nothing.
#[verifier::external_body]
fn lru_get(c: &mut LruCache<String, u64>, key: &str) -> (r: Option<u64>)
    ensures
        lru_capacity(*final(c)) == lru_capacity(*old(c)),
        match r {
            Some(v) => exists|i: int|
                {
                    &&& 0 <= i < lru_entries(*old(c)).len()
                    &&& (#[trigger] lru_entries(*old(c))[i]) == (key@, v)
                    &&& lru_entries(*final(c)) == promote(lru_entries(*old(c)), i)
                },
            None => lru_entries(*final(c)) == lru_entries(*old(c)) && !has_key(
                lru_entries(*old(c)),
                key@,
            ),
        },
{
    c.get(key).copied()
}

/// Relies on `LruCache::push`: a fresh key goes in as the most
/// recently used entry, evicting and returning the least recently used
/// one when the cache is full; pushing a key already present replaces
/// its value, marks the entry most recently used, and returns the key
/// with its old value.
#[verifier::external_body]
fn lru_push(c: &mut LruCache<String, u64>, key: String, v: u64) -> (r: Option<(String, u64)>)
    ensures
        lru_capacity(*final(c)) == lru_capacity(*old(c)),
        has_key(lru_entries(*old(c)), key@) ==> exists|i: int|
            {
                &&& 0 <= i < lru_entries(*old(c)).len()
                &&& (#[trigger] lru_entries(*old(c))[i]).0 == key@
                &&& r matches Some(p) && p.0@ == key@ && p.1 == lru_entries(*old(c))[i].1
                &&& lru_entries(*final(c)) == promote(lru_entries(*old(c)), i).update(
                    0,
                    (key@, v),
                )
            },
        !has_key(lru_entries(*old(c)), key@) && lru_entries(*old(c)).len() < lru_capacity(
            *old(c),
        ) ==> {
            &&& r is None
            &&& lru_entries(*final(c)) == seq![(key@, v)] + lru_entries(*old(c))
        },
        !has_key(lru_entries(*old(c)), key@) && lru_entries(*old(c)).len() >= lru_capacity(
            *old(c),
        ) ==> {
            &&& r matches Some(p) && p.0@ == lru_entries(*old(c)).last().0 && p.1 == lru_entries(
                *old(c),
            ).last().1
            &&& lru_entries(*final(c)) == seq![(key@, v)] + lru_entries(*old(c)).drop_last()
        },
{
    c.push(key, v)
}

/// Relies on `LruCache::pop_lru`: removes and returns the least
/// recently used entry, or `None` on an empty cache.
#[verifier::external_body]
fn lru_pop_lru(c: &mut LruCache<String, u64>) -> (r: Option<(String, u64)>)
    ensures
        lru_capacity(*final(c)) == lru_capacity(*old(c)),
        lru_entries(*old(c)).len() == 0 ==> r is None && lru_entries(*final(c)) == lru_entries(
            *old(c),
        ),
        lru_entries(*old(c)).len() > 0 ==> {
            &&& r matches Some(p) && p.0@ == lru_entries(*old(c)).last().0 && p.1 == lru_entries(
                *old(c),
            ).last().1
            &&& lru_entries(*final(c)) == lru_entries(*old(c)).drop_last()
        },
{
    c.pop_lru()
}

/// Relies on `LruCache::resize`: when no more entries are held than
/// the new capacity, it only changes the bound and discards nothing.
#[verifier::external_body]
fn lru_resize(c: &mut LruCache<String, u64>, cap: usize)
    requires
        1 <= cap,
        lru_entries(*old(c)).len() <= cap,
    ensures
        lru_entries(*final(c)) == lru_entries(*old(c)),
        lru_capacity(*final(c)) == cap,
{
    c.resize(NonZeroUsize::new(cap).unwrap())
}

/// A bounded key-to-handle cache with least-recently-used eviction,
/// keyed by SQL text.
///
/// A hit refreshes the entry's recency; a miss is followed by the
/// caller preparing the statement and inserting it. The cache never
/// holds two entries for one text nor more entries than its capacity,
/// and every handle that leaves it is returned to the caller for
/// release.
#[derive(Debug)]
pub struct StatementCache {
    inner: LruCache<String, u64>,
}

impl StatementCache {
    /// The cached entries, the most recently used first.
    pub closed spec fn entries(&self) -> Seq<CacheEntry> {
        lru_entries(self.inner)
    }

    /// The configured bound.
    pub closed spec fn capacity(&self) -> usize {
        lru_capacity(self.inner)
    }

    /// At most one entry per SQL text, never more entries than the
    /// capacity, and a capacity of at least one.
    pub open spec fn wf(&self) -> bool {
        &&& keys_unique(self.entries())
        &&& self.entries().len() <= self.capacity()
        &&& 1 <= self.capacity()
    }

    /// An empty cache holding at most `capacity` statements.
    pub fn new(capacity: usize) -> (c: StatementCache)
        requires
            1 <= capacity,
        ensures
            c.wf(),
            c.entries() == Seq::<CacheEntry>::empty(),
            c.capacity() == capacity,
    {
        StatementCache { inner: lru_new(capacity) }
    }

    /// How many statements are cached.
    pub fn len(&self) -> (n: usize)
        ensures
            n == self.entries().len(),
    {
        lru_len(&self.inner)
    }

    /// The configured bound.
    pub fn cap(&self) -> (n: usize)
        ensures
            n == self.capacity(),
    {
        lru_cap(&self.inner)
    }

    /// Looks a SQL text up. A hit returns the cached handle and
    /// refreshes the entry's recency; a miss returns `None` and
    /// changes nothing.
    pub fn get(&mut self, sql: &str) -> (r: Option<Statement>)
        requires
            old(self).wf(),
        ensures
            final(self).wf(),
            final(self).capacity() == old(self).capacity(),
            r is Some <==> has_key(old(self).entries(), sql@),
            r is None ==> final(self).entries() == old(self).entries(),
            r matches Some(st) ==> exists|i: int|
                {
                    &&& 0 <= i < old(self).entries().len()
                    &&& (#[trigger] old(self).entries()[i]) == (sql@, st.id())
                    &&& final(self).entries() == promote(old(self).entries(), i)
                },
    {
        let r = lru_get(&mut self.inner, sql);
        match r {
            Some(h) => {
                proof {
                    let i = choose|i: int|
                        0 <= i < lru_entries(old(self).inner).len() && (#[trigger] lru_entries(
                            old(self).inner,
                        )[i]) == (sql@, h) && lru_entries(self.inner) == promote(
                            lru_entries(old(self).inner),
                            i,
                        );
                    lemma_promote(old(self).entries(), i);
                }
                Some(Statement::new(h))
            },
            None => None,
        }
    }

    /// Memoizes a prepared statement under its SQL text as the most
    /// recently used entry.
    ///
    /// On a fresh text, the entry goes in and, if the cache was full,
    /// the least recently used entry is evicted and its handle
    /// returned for release. On a text already cached, the stored
    /// handle is replaced, the entry's recency refreshed, and the old
    /// handle returned for release.
    pub fn insert(&mut self, sql: String, statement: Statement) -> (evicted: Option<Statement>)
        requires
            old(self).wf(),
        ensures
            final(self).wf(),
            final(self).capacity() == old(self).capacity(),
            has_key(final(self).entries(), sql@),
            has_key(old(self).entries(), sql@) ==> exists|i: int|
                {
                    &&& 0 <= i < old(self).entries().len()
                    &&& (#[trigger] old(self).entries()[i]).0 == sql@
                    &&& evicted matches Some(st) && st.id() == old(self).entries()[i].1
                    &&& final(self).entries() == promote(old(self).entries(), i).update(
                        0,
                        (sql@, statement.id()),
                    )
                },
            !has_key(old(self).entries(), sql@) && old(self).entries().len() < old(
                self,
            ).capacity() ==> {
                &&& evicted is None
                &&& final(self).entries() == seq![(sql@, statement.id())] + old(self).entries()
            },
            !has_key(old(self).entries(), sql@) && old(self).entries().len() >= old(
                self,
            ).capacity() ==> {
                &&& evicted matches Some(st) && st.id() == old(self).entries().last().1
                &&& final(self).entries() == seq![(sql@, statement.id())] + old(
                    self,
                ).entries().drop_last()
            },
    {
        let ghost s = old(self).entries();
        let ghost k = sql@;
        let ghost v = statement.id();
        let r = lru_push(&mut self.inner, sql, statement.handle());
        proof {
            if has_key(s, k) {
                let i = choose|i: int|
                    0 <= i < s.len() && (#[trigger] s[i]).0 == k && (r matches Some(p) && p.0@ == k
                        && p.1 == s[i].1) && lru_entries(self.inner) == promote(s, i).update(
                        0,
                        (k, v),
                    );
                lemma_promote(s, i);
                let p = promote(s, i);
                let u = p.update(0, (k, v));
                assert(p[0] == s[i]);
                assert(u[0].0 == k);
                assert(forall|j: int| 0 <= j < u.len() ==> (#[trigger] u[j]).0 == p[j].0);
                assert(keys_unique(u));
                assert(has_key(u, k));
            } else if s.len() < lru_capacity(old(self).inner) {
                let u = seq![(k, v)] + s;
                assert(u[0].0 == k);
                assert(forall|j: int| 1 <= j < u.len() ==> u[j] == s[j - 1]);
                assert(keys_unique(u));
                assert(has_key(u, k));
            } else {
                let d = s.drop_last();
                let u = seq![(k, v)] + d;
                assert(u[0].0 == k);
                assert(forall|j: int| 0 <= j < d.len() ==> d[j] == s[j]);
                assert(forall|j: int| 1 <= j < u.len() ==> u[j] == s[j - 1]);
                assert(keys_unique(u));
                assert(has_key(u, k));
            }
        }
        match r {
            Some(p) => Some(Statement::new(p.1)),
            None => None,
        }
    }

    /// Changes the capacity. A capacity of zero is rejected and
    /// nothing changes. Shrinking below the current number of entries
    /// evicts least recently used entries, oldest first, down to the
    /// new capacity; their handles are returned for release.
    pub fn resize(&mut self, new_capacity: usize) -> (r: Result<Vec<u64>, Error>)
        requires
            old(self).wf(),
        ensures
            final(self).wf(),
            new_capacity == 0 ==> r == Err::<Vec<u64>, Error>(Error::ZeroCapacity)
                && final(self).entries() == old(self).entries()
                && final(self).capacity() == old(self).capacity(),
            new_capacity >= 1 ==> final(self).capacity() == new_capacity && r is Ok,
            new_capacity >= 1 && old(self).entries().len() <= new_capacity ==> {
                &&& r matches Ok(evicted)
                &&& final(self).entries() == old(self).entries()
                &&& evicted@.len() == 0
            },
            new_capacity >= 1 && old(self).entries().len() > new_capacity ==> {
                &&& r matches Ok(evicted)
                &&& final(self).entries() == old(self).entries().take(new_capacity as int)
                &&& evicted@.len() == old(self).entries().len() - new_capacity
                &&& forall|idx: int|
                    0 <= idx < evicted@.len() ==> evicted@[idx] == old(self).entries()[old(
                        self,
                    ).entries().len() - 1 - idx].1
            },
    {
        if new_capacity == 0 {
            return Err(Error::ZeroCapacity);
        }
        let ghost orig = old(self).entries();
        let mut evicted: Vec<u64> = Vec::new();
        let mut n: usize = lru_len(&self.inner);
        proof {
            assert(orig.take(orig.len() as int) =~= orig);
        }
        while n > new_capacity
            invariant
                1 <= new_capacity,
                n == self.entries().len(),
                self.entries() == orig.take(n as int),
                n <= orig.len(),
                n >= new_capacity || n == orig.len(),
                orig.len() <= new_capacity ==> n == orig.len(),
                self.capacity() == old(self).capacity(),
                evicted@.len() == orig.len() - n,
                forall|idx: int|
                    0 <= idx < evicted@.len() ==> evicted@[idx] == orig[orig.len() - 1 - idx].1,
            decreases n,
        {
            let ghost before = self.entries();
            match lru_pop_lru(&mut self.inner) {
                Some(p) => {
                    evicted.push(p.1);
                    proof {
                        assert(before.last() == orig[n - 1]);
                        assert(before.drop_last() =~= orig.take(n as int - 1));
                    }
                    n = n - 1;
                },
                None => {
                    proof {
                        assert(false);
                    }
                },
            }
        }
        proof {
            assert(keys_unique(self.entries())) by {
                assert(forall|j: int|
                    0 <= j < self.entries().len() ==> #[trigger] self.entries()[j] == orig[j]);
            }
        }
        lru_resize(&mut self.inner, new_capacity);
        Ok(evicted)
    }

    /// Empties the cache, returning every cached handle, least
    /// recently used first, for release.
    pub fn clear(&mut self) -> (r: Vec<u64>)
        requires
            old(self).wf(),
        ensures
            final(self).wf(),
            final(self).capacity() == old(self).capacity(),
            final(self).entries() == Seq::<CacheEntry>::empty(),
            r@.len() == old(self).entries().len(),
            forall|idx: int|
                0 <= idx < r@.len() ==> r@[idx] == old(self).entries()[old(self).entries().len() - 1
                    - idx].1,
    {
        let ghost orig = old(self).entries();
        let mut evicted: Vec<u64> = Vec::new();
        let mut n: usize = lru_len(&self.inner);
        proof {
            assert(orig.take(orig.len() as int) =~= orig);
        }
        while n > 0
            invariant
                n == self.entries().len(),
                self.entries() == orig.take(n as int),
                n <= orig.len(),
                self.capacity() == old(self).capacity(),
                keys_unique(orig),
                orig.len() <= old(self).capacity(),
                1 <= old(self).capacity(),
                evicted@.len() == orig.len() - n,
                forall|idx: int|
                    0 <= idx < evicted@.len() ==> evicted@[idx] == orig[orig.len() - 1 - idx].1,
            decreases n,
        {
            let ghost before = self.entries();
            match lru_pop_lru(&mut self.inner) {
                Some(p) => {
                    evicted.push(p.1);
                    proof {
                        assert(before.last() == orig[n - 1]);
                        assert(before.drop_last() =~= orig.take(n as int - 1));
                    }
                    n = n - 1;
                },
                None => {
                    proof {
                        assert(false);
                    }
                },
            }
        }
        proof {
            assert(self.entries() =~= Seq::<CacheEntry>::empty());
        }
        evicted
    }
}

/// Inserting a fresh key into a full cache evicts exactly the least
/// recently used entry: the new key is cached, the last entry's key is
/// gone, and every other key is still cached.
pub proof fn lemma_full_insert_evicts_lru(s: Seq<CacheEntry>, k: Seq<char>, v: u64)
    requires
        keys_unique(s),
        !has_key(s, k),
        s.len() >= 1,
    ensures
        ({
            let after = seq![(k, v)] + s.drop_last();
            &&& after.len() == s.len()
            &&& has_key(after, k)
            &&& !has_key(after, s.last().0)
            &&& forall|i: int| 0 <= i < s.len() - 1 ==> has_key(after, (#[trigger] s[i]).0)
        }),
{
    let after = seq![(k, v)] + s.drop_last();
    assert(after[0].0 == k);
    assert(forall|j: int| 1 <= j < after.len() ==> #[trigger] after[j] == s[j - 1]);
    assert forall|i: int| 0 <= i < s.len() - 1 implies has_key(after, (#[trigger] s[i]).0) by {
        assert(after[i + 1] == s[i]);
    }
    assert(!has_key(after, s.last().0)) by {
        let last = s.last().0;
        assert(s[s.len() - 1].0 == last);
        if has_key(after, last) {
            let j = choose|j: int| 0 <= j < after.len() && (#[trigger] after[j]).0 == last;
            if j == 0 {
                assert(s[s.len() - 1].0 == k);
            } else {
                assert(s[j - 1].0 == last);
            }
        }
    }
}

/// Recency refresh: a key accessed immediately before a fresh key is
/// inserted into the full cache is protected from that eviction — it
/// is still cached afterwards.
pub proof fn lemma_recency_refresh(s: Seq<CacheEntry>, i: int, k2: Seq<char>, v2: u64)
    requires
        keys_unique(s),
        0 <= i < s.len(),
        s.len() >= 2,
        !has_key(s, k2),
    ensures
        has_key(seq![(k2, v2)] + promote(s, i).drop_last(), s[i].0),
{
    lemma_promote(s, i);
    let refreshed = promote(s, i);
    let after = seq![(k2, v2)] + refreshed.drop_last();
    assert(refreshed[0] == s[i]);
    assert(refreshed.drop_last()[0] == refreshed[0]);
    assert(after[1] == refreshed.drop_last()[0]);
    assert(after[1].0 == s[i].0);
    assert(has_key(after, s[i].0));
}

} // verus!

