//! Process-wide result cache: string keys mapped to serialized payloads with
//! a per-entry expiry instant and a last-access instant for LRU eviction.
//!
//! The store itself is a `dashmap::DashMap` (fine-grained locking, safe for
//! concurrent handlers); every operation on it goes through a small trusted
//! wrapper whose contract is stated over the abstract contents of the map.
//! All cache policy — expiry on read, write-through, batch LRU eviction —
//! is verified against those contracts.  Time is injected by the caller as a
//! millisecond instant, so the policy is a pure function of store and clock.
use vstd::prelude::*;

verus! {

/// One cache entry: an opaque serialized payload plus its bookkeeping.
#[derive(Debug, Clone)]
pub struct CacheEntry {
    /// Serialized payload handed in by the caller.
    pub data: String,
    /// Instant (caller's clock, milliseconds) at which the entry lapses.
    pub expires_at: u64,
    /// Instant of the most recent read or write, for LRU eviction.
    pub last_accessed: u64,
    /// Byte length of `data` at insertion time.
    pub size_bytes: usize,
}

#[verifier::external_type_specification]
#[verifier::external_body]
#[verifier::reject_recursive_types(K)]
#[verifier::reject_recursive_types(V)]
#[verifier::reject_recursive_types(S)]
pub struct ExDashMap<K, V, S>(dashmap::DashMap<K, V, S>);

/// The abstract contents of the backing map: each stored key (as a character
/// sequence) mapped to its entry.
pub uninterp spec fn store_contents(
    m: dashmap::DashMap<String, CacheEntry>,
) -> Map<Seq<char>, CacheEntry>;

/// The map holds nothing.
pub open spec fn store_is_empty(c: Map<Seq<char>, CacheEntry>) -> bool {
    c =~= Map::<Seq<char>, CacheEntry>::empty()
}

/// `n` is the exact number of stored entries (so the key set is finite).
pub open spec fn store_counted(c: Map<Seq<char>, CacheEntry>, n: usize) -> bool {
    c.dom().finite() && n == c.dom().len()
}

/// Relies on dashmap::DashMap::new: creates an empty map.
#[verifier::external_body]
fn store_new() -> (r: dashmap::DashMap<String, CacheEntry>)
    ensures
        store_is_empty(store_contents(r)),
{
    dashmap::DashMap::new()
}

/// Relies on dashmap::DashMap::insert: maps the key to the new value,
/// replacing any previous entry for an equal key.
#[verifier::external_body]
fn store_insert(m: &mut dashmap::DashMap<String, CacheEntry>, key: &str, e: CacheEntry)
    ensures
        store_contents(*final(m)) =~= store_contents(*old(m)).insert(key@, e),
{
    m.insert(key.to_string(), e);
}

/// Relies on dashmap::DashMap::remove: removes the entry for an equal key,
/// if any.
#[verifier::external_body]
fn store_remove(m: &mut dashmap::DashMap<String, CacheEntry>, key: &str)
    ensures
        store_contents(*final(m)) =~= store_contents(*old(m)).remove(key@),
{
    m.remove(key);
}

/// Relies on dashmap::DashMap::clear: removes every entry.
#[verifier::external_body]
fn store_clear(m: &mut dashmap::DashMap<String, CacheEntry>)
    ensures
        store_is_empty(store_contents(*final(m))),
{
    m.clear();
}

/// Relies on dashmap::DashMap::get: returns the value stored under an equal
/// key, if any (cloned out of the shard guard).
#[verifier::external_body]
fn store_get(m: &dashmap::DashMap<String, CacheEntry>, key: &str) -> (r: Option<CacheEntry>)
    ensures
        match r {
            Some(e) => store_contents(*m).contains_key(key@) && store_contents(*m)[key@] == e,
            None => !store_contents(*m).contains_key(key@),
        },
{
    m.get(key).map(|e| e.value().clone())
}

/// Relies on dashmap::DashMap::len: the number of entries.
#[verifier::external_body]
fn store_len(m: &dashmap::DashMap<String, CacheEntry>) -> (n: usize)
    ensures
        store_counted(store_contents(*m), n),
{
    m.len()
}

/// Relies on dashmap::DashMap::iter: yields every entry exactly once, in no
/// fixed order.  The result lists each stored (key, entry) pair once.
#[verifier::external_body]
fn store_entries(m: &dashmap::DashMap<String, CacheEntry>) -> (r: Vec<(String, CacheEntry)>)
    ensures
        store_counted(store_contents(*m), r.len()),
        forall|i: int, j: int| 0 <= i < j < r@.len() ==> r@[i].0@ != r@[j].0@,
        forall|i: int|
            0 <= i < r@.len() ==> store_contents(*m).contains_key(#[trigger] r@[i].0@)
                && store_contents(*m)[r@[i].0@] == r@[i].1,
        forall|k: Seq<char>|
            store_contents(*m).contains_key(k) ==> exists|i: int|
                0 <= i < r@.len() && #[trigger] r@[i].0@ == k,
{
    m.iter().map(|e| (e.key().clone(), e.value().clone())).collect()
}

} // verus!

verus! {

use vstd::string::StringSliceAdditionalSpecFns;

/// Capacity at which `set` triggers a batch LRU eviction.
pub const MAX_CACHE_ENTRIES: usize = 1000;

/// The process-wide cache.  Construct one instance at the composition root
/// and hand shared ownership to the request handlers.
pub struct Cache {
    store: dashmap::DashMap<String, CacheEntry>,
}

impl View for Cache {
    type V = Map<Seq<char>, CacheEntry>;

    closed spec fn view(&self) -> Map<Seq<char>, CacheEntry> {
        store_contents(self.store)
    }
}

/// The instant at which an entry written at `now` with time-to-live `ttl`
/// lapses: `now + ttl`, saturating at the top of the clock's range.
pub open spec fn entry_expiry(now: u64, ttl: u64) -> u64 {
    if now + ttl <= u64::MAX {
        (now + ttl) as u64
    } else {
        u64::MAX
    }
}

/// What a lookup of `k` at instant `now` finds in contents `c`: the stored
/// payload while the entry is live, nothing otherwise.
pub open spec fn spec_lookup(c: Map<Seq<char>, CacheEntry>, k: Seq<char>, now: u64) -> Option<
    Seq<char>,
> {
    if c.contains_key(k) && now < c[k].expires_at {
        Some(c[k].data@)
    } else {
        None
    }
}

/// Number of entries a batch eviction removes from contents `c`.
pub open spec fn evict_target(c: Map<Seq<char>, CacheEntry>) -> nat {
    c.dom().len() / 5
}

/// How contents `post` relate to contents `pre` across a batch LRU eviction:
/// a fifth of the entries (rounded down) are gone, no surviving entry has
/// changed, and every removed entry was accessed no later than any survivor.
pub open spec fn evict_post(
    pre: Map<Seq<char>, CacheEntry>,
    post: Map<Seq<char>, CacheEntry>,
) -> bool {
    if pre.dom().finite() && evict_target(pre) > 0 {
        &&& post.dom().subset_of(pre.dom())
        &&& forall|k: Seq<char>| #[trigger] post.contains_key(k) ==> post[k] == pre[k]
        &&& post.dom().finite()
        &&& post.dom().len() == pre.dom().len() - evict_target(pre)
        &&& forall|k1: Seq<char>, k2: Seq<char>|
            #![trigger pre.contains_key(k1), post.contains_key(k2)]
            pre.contains_key(k1) && !post.contains_key(k1) && post.contains_key(k2)
                ==> pre[k1].last_accessed <= pre[k2].last_accessed
    } else {
        post == pre
    }
}

/// How contents `post` relate to contents `pre` after `set(k, d, ttl, now)`:
/// `k` now holds `d` with a fresh expiry and access instant and the
/// payload's byte length recorded; every other surviving entry is
/// unchanged; and the write was a plain insertion unless the cache was at
/// capacity, in which case an LRU eviction ran first.
pub open spec fn set_post(
    pre: Map<Seq<char>, CacheEntry>,
    post: Map<Seq<char>, CacheEntry>,
    k: Seq<char>,
    d: Seq<char>,
    ttl: u64,
    now: u64,
) -> bool {
    &&& post.contains_key(k)
    &&& post[k].data@ == d
    &&& post[k].expires_at == entry_expiry(now, ttl)
    &&& post[k].last_accessed == now
    &&& post[k].size_bytes == vstd::utf8::encode_utf8(d).len() as usize
    &&& forall|k2: Seq<char>|
        #[trigger] post.contains_key(k2) && k2 != k ==> pre.contains_key(k2) && post[k2] == pre[k2]
    &&& pre.dom().finite() && pre.dom().len() < MAX_CACHE_ENTRIES ==> post =~= pre.insert(
        k,
        post[k],
    )
    &&& pre.dom().finite() && pre.dom().len() >= MAX_CACHE_ENTRIES ==> exists|
        mid: Map<Seq<char>, CacheEntry>,
    | #[trigger] evict_post(pre, mid) && post =~= mid.insert(k, post[k])
}

impl Cache {
    /// A fresh, empty cache.
    pub fn new() -> (r: Cache)
        ensures
            r@ =~= Map::<Seq<char>, CacheEntry>::empty(),
    {
        Cache { store: store_new() }
    }

    /// Look `key` up at instant `now`.  Returns the stored payload while the
    /// entry is live (refreshing its last-access instant), removes the entry
    /// if it has lapsed, and leaves the cache unchanged on a miss.
    pub fn get(&mut self, key: &str, now: u64) -> (r: Option<String>)
        ensures
            match r {
                Some(d) => spec_lookup(old(self)@, key@, now) == Some(d@),
                None => spec_lookup(old(self)@, key@, now) is None,
            },
            old(self)@.contains_key(key@) && now < old(self)@[key@].expires_at ==> final(self)@
                =~= old(self)@.insert(
                key@,
                CacheEntry {
                    data: old(self)@[key@].data,
                    expires_at: old(self)@[key@].expires_at,
                    last_accessed: now,
                    size_bytes: old(self)@[key@].size_bytes,
                },
            ),
            old(self)@.contains_key(key@) && now >= old(self)@[key@].expires_at ==> final(self)@
                =~= old(self)@.remove(key@),
            !old(self)@.contains_key(key@) ==> final(self)@ == old(self)@,
    {
        match store_get(&self.store, key) {
            Some(e) => {
                if now < e.expires_at {
                    let payload = e.data.clone();
                    let touched = CacheEntry {
                        data: e.data,
                        expires_at: e.expires_at,
                        last_accessed: now,
                        size_bytes: e.size_bytes,
                    };
                    store_insert(&mut self.store, key, touched);
                    Some(payload)
                } else {
                    store_remove(&mut self.store, key);
                    None
                }
            },
            None => None,
        }
    }

    /// Store `data` under `key` with time-to-live `ttl` at instant `now`,
    /// evicting the least-recently-accessed fifth of the entries first if
    /// the cache is at capacity.
    pub fn set(&mut self, key: &str, data: String, ttl: u64, now: u64)
        ensures
            set_post(old(self)@, final(self)@, key@, data@, ttl, now),
    {
        let at_capacity = store_len(&self.store) >= MAX_CACHE_ENTRIES;
        if at_capacity {
            self.evict_lru_entries();
        }
        let data_str = data.as_str();
        let size_bytes = data_str.len();
        proof {
            assert(data_str.spec_bytes() == vstd::utf8::encode_utf8(data@));
        }
        let expires_at = now.saturating_add(ttl);
        let entry = CacheEntry { data, expires_at, last_accessed: now, size_bytes };
        store_insert(&mut self.store, key, entry);
    }

    /// Remove the least-recently-accessed fifth of the entries (rounded
    /// down; a no-op below five entries).
    pub fn evict_lru_entries(&mut self)
        ensures
            evict_post(old(self)@, final(self)@),
    {
        let n = store_len(&self.store);
        let target = n / 5;
        if target == 0 {
            return ;
        }
        let ghost pre = self@;
        let mut i: usize = 0;
        while i < target
            invariant
                i <= target,
                target == evict_target(pre),
                0 < target <= pre.dom().len(),
                pre.dom().finite(),
                self@.dom().finite(),
                self@.dom().subset_of(pre.dom()),
                forall|k: Seq<char>| #[trigger] self@.contains_key(k) ==> self@[k] == pre[k],
                self@.dom().len() == pre.dom().len() - i,
                forall|k1: Seq<char>, k2: Seq<char>|
                    #![trigger pre.contains_key(k1), self@.contains_key(k2)]
                    pre.contains_key(k1) && !self@.contains_key(k1) && self@.contains_key(k2)
                        ==> pre[k1].last_accessed <= pre[k2].last_accessed,
            decreases target - i,
        {
            let list = store_entries(&self.store);
            let mut best: usize = 0;
            let mut j: usize = 1;
            while j < list.len()
                invariant
                    0 < list@.len(),
                    best < j <= list@.len(),
                    forall|m: int|
                        0 <= m < j ==> list@[best as int].1.last_accessed <= #[trigger] list@[m].1.last_accessed,
                decreases list@.len() - j,
            {
                if list[j].1.last_accessed < list[best].1.last_accessed {
                    best = j;
                }
                j += 1;
            }
            let ghost victim = list@[best as int].0@;
            proof {
                assert(self@.contains_key(victim));
                self@.lemma_remove_key_len(victim);
            }
            store_remove(&mut self.store, list[best].0.as_str());
            i += 1;
            proof {
                assert forall|k1: Seq<char>, k2: Seq<char>|
                    pre.contains_key(k1) && !self@.contains_key(k1) && #[trigger] self@.contains_key(
                        k2,
                    ) implies #[trigger] pre.contains_key(k1) && pre[k1].last_accessed
                    <= pre[k2].last_accessed by {
                    if k1 == victim {
                        let m = choose|m: int| 0 <= m < list@.len() && list@[m].0@ == k2;
                        assert(list@[m].1.last_accessed >= list@[best as int].1.last_accessed);
                    }
                }
            }
        }
    }

    /// Drop the entry stored under `key`, if any.
    pub fn invalidate(&mut self, key: &str)
        ensures
            final(self)@ =~= old(self)@.remove(key@),
    {
        store_remove(&mut self.store, key);
    }

    /// Drop every entry.
    pub fn clear_all(&mut self)
        ensures
            final(self)@ =~= Map::<Seq<char>, CacheEntry>::empty(),
    {
        store_clear(&mut self.store);
    }
}

} // verus!

verus! {

/// Cache statistics, as reported by `Cache::stats`.
#[derive(Debug, Clone)]
pub struct CacheStats {
    pub entry_count: usize,
    pub total_size_bytes: usize,
    pub expired_count: usize,
}

/// The keys of contents `c` whose entries have lapsed by instant `now`.
pub open spec fn expired_keys(c: Map<Seq<char>, CacheEntry>, now: u64) -> Set<Seq<char>> {
    c.dom().filter(|k: Seq<char>| c[k].expires_at <= now)
}

/// The total of the stored entries' recorded sizes, summed over the keys
/// of `c` in no particular order.
pub open spec fn sum_sizes(c: Map<Seq<char>, CacheEntry>) -> int
    decreases c.dom().len(),
    when c.dom().finite()
{
    if !c.dom().finite() || c.dom().len() == 0 {
        0
    } else {
        let k = c.dom().choose();
        c[k].size_bytes + sum_sizes(c.remove(k))
    }
}

/// Splitting any one key off the size sum leaves the sum of the rest.
pub proof fn lemma_sum_sizes_remove(c: Map<Seq<char>, CacheEntry>, k: Seq<char>)
    requires
        c.dom().finite(),
        c.contains_key(k),
    ensures
        sum_sizes(c) == c[k].size_bytes + sum_sizes(c.remove(k)),
    decreases c.dom().len(),
{
    assert(c.dom().remove(k).len() == c.dom().len() - 1);
    let k0 = c.dom().choose();
    assert(c.dom().contains(k0));
    if k0 == k {
    } else {
        assert(c.remove(k0).contains_key(k));
        lemma_sum_sizes_remove(c.remove(k0), k);
        assert(c.remove(k).contains_key(k0));
        lemma_sum_sizes_remove(c.remove(k), k0);
        assert(c.remove(k0).remove(k) =~= c.remove(k).remove(k0));
    }
}

/// The keys among the first `m` listed entries that have lapsed by `now`.
spec fn prefix_expired(list: Seq<(String, CacheEntry)>, m: int, now: u64) -> Set<Seq<char>> {
    Set::new(
        |k: Seq<char>|
            exists|mi: int| 0 <= mi < m && #[trigger] list[mi].0@ == k && list[mi].1.expires_at
                <= now,
    )
}

impl Cache {
    /// Remove every entry that has lapsed by instant `now`; live entries are
    /// untouched.
    pub fn cleanup_expired(&mut self, now: u64)
        ensures
            forall|k: Seq<char>| #[trigger]
                final(self)@.contains_key(k) ==> old(self)@.contains_key(k) && final(self)@[k]
                    == old(self)@[k] && now < old(self)@[k].expires_at,
            forall|k: Seq<char>|
                old(self)@.contains_key(k) && now < old(self)@[k].expires_at
                    ==> #[trigger] final(self)@.contains_key(k),
    {
        let ghost pre = self@;
        let list = store_entries(&self.store);
        let mut m: usize = 0;
        while m < list.len()
            invariant
                m <= list@.len(),
                list@.len() == pre.dom().len(),
                pre.dom().finite(),
                forall|i: int, j: int| 0 <= i < j < list@.len() ==> list@[i].0@ != list@[j].0@,
                forall|i: int|
                    0 <= i < list@.len() ==> pre.contains_key(#[trigger] list@[i].0@)
                        && pre[list@[i].0@] == list@[i].1,
                forall|k: Seq<char>|
                    pre.contains_key(k) ==> exists|i: int|
                        0 <= i < list@.len() && #[trigger] list@[i].0@ == k,
                forall|k: Seq<char>| #[trigger]
                    self@.contains_key(k) ==> pre.contains_key(k) && self@[k] == pre[k],
                forall|k: Seq<char>|
                    pre.contains_key(k) && now < pre[k].expires_at ==> #[trigger] self@.contains_key(
                        k,
                    ),
                forall|i: int|
                    0 <= i < m && list@[i].1.expires_at <= now ==> !self@.contains_key(
                        #[trigger] list@[i].0@,
                    ),
            decreases list@.len() - m,
        {
            if list[m].1.expires_at <= now {
                let ghost prev = self@;
                store_remove(&mut self.store, list[m].0.as_str());
                proof {
                    assert(self@ =~= prev.remove(list@[m as int].0@));
                    assert(pre[list@[m as int].0@] == list@[m as int].1);
                    assert forall|k: Seq<char>|
                        pre.contains_key(k) && now < pre[k].expires_at implies #[trigger] self@.contains_key(
                        k,
                    ) by {
                        assert(prev.contains_key(k));
                        assert(k != list@[m as int].0@);
                    }
                }
            }
            m += 1;
        }
        proof {
            assert forall|k: Seq<char>|
                pre.contains_key(k) && pre[k].expires_at <= now implies !self@.contains_key(k) by {
                let i = choose|i: int| 0 <= i < list@.len() && #[trigger] list@[i].0@ == k;
                assert(list@[i].1.expires_at <= now);
            }
        }
    }

    /// Report the entry count, the sum of the stored payload sizes
    /// (saturating at the top of `usize`), and how many entries have lapsed
    /// by instant `now`.
    pub fn stats(&self, now: u64) -> (r: CacheStats)
        ensures
            r.entry_count == self@.dom().len(),
            r.expired_count == expired_keys(self@, now).len(),
            sum_sizes(self@) <= usize::MAX ==> r.total_size_bytes == sum_sizes(self@),
            sum_sizes(self@) > usize::MAX ==> r.total_size_bytes == usize::MAX,
    {
        let list = store_entries(&self.store);
        let ghost rem = self@;
        let ghost processed: int = 0;
        proof {
            assert(prefix_expired(list@, 0, now) =~= Set::<Seq<char>>::empty());
        }
        let mut total_size: usize = 0;
        let mut expired: usize = 0;
        let mut m: usize = 0;
        while m < list.len()
            invariant
                m <= list@.len(),
                list@.len() == self@.dom().len(),
                self@.dom().finite(),
                forall|i: int, j: int| 0 <= i < j < list@.len() ==> list@[i].0@ != list@[j].0@,
                forall|i: int|
                    0 <= i < list@.len() ==> self@.contains_key(#[trigger] list@[i].0@)
                        && self@[list@[i].0@] == list@[i].1,
                expired == prefix_expired(list@, m as int, now).len(),
                prefix_expired(list@, m as int, now).finite(),
                expired <= m,
                rem.dom().finite(),
                forall|k: Seq<char>| #[trigger]
                    rem.contains_key(k) ==> self@.contains_key(k) && rem[k] == self@[k],
                forall|i: int| 0 <= i < m ==> !rem.contains_key(#[trigger] list@[i].0@),
                forall|i: int|
                    m <= i < list@.len() ==> rem.contains_key(#[trigger] list@[i].0@),
                sum_sizes(self@) == processed + sum_sizes(rem),
                0 <= processed,
                processed <= usize::MAX ==> total_size == processed,
                processed > usize::MAX ==> total_size == usize::MAX,
            decreases list@.len() - m,
        {
            proof {
                let k = list@[m as int].0@;
                assert(rem.contains_key(k));
                lemma_sum_sizes_remove(rem, k);
                assert(rem[k].size_bytes == list@[m as int].1.size_bytes);
                rem = rem.remove(k);
                processed = processed + list@[m as int].1.size_bytes;
            }
            total_size = total_size.saturating_add(list[m].1.size_bytes);
            proof {
                if list@[m as int].1.expires_at <= now {
                    assert(!prefix_expired(list@, m as int, now).contains(list@[m as int].0@));
                    assert(prefix_expired(list@, m as int + 1, now) =~= prefix_expired(
                        list@,
                        m as int,
                        now,
                    ).insert(list@[m as int].0@));
                } else {
                    assert(prefix_expired(list@, m as int + 1, now) =~= prefix_expired(
                        list@,
                        m as int,
                        now,
                    ));
                }
            }
            if list[m].1.expires_at <= now {
                expired += 1;
            }
            m += 1;
        }
        proof {
            assert forall|k: Seq<char>| expired_keys(self@, now).contains(k) implies prefix_expired(
                list@,
                list@.len() as int,
                now,
            ).contains(k) by {
                let i = choose|i: int| 0 <= i < list@.len() && #[trigger] list@[i].0@ == k;
                assert(list@[i].1.expires_at <= now);
            }
            assert(prefix_expired(list@, list@.len() as int, now) =~= expired_keys(self@, now));
            assert forall|k: Seq<char>| !(#[trigger] rem.contains_key(k)) by {
                if rem.contains_key(k) {
                    let i = choose|i: int| 0 <= i < list@.len() && #[trigger] list@[i].0@ == k;
                }
            }
            assert(rem.dom() =~= Set::<Seq<char>>::empty());
            assert(sum_sizes(rem) == 0);
        }
        CacheStats { entry_count: list.len(), total_size_bytes: total_size, expired_count: expired }
    }
}

/// Law: a payload stored by `set(k, d, ttl, now)` is returned by every
/// lookup of `k` strictly before the expiry instant `now + ttl` (saturating),
/// and by no lookup at or after it.
pub proof fn lemma_cache_ttl(
    pre: Map<Seq<char>, CacheEntry>,
    post: Map<Seq<char>, CacheEntry>,
    k: Seq<char>,
    d: Seq<char>,
    ttl: u64,
    now: u64,
    t: u64,
)
    requires
        set_post(pre, post, k, d, ttl, now),
    ensures
        t < entry_expiry(now, ttl) ==> spec_lookup(post, k, t) == Some(d),
        t >= entry_expiry(now, ttl) ==> spec_lookup(post, k, t) is None,
{
}

/// Law: a batch eviction removes exactly a fifth of the entries (rounded
/// down), and no entry that survives it was accessed before any entry that
/// was removed.
pub proof fn lemma_eviction_lru(
    pre: Map<Seq<char>, CacheEntry>,
    post: Map<Seq<char>, CacheEntry>,
    k1: Seq<char>,
    k2: Seq<char>,
)
    requires
        evict_post(pre, post),
        pre.dom().finite(),
        evict_target(pre) > 0,
        pre.contains_key(k1),
        !post.contains_key(k1),
        post.contains_key(k2),
    ensures
        post.dom().len() == pre.dom().len() - evict_target(pre),
        pre[k1].last_accessed <= pre[k2].last_accessed,
        post[k2] == pre[k2],
{
}

} // verus!
