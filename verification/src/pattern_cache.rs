//! A bounded least-recently-used cache from pattern text to compiled regex.

use crate::error::{Failure, RegexpExtractError};
use crate::re::{accepts, compile_with, refusal, CompiledRegex, Engine, RegexView};
use vstd::prelude::*;
use vstd::string::StringExecFns;

verus! {

/// `lru::LruCache`, carried as it is; what the contracts know of a value are
/// its entries and the limit it was made with.
#[verifier::external_type_specification]
#[verifier::external_body]
#[verifier::reject_recursive_types(K)]
#[verifier::reject_recursive_types(V)]
#[verifier::reject_recursive_types(S)]
pub struct ExLruCache<K, V, S>(lru::LruCache<K, V, S>);

/// `lru::DefaultHasher`, the hasher of a cache made by `lru::LruCache::new`;
/// nothing is claimed of it.
#[verifier::external_type_specification]
#[verifier::external_body]
pub struct ExLruHasher(lru::DefaultHasher);

/// The entries of a cache of compiled patterns, the most recently used
/// first: the key of each, and what its value was compiled from and by.
pub type Entries = Seq<(Seq<char>, RegexView)>;

/// What a `lru::LruCache` holds, the most recently used entry first.
pub uninterp spec fn lru_entries(c: lru::LruCache<String, CompiledRegex>) -> Entries;

/// The number of entries that a `lru::LruCache` was made to hold at most.
pub uninterp spec fn lru_limit(c: lru::LruCache<String, CompiledRegex>) -> nat;

/// Whether some entry has the key `key`.
pub open spec fn has_key(entries: Entries, key: Seq<char>) -> bool {
    exists|i: int| 0 <= i < entries.len() && (#[trigger] entries[i]).0 == key
}

/// Whether `after` is `before` with the entry at `i`, whose key is `key`,
/// moved to the front.
pub open spec fn promotes(before: Entries, key: Seq<char>, i: int, after: Entries) -> bool {
    &&& 0 <= i < before.len()
    &&& before[i].0 == key
    &&& after == seq![before[i]] + before.remove(i)
}

/// Whether `after` is `before` with the entry at `i`, whose key is `key`,
/// taken out and `entry` put at the front.
pub open spec fn replaces(
    before: Entries,
    key: Seq<char>,
    i: int,
    entry: (Seq<char>, RegexView),
    after: Entries,
) -> bool {
    &&& 0 <= i < before.len()
    &&& before[i].0 == key
    &&& after == seq![entry] + before.remove(i)
}

/// `before` with `entry` put at the front, after the least recently used
/// entry has left where `before` is full.
pub open spec fn pushed(before: Entries, limit: nat, entry: (Seq<char>, RegexView)) -> Entries {
    if before.len() == limit {
        seq![entry] + before.drop_last()
    } else {
        seq![entry] + before
    }
}

/// The largest capacity for which the cache reserves its table up front.
pub const PREALLOCATION_LIMIT: usize = 65536;

/// `lru::LruCache::new`: an empty cache that holds at most `cap` entries and
/// reserves room for them. Larger capacities are left out: sizing the table
/// for them can overflow, which panics.
#[verifier::external_body]
fn lru_new(cap: usize) -> (c: lru::LruCache<String, CompiledRegex>)
    requires
        1 <= cap <= PREALLOCATION_LIMIT,
    ensures
        lru_entries(c) == Entries::empty(),
        lru_limit(c) == cap,
{
    lru::LruCache::new(std::num::NonZeroUsize::new(cap).unwrap())
}

/// `lru::LruCache::sparse`: an empty cache that holds at most `cap` entries
/// and reserves nothing.
#[verifier::external_body]
fn lru_sparse(cap: usize) -> (c: lru::LruCache<String, CompiledRegex>)
    requires
        1 <= cap,
    ensures
        lru_entries(c) == Entries::empty(),
        lru_limit(c) == cap,
{
    lru::LruCache::sparse(std::num::NonZeroUsize::new(cap).unwrap())
}

/// `lru::LruCache::contains`: whether an entry has the key `key`; the cache
/// stays as it is.
#[verifier::external_body]
fn lru_contains(c: &lru::LruCache<String, CompiledRegex>, key: &str) -> (b: bool)
    ensures
        b == has_key(lru_entries(*c), key@),
{
    c.contains(key)
}

/// `lru::LruCache::get`: the value of the entry with the key `key`, which
/// moves to the front; `None`, and no change, where there is no such entry.
/// It does not panic.
#[verifier::external_body]
fn lru_get<'a>(c: &'a mut lru::LruCache<String, CompiledRegex>, key: &str) -> (r: Option<
    &'a CompiledRegex,
>)
    ensures
        lru_limit(*final(c)) == lru_limit(*old(c)),
        r is Some <==> has_key(lru_entries(*old(c)), key@),
        r matches Some(v) ==> exists|i: int|
            promotes(lru_entries(*old(c)), key@, i, lru_entries(*final(c))) && v@ == lru_entries(
                *old(c),
            )[i].1,
        r is None ==> lru_entries(*final(c)) == lru_entries(*old(c)),
    no_unwind
{
    c.get(key)
}

/// `lru::LruCache::put`: puts the entry at the front. Where the key was
/// there, its old entry leaves and the old value is returned; otherwise
/// `None` is returned, and where the cache was full the least recently used
/// entry leaves. It does not panic.
#[verifier::external_body]
fn lru_put(c: &mut lru::LruCache<String, CompiledRegex>, key: String, value: CompiledRegex) -> (r:
    Option<CompiledRegex>)
    ensures
        lru_limit(*final(c)) == lru_limit(*old(c)),
        r is Some <==> has_key(lru_entries(*old(c)), key@),
        r matches Some(v) ==> exists|i: int|
            replaces(lru_entries(*old(c)), key@, i, (key@, value@), lru_entries(*final(c))) && v@
                == lru_entries(*old(c))[i].1,
        r is None ==> lru_entries(*final(c)) == pushed(
            lru_entries(*old(c)),
            lru_limit(*old(c)),
            (key@, value@),
        ),
    no_unwind
{
    c.put(key, value)
}

/// Cumulative counters of a cache. Each stops at `u64::MAX`.
#[derive(Debug, Clone, Copy, PartialEq, Eq, Structural)]
pub struct CacheStats {
    pub hits: u64,
    pub misses: u64,
    pub compiled: u64,
}

impl Default for CacheStats {
    fn default() -> (s: Self)
        ensures
            s == CacheStats::zero(),
    {
        CacheStats { hits: 0, misses: 0, compiled: 0 }
    }
}

/// A counter after one more event.
pub open spec fn bumped(n: u64) -> u64 {
    if n < u64::MAX {
        (n + 1) as u64
    } else {
        n
    }
}

fn bump(n: u64) -> (m: u64)
    ensures
        m == bumped(n),
{
    if n < u64::MAX {
        n + 1
    } else {
        n
    }
}

impl CacheStats {
    /// Counters that have seen nothing.
    pub open spec fn zero() -> CacheStats {
        CacheStats { hits: 0, misses: 0, compiled: 0 }
    }
}

/// What a pattern cache is to its users: its keys, the most recently used
/// first, its capacity, its counters and its engine.
pub struct CacheState {
    pub keys: Seq<Seq<char>>,
    pub capacity: nat,
    pub stats: CacheStats,
    pub engine: Engine,
}

/// The position of `key` among `keys`, if it is there.
pub open spec fn position(keys: Seq<Seq<char>>, key: Seq<char>) -> Option<int> {
    if keys.contains(key) {
        Some(keys.index_of(key))
    } else {
        None
    }
}

impl CacheState {
    /// What holds of every cache: no key occurs twice, the capacity is at
    /// least 1 and bounds the number of keys, and the engine compiles every
    /// key.
    pub open spec fn valid(self) -> bool {
        &&& self.keys.no_duplicates()
        &&& 1 <= self.capacity
        &&& self.keys.len() <= self.capacity
        &&& forall|i: int| 0 <= i < self.keys.len() ==> accepts(self.engine, #[trigger] self.keys[i])
    }

    /// An empty cache.
    pub open spec fn empty(capacity: nat, engine: Engine) -> CacheState {
        CacheState { keys: Seq::empty(), capacity, stats: CacheStats::zero(), engine }
    }

    /// The state after a lookup of `pattern`. A hit moves the key to the
    /// front and counts a hit. A miss counts a miss; where the engine
    /// compiles the pattern it also counts a compilation and puts the key at
    /// the front, and the least recently used key leaves a full cache.
    pub open spec fn lookup(self, pattern: Seq<char>) -> CacheState {
        match position(self.keys, pattern) {
            Some(i) => CacheState {
                keys: seq![pattern] + self.keys.remove(i),
                stats: CacheStats { hits: bumped(self.stats.hits), ..self.stats },
                ..self
            },
            None => if accepts(self.engine, pattern) {
                CacheState {
                    keys: if self.keys.len() == self.capacity {
                        seq![pattern] + self.keys.drop_last()
                    } else {
                        seq![pattern] + self.keys
                    },
                    stats: CacheStats {
                        misses: bumped(self.stats.misses),
                        compiled: bumped(self.stats.compiled),
                        ..self.stats
                    },
                    ..self
                }
            } else {
                CacheState {
                    stats: CacheStats { misses: bumped(self.stats.misses), ..self.stats },
                    ..self
                }
            },
        }
    }
}

/// A bounded cache of compiled patterns with least-recently-used eviction.
pub struct PatternCache {
    lru: lru::LruCache<String, CompiledRegex>,
    stats: CacheStats,
    engine: Engine,
}

/// The keys of `entries`, in their order.
pub open spec fn keys_of(entries: Entries) -> Seq<Seq<char>> {
    Seq::new(entries.len(), |i: int| entries[i].0)
}

impl View for PatternCache {
    type V = CacheState;

    closed spec fn view(&self) -> CacheState {
        CacheState {
            keys: keys_of(lru_entries(self.lru)),
            capacity: lru_limit(self.lru),
            stats: self.stats,
            engine: self.engine,
        }
    }
}

impl PatternCache {
    /// The invariant of a cache: no key occurs twice, the capacity is at
    /// least 1 and bounds the number of keys, the engine compiles every key,
    /// and each entry holds the regex compiled from its key.
    #[verifier::type_invariant]
    closed spec fn wf(&self) -> bool {
        entries_wf(lru_entries(self.lru), lru_limit(self.lru), self.engine)
    }

    /// An empty cache for the linear-time engine. A capacity of 0 counts as 1.
    pub fn new(cap: usize) -> (c: Self)
        ensures
            c@.valid(),
            c@ == CacheState::empty(if cap == 0 { 1 } else { cap as nat }, Engine::Linear),
    {
        Self::with_engine(cap, Engine::Linear)
    }

    /// An empty cache for `engine`. A capacity of 0 counts as 1.
    pub fn with_engine(cap: usize, engine: Engine) -> (c: Self)
        ensures
            c@.valid(),
            c@ == CacheState::empty(if cap == 0 { 1 } else { cap as nat }, engine),
    {
        let cap: usize = if cap == 0 { 1 } else { cap };
        let lru = if cap <= PREALLOCATION_LIMIT {
            lru_new(cap)
        } else {
            lru_sparse(cap)
        };
        let c = PatternCache { lru, stats: CacheStats { hits: 0, misses: 0, compiled: 0 }, engine };
        assert(c@.keys =~= Seq::empty());
        c
    }

    /// The counters.
    pub fn stats(&self) -> (s: CacheStats)
        ensures
            s == self@.stats,
            self@.valid(),
    {
        proof {
            use_type_invariant(self);
        }
        self.stats
    }

    /// The engine that compiles this cache's patterns.
    pub fn engine(&self) -> (e: Engine)
        ensures
            e == self@.engine,
            self@.valid(),
    {
        proof {
            use_type_invariant(self);
        }
        self.engine
    }

    /// Sets the counters back to zero; the entries stay.
    pub fn reset_stats(&mut self)
        ensures
            final(self)@.valid(),
            final(self)@ == (CacheState { stats: CacheStats::zero(), ..old(self)@ }),
    {
        proof {
            use_type_invariant(&*self);
        }
        self.stats = CacheStats { hits: 0, misses: 0, compiled: 0 };
    }

    /// The compiled regex for `pattern`: the cached one on a hit, a newly
    /// compiled and cached one on a miss. Fails, with `InvalidPattern` and
    /// the engine's report, exactly where the engine refuses the pattern.
    pub fn get_or_compile(&mut self, pattern: &str) -> (r: Result<&CompiledRegex, RegexpExtractError>)
        ensures
            old(self)@.valid(),
            final(self)@.valid(),
            final(self)@ == old(self)@.lookup(pattern@),
            r is Ok <==> accepts(old(self)@.engine, pattern@),
            r matches Ok(re) ==> re.source() == pattern@ && re.engine() == old(self)@.engine
                && re.plain(),
            r matches Err(e) ==> e@ == Failure::InvalidPattern(refusal(old(self)@.engine, pattern@)),
    {
        proof {
            use_type_invariant(&*self);
        }
        let ghost before = lru_entries(self.lru);
        let ghost limit = lru_limit(self.lru);
        let ghost engine = self.engine;
        proof {
            lemma_keys(before, pattern@);
        }
        if lru_contains(&self.lru, pattern) {
            self.stats.hits = bump(self.stats.hits);
            proof {
                lemma_promotion(before, limit, engine, pattern@);
            }
            let found = lru_get(&mut self.lru, pattern);
            match found {
                Some(re) => Ok(re),
                None => vstd::pervasive::unreached(),
            }
        } else {
            self.stats.misses = bump(self.stats.misses);
            match compile_with(self.engine, pattern) {
                Err(e) => Err(RegexpExtractError::InvalidPattern(e)),
                Ok(re) => {
                    self.stats.compiled = bump(self.stats.compiled);
                    let ghost entry = (pattern@, re@);
                    let ghost middle = pushed(before, limit, entry);
                    proof {
                        lemma_push(before, limit, engine, entry);
                        lemma_promotion(middle, limit, engine, pattern@);
                    }
                    lru_put(&mut self.lru, String::from_str(pattern), re);
                    let found = lru_get(&mut self.lru, pattern);
                    match found {
                        Some(cached) => {
                            proof {
                                let after = lru_entries(after_borrow(self.lru));
                                assert(keys_of(middle).remove(0) =~= keys_of(middle).drop_first());
                                assert(keys_of(after) =~= keys_of(middle));
                            }
                            Ok(cached)
                        },
                        None => vstd::pervasive::unreached(),
                    }
                },
            }
        }
    }
}

/// The invariant of a cache over its entries: no key occurs twice, `limit` is
/// at least 1 and bounds the number of entries, and each entry holds the
/// regex that `engine` compiled from the entry's key with its default
/// options.
spec fn entries_wf(entries: Entries, limit: nat, engine: Engine) -> bool {
    &&& keys_of(entries).no_duplicates()
    &&& 1 <= limit
    &&& entries.len() <= limit
    &&& forall|i: int|
        0 <= i < entries.len() ==> {
            let e = #[trigger] entries[i];
            accepts(engine, e.0) && e.1.source == e.0 && e.1.engine == engine && e.1.plain
        }
}

/// The keys of `entries` hold `key` exactly where an entry has that key.
proof fn lemma_keys(entries: Entries, key: Seq<char>)
    ensures
        keys_of(entries).contains(key) <==> has_key(entries, key),
{
    let keys = keys_of(entries);
    if keys.contains(key) {
        let j = keys.index_of(key);
        assert(entries[j].0 == key);
    }
    if has_key(entries, key) {
        let j = choose|j: int| 0 <= j < entries.len() && (#[trigger] entries[j]).0 == key;
        assert(keys[j] == key);
    }
}

/// Moving the entry with the key `key` to the front keeps the invariant,
/// moves the key to the front of the keys, and hands out the regex compiled
/// from `key`.
proof fn lemma_promotion(before: Entries, limit: nat, engine: Engine, key: Seq<char>)
    requires
        entries_wf(before, limit, engine),
        has_key(before, key),
    ensures
        forall|after: Entries, i: int| #[trigger]
            promotes(before, key, i, after) ==> {
                &&& entries_wf(after, limit, engine)
                &&& i == keys_of(before).index_of(key)
                &&& keys_of(after) == seq![key] + keys_of(before).remove(i)
                &&& before[i].1.source == key
                &&& before[i].1.engine == engine
                &&& before[i].1.plain
            },
{
    let keys = keys_of(before);
    lemma_keys(before, key);
    assert forall|after: Entries, i: int| #[trigger] promotes(before, key, i, after) implies {
        &&& entries_wf(after, limit, engine)
        &&& i == keys.index_of(key)
        &&& keys_of(after) == seq![key] + keys.remove(i)
        &&& before[i].1.source == key
        &&& before[i].1.engine == engine
        &&& before[i].1.plain
    } by {
        assert(keys[i] == key);
        let j = keys.index_of(key);
        assert(keys[j] == key);
        assert(keys_of(after) =~= seq![key] + keys.remove(i));
        lemma_promoted_distinct(keys, i);
        assert forall|k: int| 0 <= k < after.len() implies {
            let e = #[trigger] after[k];
            accepts(engine, e.0) && e.1.source == e.0 && e.1.engine == engine && e.1.plain
        } by {
            if k == 0 {
                assert(after[k] == before[i]);
            } else if k <= i {
                assert(after[k] == before[k - 1]);
            } else {
                assert(after[k] == before[k]);
            }
        }
    }
}

/// Putting a newly compiled entry at the front, after the least recently
/// used one has left a full cache, keeps the invariant and puts the key at
/// the front of the keys.
proof fn lemma_push(before: Entries, limit: nat, engine: Engine, entry: (Seq<char>, RegexView))
    requires
        entries_wf(before, limit, engine),
        !has_key(before, entry.0),
        accepts(engine, entry.0),
        entry.1.source == entry.0,
        entry.1.engine == engine,
        entry.1.plain,
    ensures
        entries_wf(pushed(before, limit, entry), limit, engine),
        has_key(pushed(before, limit, entry), entry.0),
        pushed(before, limit, entry)[0] == entry,
        keys_of(pushed(before, limit, entry)) == seq![entry.0] + (if before.len() == limit {
            keys_of(before).drop_last()
        } else {
            keys_of(before)
        }),
        keys_of(pushed(before, limit, entry)).index_of(entry.0) == 0,
{
    let after = pushed(before, limit, entry);
    let keys = keys_of(before);
    let new_keys = keys_of(after);
    lemma_keys(before, entry.0);
    assert(after[0] == entry);
    let kept = if before.len() == limit {
        keys.drop_last()
    } else {
        keys
    };
    assert(new_keys =~= seq![entry.0] + kept);
    assert forall|a: int, b: int|
        0 <= a < new_keys.len() && 0 <= b < new_keys.len() && a != b implies new_keys[a]
        != new_keys[b] by {
        if a > 0 {
            assert(new_keys[a] == keys[a - 1]);
        }
        if b > 0 {
            assert(new_keys[b] == keys[b - 1]);
        }
    }
    assert forall|k: int| 0 <= k < after.len() implies {
        let e = #[trigger] after[k];
        accepts(engine, e.0) && e.1.source == e.0 && e.1.engine == engine && e.1.plain
    } by {
        if k > 0 {
            assert(after[k] == before[k - 1]);
        }
    }
    assert(new_keys[0] == entry.0);
    let j = new_keys.index_of(entry.0);
    assert(new_keys[j] == entry.0);
}

/// Moving one of pairwise distinct keys to the front leaves them pairwise
/// distinct.
pub proof fn lemma_promoted_distinct(keys: Seq<Seq<char>>, i: int)
    requires
        keys.no_duplicates(),
        0 <= i < keys.len(),
    ensures
        (seq![keys[i]] + keys.remove(i)).no_duplicates(),
{
    let moved = seq![keys[i]] + keys.remove(i);
    assert forall|a: int, b: int| 0 <= a < moved.len() && 0 <= b < moved.len() && a != b implies moved[a]
        != moved[b] by {
        let src = |k: int| if k == 0 { i } else if k <= i { k - 1 } else { k };
        assert(moved[a] == keys[src(a)]);
        assert(moved[b] == keys[src(b)]);
    }
}

} // verus!
