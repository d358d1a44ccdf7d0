//! The nonces that clients were told under, of which the oldest are forgotten.
use lru_time_cache::LruCache;
use vstd::prelude::*;

verus! {

/// A cache of the crate `lru_time_cache`, which forgets what is old and what was not used for long.
#[verifier::external_type_specification]
#[verifier::external_body]
#[verifier::reject_recursive_types(Key)]
#[verifier::reject_recursive_types(Value)]
pub struct ExLruCache<Key, Value>(LruCache<Key, Value>);

/// What a cache holds under its keys, also where it is old and not yet forgotten.
pub uninterp spec fn cache_held(cache: LruCache<u128, u128>) -> Map<u128, u128>;

/// How many entries a cache was made for.
pub uninterp spec fn cache_limit(cache: LruCache<u128, u128>) -> nat;

/// No entries.
pub open spec fn no_entries() -> Map<u128, u128> {
    Map::empty()
}

/// `lru_time_cache::LruCache::with_expiry_duration_and_capacity`, with the time in seconds: the cache
/// holds nothing and was made for so many entries. Room for them is set aside at once, which must not
/// be more than there can be.
#[verifier::external_body]
pub(crate) fn cache_new(seconds: u32, capacity: usize) -> (r: LruCache<u128, u128>)
    requires
        0 < capacity <= 0x07ff_ffff,
    ensures
        cache_held(r) == no_entries(),
        cache_limit(r) == capacity,
{
    LruCache::with_expiry_duration_and_capacity(std::time::Duration::from_secs(seconds.into()), capacity)
}

/// What a cache holds after a value was put in: the value under its key, and of the rest what was
/// there before.
pub open spec fn kept(
    before: Map<u128, u128>,
    after: Map<u128, u128>,
    key: u128,
    value: u128,
) -> bool {
    &&& after.contains_key(key)
    &&& after[key] == value
    &&& forall|other: u128| #[trigger]
        after.contains_key(other) && other != key ==> before.contains_key(other) && after[other]
            == before[other]
}

/// `lru_time_cache::LruCache::insert`: the value is there under its key, and nothing is there that was
/// not there before. Which other entries are forgotten rests on the clock; there are never more than
/// the cache was made for. A cache that was made for none cannot take one; any other does without
/// panicking.
#[verifier::external_body]
pub(crate) fn cache_insert(cache: &mut LruCache<u128, u128>, key: u128, value: u128)
    requires
        cache_limit(*old(cache)) > 0,
    ensures
        kept(cache_held(*old(cache)), cache_held(*final(cache)), key, value),
        cache_limit(*final(cache)) == cache_limit(*old(cache)),
        cache_held(*old(cache)).len() <= cache_limit(*old(cache)) ==> cache_held(*final(cache)).len()
            <= cache_limit(*final(cache)),
    no_unwind
{
    let _ = cache.insert(key, value);
}

/// For how many seconds a nonce is remembered.
pub const NONCE_SECONDS: u32 = 30;

/// How many nonces are remembered.
pub const NONCE_COUNT: usize = 1000;

/// The nonces that clients were told under.
pub struct Nonces {
    cache: LruCache<u128, u128>,
}

impl Nonces {
    #[verifier::type_invariant]
    spec fn has_room(self) -> bool {
        cache_limit(self.cache) == NONCE_COUNT && cache_held(self.cache).len() <= NONCE_COUNT
    }

    /// The nonces that are remembered, each under itself.
    pub closed spec fn held(&self) -> Map<u128, u128> {
        cache_held(self.cache)
    }

    /// No nonces.
    pub fn new() -> (r: Self)
        ensures
            r.held() == no_entries(),
    {
        let cache = cache_new(NONCE_SECONDS, NONCE_COUNT);
        assert(cache_held(cache).dom() =~= Set::<u128>::empty());
        Nonces { cache }
    }

    /// Remembers one more.
    pub fn remember(&mut self, nonce: u128)
        ensures
            kept(old(self).held(), final(self).held(), nonce, nonce),
            final(self).held().len() <= NONCE_COUNT,
    {
        proof {
            use_type_invariant(&*self);
        }
        cache_insert(&mut self.cache, nonce, nonce);
    }
}

/// What a cache took in is there, and all else that is there was there before, as it is.
pub proof fn law_kept(
    before: Map<u128, u128>,
    after: Map<u128, u128>,
    key: u128,
    value: u128,
    other: u128,
)
    requires
        kept(before, after, key, value),
    ensures
        after.contains_key(key) && after[key] == value,
        other != key && after.contains_key(other) ==> before.contains_key(other) && after[other]
            == before[other],
        no_entries().len() == 0,
{
}

/// A cache may keep all that it held when it takes a value in, and may forget all of it.
pub proof fn law_all_or_nothing_is_kept(before: Map<u128, u128>, key: u128, value: u128)
    ensures
        kept(before, before.insert(key, value), key, value),
        kept(before, no_entries().insert(key, value), key, value),
{
}

} // verus!
