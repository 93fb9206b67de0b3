use crate::keysmap::KeysMap;
use jsonwebtoken::jwk::JwkSet;
use jsonwebtoken::DecodingKey;
use vstd::prelude::*;

verus! {

/// Why a key could not be resolved.
#[derive(Debug)]
pub enum KeysStorageError {
    /// The key-set document could not be fetched.
    FetchError(String),
    /// The key-set document is not a valid key set.
    JwksParseError(String),
    /// No key carries this identifier.
    KeyNotFound(String),
}

/// Whether a text is a key-set document; it depends on the text alone.
pub uninterp spec fn jwks_parses(text: Seq<char>) -> bool;

/// Relies on `serde_json::from_str::<JwkSet>`: parses a key-set document, or
/// reports the parser's message.
#[verifier::external_body]
fn parse_jwk_set(text: &str) -> (r: Result<JwkSet, String>)
    ensures
        r is Ok <==> jwks_parses(text@),
{
    serde_json::from_str::<JwkSet>(text).map_err(|e| e.to_string())
}

/// Parses a fetched key-set document into keys indexed by identifier.
pub fn parse_jwks(text: &str) -> (r: Result<KeysMap, KeysStorageError>)
    ensures
        r is Ok <==> jwks_parses(text@),
        r is Err ==> r matches Err(KeysStorageError::JwksParseError(_)),
{
    match parse_jwk_set(text) {
        Ok(set) => Ok(KeysMap::from_jwk_set(set)),
        Err(message) => Err(KeysStorageError::JwksParseError(message)),
    }
}

/// The decision for one key lookup.
pub enum KeyLookup<'a> {
    /// The key is cached.
    Found(&'a DecodingKey),
    /// The key is not cached and the cache is old enough to be refreshed:
    /// fetch the key set, hand it to `refreshed`, then call `lookup_after_refresh`.
    Refresh,
    /// The key is not cached and the cache is too young to be refreshed.
    NotFound,
}

/// The state of a key cache: cached keys, time of the last refresh, refresh interval.
pub type CacheState = (Map<Seq<char>, DecodingKey>, int, int);

/// The cache is older than its refresh interval at `now`.
pub open spec fn is_stale(state: CacheState, now: int) -> bool {
    state.1 + state.2 < now
}

/// The state after a refresh at `now` that brought `keys`: the keys are
/// replaced wholesale and the refresh time is `now`.
pub open spec fn after_refresh(state: CacheState, keys: Map<Seq<char>, DecodingKey>, now: int) -> CacheState {
    (keys, now, state.2)
}

/// What a lookup decides, without the key itself.
pub enum LookupKind {
    Hit,
    Refresh,
    Miss,
}

/// The decision of a lookup of `key_id` at `now`.
pub open spec fn lookup_kind(state: CacheState, key_id: Seq<char>, now: int) -> LookupKind {
    if state.0.contains_key(key_id) {
        LookupKind::Hit
    } else if is_stale(state, now) {
        LookupKind::Refresh
    } else {
        LookupKind::Miss
    }
}

impl<'a> KeyLookup<'a> {
    pub open spec fn kind(&self) -> LookupKind {
        match self {
            KeyLookup::Found(_) => LookupKind::Hit,
            KeyLookup::Refresh => LookupKind::Refresh,
            KeyLookup::NotFound => LookupKind::Miss,
        }
    }
}

/// A key that is not cached, looked up while the cache is younger than its
/// refresh interval, is refused at once: no refresh is asked for.
pub proof fn unseen_key_in_young_cache_is_refused(state: CacheState, key_id: Seq<char>, now: int)
    requires
        !state.0.contains_key(key_id),
        !is_stale(state, now),
    ensures
        lookup_kind(state, key_id, now) == LookupKind::Miss,
{
}

/// At most one refresh per interval: after a refresh at `now`, a key that the
/// refreshed set lacks is refused without a further refresh until the
/// interval has elapsed again.
pub proof fn one_refresh_per_interval(
    state: CacheState,
    keys: Map<Seq<char>, DecodingKey>,
    key_id: Seq<char>,
    now: int,
    later: int,
)
    requires
        state.2 >= 0,
        !keys.contains_key(key_id),
        now <= later <= now + state.2,
    ensures
        lookup_kind(after_refresh(state, keys, now), key_id, later) == LookupKind::Miss,
{
}

/// Once a refresh has brought a key, every later lookup of it, by any number
/// of callers, is served from the cache without another refresh.
pub proof fn refreshed_key_is_served(
    state: CacheState,
    keys: Map<Seq<char>, DecodingKey>,
    key_id: Seq<char>,
    now: int,
    later: int,
)
    requires
        keys.contains_key(key_id),
    ensures
        lookup_kind(after_refresh(state, keys, now), key_id, later) == LookupKind::Hit,
        after_refresh(state, keys, now).0[key_id] == keys[key_id],
{
}

/// The key cache: the keys of the last successful refresh, when that refresh
/// happened, and how long to wait before another refresh. Times are in
/// milliseconds since the Unix epoch.
pub struct KeysStorage {
    keys: KeysMap,
    last_jwks_fetch: i64,
    min_refresh_rate: i64,
}

impl KeysStorage {
    pub closed spec fn keys_map(&self) -> Map<Seq<char>, DecodingKey> {
        self.keys.view_map()
    }

    pub closed spec fn last_fetch(&self) -> int {
        self.last_jwks_fetch as int
    }

    pub closed spec fn refresh_interval(&self) -> int {
        self.min_refresh_rate as int
    }

    /// The cache is older than the refresh interval at `now`.
    pub open spec fn stale_at(&self, now: int) -> bool {
        is_stale(self.state(), now)
    }

    pub open spec fn state(&self) -> CacheState {
        (self.keys_map(), self.last_fetch(), self.refresh_interval())
    }

    /// An empty cache, last refreshed at the epoch.
    pub fn new(min_refresh_rate: i64) -> (r: KeysStorage)
        ensures
            r.keys_map() == Map::<Seq<char>, DecodingKey>::empty(),
            r.last_fetch() == 0,
            r.refresh_interval() == min_refresh_rate,
    {
        KeysStorage { keys: KeysMap::new(), last_jwks_fetch: 0, min_refresh_rate }
    }

    /// The configured refresh interval.
    pub fn min_refresh_rate(&self) -> (r: i64)
        ensures
            r == self.refresh_interval(),
    {
        self.min_refresh_rate
    }

    /// The number of cached keys.
    pub fn len(&self) -> (r: usize)
        ensures
            r == self.keys_map().dom().len(),
    {
        self.keys.len()
    }

    /// Whether the cache is older than the refresh interval at `now`.
    pub fn should_refresh(&self, now: i64) -> (r: bool)
        ensures
            r == self.stale_at(now as int),
    {
        (self.last_jwks_fetch as i128) + (self.min_refresh_rate as i128) < (now as i128)
    }

    /// Looks `key_id` up at time `now`: a cached key is returned at once;
    /// otherwise a refresh is asked for when the cache is stale, and the
    /// lookup fails when it is not.
    pub fn get(&self, key_id: &str, now: i64) -> (r: KeyLookup<'_>)
        ensures
            r.kind() == lookup_kind(self.state(), key_id@, now as int),
            match r {
                KeyLookup::Found(k) => self.keys_map().contains_key(key_id@) && self.keys_map()[key_id@] == *k,
                KeyLookup::Refresh => !self.keys_map().contains_key(key_id@) && self.stale_at(now as int),
                KeyLookup::NotFound => !self.keys_map().contains_key(key_id@) && !self.stale_at(now as int),
            },
    {
        match self.keys.get(key_id) {
            Some(k) => KeyLookup::Found(k),
            None => if self.should_refresh(now) {
                KeyLookup::Refresh
            } else {
                KeyLookup::NotFound
            },
        }
    }

    /// Takes the outcome of a refresh made at `now`. A fetched key set replaces
    /// the cached keys wholesale and becomes the last refresh; a failure leaves
    /// the cache as it was and is handed back, so the next lookup retries.
    pub fn refreshed(&mut self, fetched: Result<KeysMap, KeysStorageError>, now: i64) -> (r: Result<(), KeysStorageError>)
        ensures
            match fetched {
                Ok(m) => r is Ok && final(self).state() == after_refresh(old(self).state(), m.view_map(), now as int),
                Err(e) => r == Err::<(), KeysStorageError>(e) && final(self).state() == old(self).state(),
            },
    {
        match fetched {
            Ok(keys) => {
                self.keys = keys;
                self.last_jwks_fetch = now;
                Ok(())
            },
            Err(e) => Err(e),
        }
    }

    /// The second and last lookup of a key, after a refresh: no further refresh.
    pub fn lookup_after_refresh(&self, key_id: &str) -> (r: Result<&DecodingKey, KeysStorageError>)
        ensures
            match r {
                Ok(k) => self.keys_map().contains_key(key_id@) && self.keys_map()[key_id@] == *k,
                Err(e) => !self.keys_map().contains_key(key_id@) && (e matches KeysStorageError::KeyNotFound(id) && id@ == key_id@),
            },
    {
        match self.keys.get(key_id) {
            Some(k) => Ok(k),
            None => Err(KeysStorageError::KeyNotFound(key_id.to_string())),
        }
    }
}

} // verus!
