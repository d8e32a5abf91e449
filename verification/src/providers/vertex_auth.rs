//! Bearer-token cache: a token is served while it stays valid beyond a
//! refresh margin; otherwise a new one must be fetched and stored.
//! Times are nanoseconds on a monotonic clock.
use vstd::prelude::*;

verus! {

/// A cached bearer token with its expiry.
#[derive(Debug, Clone)]
pub struct CachedToken {
    pub token: String,
    pub expires_at: u64,
}

/// The token cache of one credential.
#[derive(Debug)]
pub struct TokenCache {
    cached: Option<CachedToken>,
    refresh_margin: u64,
}

/// The cache as plain values.
pub struct TokenCacheView {
    /// The cached token and when it expires.
    pub cached: Option<(Seq<char>, u64)>,
    pub refresh_margin: u64,
}

impl View for TokenCache {
    type V = TokenCacheView;

    closed spec fn view(&self) -> TokenCacheView {
        TokenCacheView {
            cached: match self.cached {
                Some(c) => Some((c.token@, c.expires_at)),
                None => None,
            },
            refresh_margin: self.refresh_margin,
        }
    }
}

/// Sixty seconds.
pub const DEFAULT_REFRESH_MARGIN_NANOS: u64 = 60_000_000_000;

/// The token the cache serves at `now`: the cached one, if it expires more
/// than the margin after `now`.
pub open spec fn spec_fresh_token(c: TokenCacheView, now: u64) -> Option<Seq<char>> {
    match c.cached {
        Some((token, expires_at)) => if expires_at > now + c.refresh_margin {
            Some(token)
        } else {
            None
        },
        None => None,
    }
}

/// The cache after storing `token`, fetched at `now` and valid for `ttl`.
pub open spec fn spec_store(c: TokenCacheView, token: Seq<char>, now: u64, ttl: u64) -> TokenCacheView {
    TokenCacheView { cached: Some((token, (now + ttl) as u64)), ..c }
}

/// The text of a fetch result: a token with its lifetime, or the fetcher's error.
pub open spec fn fetch_view(outcome: Result<(String, u64), String>) -> Result<(Seq<char>, u64), Seq<char>> {
    match outcome {
        Ok((t, ttl)) => Ok((t@, ttl)),
        Err(e) => Err(e@),
    }
}

/// The cache and the answer after a fetch that ended at `now`: a fetched
/// token is stored and served; a failed fetch leaves the cache as it was and
/// passes the error on.
pub open spec fn spec_after_fetch(
    c: TokenCacheView,
    now: u64,
    outcome: Result<(Seq<char>, u64), Seq<char>>,
) -> (TokenCacheView, Result<Seq<char>, Seq<char>>) {
    match outcome {
        Ok((token, ttl)) => (spec_store(c, token, now, ttl), Ok(token)),
        Err(e) => (c, Err(e)),
    }
}

/// A whole token request: at `now` a fresh cached token is served without a
/// fetch (and the cache stays); otherwise the fetcher runs once, ending at
/// `fetched_at` with `outcome`. The third component says whether it ran.
pub open spec fn spec_token_call(
    c: TokenCacheView,
    now: u64,
    fetched_at: u64,
    outcome: Result<(Seq<char>, u64), Seq<char>>,
) -> (TokenCacheView, Result<Seq<char>, Seq<char>>, bool) {
    match spec_fresh_token(c, now) {
        Some(t) => (c, Ok(t), false),
        None => {
            let r = spec_after_fetch(c, fetched_at, outcome);
            (r.0, r.1, true)
        },
    }
}

impl TokenCache {
    /// An empty cache.
    pub fn new(refresh_margin: u64) -> (r: TokenCache)
        ensures
            r@.cached is None,
            r@.refresh_margin == refresh_margin,
    {
        TokenCache { cached: None, refresh_margin }
    }

    /// An empty cache refreshing sixty seconds before expiry.
    pub fn with_default_margin() -> (r: TokenCache)
        ensures
            r@.cached is None,
            r@.refresh_margin == DEFAULT_REFRESH_MARGIN_NANOS,
    {
        TokenCache::new(DEFAULT_REFRESH_MARGIN_NANOS)
    }

    /// The refresh margin.
    pub fn refresh_margin(&self) -> (r: u64)
        ensures
            r == self@.refresh_margin,
    {
        self.refresh_margin
    }

    /// The cached token if it is still fresh at `now`.
    pub fn fresh_token(&self, now: u64) -> (r: Option<String>)
        ensures
            (match r {
                Some(t) => Some(t@),
                None => None,
            }) == spec_fresh_token(self@, now),
    {
        match &self.cached {
            Some(c) => {
                if c.expires_at > now && c.expires_at - now > self.refresh_margin {
                    Some(c.token.clone())
                } else {
                    None
                }
            },
            None => None,
        }
    }

    /// Stores a token fetched at `now` that is valid for `ttl`; returns it.
    pub fn store(&mut self, token: String, now: u64, ttl: u64) -> (r: String)
        requires
            now + ttl <= u64::MAX,
        ensures
            final(self)@ == spec_store(old(self)@, token@, now, ttl),
            r@ == token@,
    {
        let served = token.clone();
        self.cached = Some(CachedToken { token, expires_at: now + ttl });
        served
    }

    /// Takes the result of a fetch that ended at `now`: stores and returns a
    /// fetched token; on a failed fetch returns the error and keeps the cache.
    pub fn after_fetch(&mut self, now: u64, outcome: Result<(String, u64), String>) -> (r: Result<
        String,
        String,
    >)
        requires
            outcome matches Ok((_, ttl)) ==> now + ttl <= u64::MAX,
        ensures
            (final(self)@, (match r {
                Ok(t) => Ok(t@),
                Err(e) => Err(e@),
            })) == spec_after_fetch(old(self)@, now, fetch_view(outcome)),
    {
        match outcome {
            Ok((token, ttl)) => Ok(self.store(token, now, ttl)),
            Err(e) => Err(e),
        }
    }
}

/// A token request: a fresh token is served from the cache without a fetch
/// and the cache stays; otherwise the fetcher runs once; a fetched token is
/// returned and cached until `fetched_at + ttl`, and a failed fetch returns
/// its error with the cache left as it was.
pub proof fn law_token_call(
    c: TokenCacheView,
    now: u64,
    fetched_at: u64,
    outcome: Result<(Seq<char>, u64), Seq<char>>,
)
    requires
        outcome matches Ok((_, ttl)) ==> fetched_at + ttl <= u64::MAX,
    ensures
        ({
            let (c2, r, fetched) = spec_token_call(c, now, fetched_at, outcome);
            &&& c.cached matches Some((tok, exp)) ==> (exp > now + c.refresh_margin ==> {
                &&& !fetched
                &&& r == Ok::<Seq<char>, Seq<char>>(tok)
                &&& c2 == c
            })
            &&& (c.cached is None || c.cached.unwrap().1 <= now + c.refresh_margin) ==> {
                &&& fetched
                &&& (outcome matches Ok((t, ttl)) ==> {
                    &&& r == Ok::<Seq<char>, Seq<char>>(t)
                    &&& c2.cached == Some((t, (fetched_at + ttl) as u64))
                    &&& c2.refresh_margin == c.refresh_margin
                })
                &&& (outcome matches Err(e) ==> r == Err::<Seq<char>, Seq<char>>(e) && c2 == c)
            }
        }),
{
}

/// A fetched token is served from the cache until it comes within the
/// refresh margin of its expiry: one fetch serves every call until then.
pub proof fn law_cached_token_is_served(
    c: TokenCacheView,
    token: Seq<char>,
    now: u64,
    ttl: u64,
    later: u64,
)
    requires
        now + ttl <= u64::MAX,
        later + c.refresh_margin < now + ttl,
    ensures
        spec_fresh_token(spec_store(c, token, now, ttl), later) == Some(token),
{
}

/// A token whose lifetime is not longer than the refresh margin is never
/// served from the cache: every later call fetches again.
pub proof fn law_short_lived_token_refetched(
    c: TokenCacheView,
    token: Seq<char>,
    now: u64,
    ttl: u64,
    later: u64,
)
    requires
        now + ttl <= u64::MAX,
        ttl <= c.refresh_margin,
        now <= later,
    ensures
        spec_fresh_token(spec_store(c, token, now, ttl), later) is None,
{
}

/// Storing keeps the refresh margin and replaces the cached token.
pub proof fn law_store_replaces(c: TokenCacheView, t1: Seq<char>, t2: Seq<char>, n1: u64, n2: u64, ttl1: u64, ttl2: u64)
    requires
        n1 + ttl1 <= u64::MAX,
        n2 + ttl2 <= u64::MAX,
    ensures
        spec_store(spec_store(c, t1, n1, ttl1), t2, n2, ttl2) == spec_store(c, t2, n2, ttl2),
{
}

} // verus!
