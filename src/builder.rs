//! The configuration of a client: user agent, API key, cache and retries.

use vstd::prelude::*;
use crate::ApiError;
use crate::cache::{Cache, CacheEntry, fresh_part};
use crate::keyed::entries_map;
use crate::rate::RATE_LIMIT_INTERVAL;
use crate::timeout::Timeout;

verus! {

/// A client configuration, built step by step.
#[derive(Debug)]
pub struct Builder {
    user_agent: String,
    api_key: Option<String>,
    cache: Cache,
    cache_path: Option<String>,
    num_tries: u8,
}

impl Builder {
    /// The internal invariant: a well-formed cache and at least one attempt per request.
    pub closed spec fn wf(&self) -> bool {
        self.cache.wf() && self.num_tries >= 1 && (self.cache_path is Some
            <==> self.cache.persistent_spec())
    }

    /// The `User-Agent` header value.
    pub closed spec fn user_agent_spec(&self) -> Seq<char> {
        self.user_agent@
    }

    /// The API key, for an authenticated client.
    pub closed spec fn api_key_spec(&self) -> Option<Seq<char>> {
        match self.api_key {
            Some(k) => Some(k@),
            None => None,
        }
    }

    /// The cache that the client will start with.
    pub closed spec fn cache_spec(&self) -> Cache {
        self.cache
    }

    /// The file that backs the cache, if any.
    pub closed spec fn cache_path_spec(&self) -> Option<Seq<char>> {
        match self.cache_path {
            Some(p) => Some(p@),
            None => None,
        }
    }

    /// The number of attempts per request.
    pub closed spec fn num_tries_spec(&self) -> u8 {
        self.num_tries
    }

    /// A configuration with the given user agent, no API key, an empty
    /// in-memory cache whose entries live for `RATE_LIMIT_INTERVAL`, and one
    /// attempt per request.
    pub fn new(user_agent: String) -> (r: Builder)
        ensures
            r.wf(),
            r.user_agent_spec() == user_agent@,
            r.api_key_spec() is None,
            r.cache_spec()@ == Map::<Seq<char>, CacheEntry>::empty(),
            r.cache_spec().timeout_spec() == Some(
                Timeout { low: RATE_LIMIT_INTERVAL, high: RATE_LIMIT_INTERVAL },
            ),
            r.cache_path_spec() is None,
            r.num_tries_spec() == 1,
    {
        Builder {
            user_agent,
            api_key: None,
            cache: Cache::empty(Some(Timeout::fixed(RATE_LIMIT_INTERVAL)), false),
            cache_path: None,
            num_tries: 1,
        }
    }

    /// The same configuration, authenticating with `api_key`.
    pub fn auth(self, api_key: String) -> (r: Builder)
        requires
            self.wf(),
        ensures
            r.wf(),
            r.api_key_spec() == Some(api_key@),
            r.user_agent_spec() == self.user_agent_spec(),
            r.cache_spec() == self.cache_spec(),
            r.cache_path_spec() == self.cache_path_spec(),
            r.num_tries_spec() == self.num_tries_spec(),
    {
        Builder { api_key: Some(api_key), ..self }
    }

    /// The same configuration with the expiry policy `timeout`; `None` keeps
    /// entries for the client's lifetime.
    pub fn cache_timeout(self, timeout: Option<Timeout>) -> (r: Builder)
        requires
            self.wf(),
        ensures
            r.wf(),
            r.cache_spec()@ == self.cache_spec()@,
            r.cache_spec().timeout_spec() == timeout,
            r.user_agent_spec() == self.user_agent_spec(),
            r.api_key_spec() == self.api_key_spec(),
            r.cache_path_spec() == self.cache_path_spec(),
            r.num_tries_spec() == self.num_tries_spec(),
    {
        let mut b = self;
        b.cache.set_timeout(timeout);
        b
    }

    /// The same configuration with a cache backed by the file at `path`,
    /// holding the `entries` read from it at `now` less those that are
    /// definitely invalid under the current expiry policy.
    pub fn disk_cache(self, path: String, entries: &Vec<(String, CacheEntry)>, now: u64) -> (r:
        Builder)
        requires
            self.wf(),
        ensures
            r.wf(),
            r.cache_spec()@ == fresh_part(
                entries_map(entries@),
                self.cache_spec().timeout_spec(),
                now,
            ),
            r.cache_spec().timeout_spec() == self.cache_spec().timeout_spec(),
            r.cache_path_spec() == Some(path@),
            r.user_agent_spec() == self.user_agent_spec(),
            r.api_key_spec() == self.api_key_spec(),
            r.num_tries_spec() == self.num_tries_spec(),
    {
        let mut cache = Cache::from_entries(entries, self.cache.timeout(), true);
        cache.retain_fresh(now);
        Builder { cache, cache_path: Some(path), ..self }
    }

    /// The same configuration with `num_tries` attempts per request; client
    /// errors are never retried. Zero attempts is refused.
    pub fn num_tries(self, num_tries: u8) -> (r: Result<Builder, ApiError>)
        requires
            self.wf(),
        ensures
            r is Ok <==> num_tries >= 1,
            r matches Err(e) ==> e is InvalidNumTries,
            r matches Ok(b) ==> {
                &&& b.wf()
                &&& b.num_tries_spec() == num_tries
                &&& b.user_agent_spec() == self.user_agent_spec()
                &&& b.api_key_spec() == self.api_key_spec()
                &&& b.cache_spec() == self.cache_spec()
                &&& b.cache_path_spec() == self.cache_path_spec()
            },
    {
        if num_tries == 0 {
            return Err(ApiError::InvalidNumTries);
        }
        Ok(Builder { num_tries, ..self })
    }

    /// The `User-Agent` header value.
    pub fn user_agent(&self) -> (r: &String)
        ensures
            r@ == self.user_agent_spec(),
    {
        &self.user_agent
    }

    /// The API key, if the client authenticates.
    pub fn api_key(&self) -> (r: Option<&String>)
        ensures
            r matches Some(k) ==> self.api_key_spec() == Some(k@),
            r is None ==> self.api_key_spec() is None,
    {
        match &self.api_key {
            Some(k) => Some(k),
            None => None,
        }
    }

    /// The file that backs the cache, if any.
    pub fn cache_path(&self) -> (r: Option<&String>)
        ensures
            r matches Some(p) ==> self.cache_path_spec() == Some(p@),
            r is None ==> self.cache_path_spec() is None,
    {
        match &self.cache_path {
            Some(p) => Some(p),
            None => None,
        }
    }

    /// The number of attempts per request.
    pub fn tries(&self) -> (r: u8)
        requires
            self.wf(),
        ensures
            r == self.num_tries_spec(),
            r >= 1,
    {
        self.num_tries
    }

    /// The configured cache, for the client to own.
    pub fn into_cache(self) -> (r: Cache)
        requires
            self.wf(),
        ensures
            r == self.cache_spec(),
            r.wf(),
    {
        self.cache
    }
}

} // verus!
