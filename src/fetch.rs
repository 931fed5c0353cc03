//! The decisions of one fetch: serve from the cache, wait for the rate limit,
//! or send the request.

use vstd::prelude::*;
use crate::ApiError;
use crate::cache::{Cache, lookup};
use crate::rate::rate_wait;
use crate::timeout::draw_in_range;

verus! {

/// What a fetch does next.
pub enum FetchStep {
    /// A valid cached response: return it, with no request and no rate-limit check.
    Cached(String),
    /// The rate limit is exhausted: sleep this many milliseconds, then plan again.
    Wait(u64),
    /// Send the request.
    Send,
}

/// `r` is the plan for a cache lookup that returned `found` and a rate-limit
/// answer `wait`: a cached response wins; without one the rate limit decides.
pub open spec fn planned(found: Option<String>, wait: Result<Option<u64>, ()>, r: Result<
    FetchStep,
    ApiError,
>) -> bool {
    match found {
        Some(v) => r == Ok::<FetchStep, ApiError>(FetchStep::Cached(v)),
        None => match wait {
            Ok(None) => r == Ok::<FetchStep, ApiError>(FetchStep::Send),
            Ok(Some(w)) => r == Ok::<FetchStep, ApiError>(FetchStep::Wait(w)),
            Err(_) => r matches Err(ApiError::SystemTime),
        },
    }
}

/// Plans a fetch of the normalised `url` at `now`: a valid cached response is
/// served first; otherwise the rate limit decides between waiting and sending.
pub fn plan_fetch(cache: &Cache, url: &String, now: u64) -> (r: Result<FetchStep, ApiError>)
    requires
        cache.wf(),
    ensures
        exists|d: u64|
            draw_in_range(cache.timeout_spec(), d) && planned(
                lookup(cache@, cache.timeout_spec(), url@, now, d),
                rate_wait(cache.stamps(), now),
                r,
            ),
{
    let found = cache.get(url, now);
    let ghost d = choose|d: u64|
        draw_in_range(cache.timeout_spec(), d) && found == lookup(
            cache@,
            cache.timeout_spec(),
            url@,
            now,
            d,
        );
    let r = match found {
        Some(v) => Ok(FetchStep::Cached(v)),
        None => match cache.rate_limited(now) {
            Ok(None) => Ok(FetchStep::Send),
            Ok(Some(w)) => Ok(FetchStep::Wait(w)),
            Err(e) => Err(e),
        },
    };
    proof {
        assert(draw_in_range(cache.timeout_spec(), d) && planned(
            lookup(cache@, cache.timeout_spec(), url@, now, d),
            rate_wait(cache.stamps(), now),
            r,
        ));
    }
    r
}

} // verus!
