//! The rate limit: at most `RATE_LIMIT_NUM_REQUESTS` requests started within
//! any trailing window of `RATE_LIMIT_INTERVAL` milliseconds.

use vstd::prelude::*;

verus! {

/// The maximum number of requests allowed within one `RATE_LIMIT_INTERVAL`.
pub const RATE_LIMIT_NUM_REQUESTS: usize = 100;

/// The length of the rate-limit window, in milliseconds.
pub const RATE_LIMIT_INTERVAL: u64 = 60_000;

/// A request started at `ts` still counts against the window at `now`; one
/// stamped in the future counts too.
pub open spec fn is_recent(ts: u64, now: u64) -> bool {
    ts > now || now - ts < RATE_LIMIT_INTERVAL
}

/// The number of requests in `s` that count against the window at `now`.
pub open spec fn recent_count(s: Seq<u64>, now: u64) -> nat
    decreases s.len(),
{
    if s.len() == 0 {
        0
    } else {
        recent_count(s.drop_last(), now) + if is_recent(s.last(), now) {
            1nat
        } else {
            0nat
        }
    }
}

/// The earliest of the requests in `s` that count against the window at `now`.
pub open spec fn oldest_recent(s: Seq<u64>, now: u64) -> Option<u64>
    decreases s.len(),
{
    if s.len() == 0 {
        None
    } else {
        let prev = oldest_recent(s.drop_last(), now);
        if is_recent(s.last(), now) {
            match prev {
                None => Some(s.last()),
                Some(m) => Some(
                    if s.last() < m {
                        s.last()
                    } else {
                        m
                    },
                ),
            }
        } else {
            prev
        }
    }
}

/// What the rate limit asks of a new request at `now`, given the start times
/// `s` of earlier ones: `Ok(None)` to proceed, `Ok(Some(d))` to wait `d`
/// milliseconds (until the oldest counted request leaves the window), and an
/// error when that request lies in the future.
pub open spec fn rate_wait(s: Seq<u64>, now: u64) -> Result<Option<u64>, ()> {
    if recent_count(s, now) < RATE_LIMIT_NUM_REQUESTS {
        Ok(None)
    } else {
        match oldest_recent(s, now) {
            Some(m) => if m <= now {
                Ok(Some((RATE_LIMIT_INTERVAL - (now - m)) as u64))
            } else {
                Err(())
            },
            None => Ok(None),
        }
    }
}

proof fn lemma_all_equal(s: Seq<u64>, t: u64, now: u64)
    requires
        forall|i: int| 0 <= i < s.len() ==> s[i] == t,
    ensures
        is_recent(t, now) ==> recent_count(s, now) == s.len(),
        is_recent(t, now) && s.len() > 0 ==> oldest_recent(s, now) == Some(t),
        !is_recent(t, now) ==> recent_count(s, now) == 0,
    decreases s.len(),
{
    if s.len() > 0 {
        lemma_all_equal(s.drop_last(), t, now);
    }
}

/// Once at least the quota of requests was started at one instant `t` still in
/// the window, a request at `now` must wait at most the window, and after that
/// wait the next one proceeds.
pub proof fn lemma_burst_waits_then_proceeds(s: Seq<u64>, t: u64, now: u64)
    requires
        s.len() >= RATE_LIMIT_NUM_REQUESTS,
        forall|i: int| 0 <= i < s.len() ==> s[i] == t,
        t <= now,
        now - t < RATE_LIMIT_INTERVAL,
        now + RATE_LIMIT_INTERVAL <= u64::MAX,
    ensures
        ({
            let d = (RATE_LIMIT_INTERVAL - (now - t)) as u64;
            &&& rate_wait(s, now) == Ok::<Option<u64>, ()>(Some(d))
            &&& 0 < d <= RATE_LIMIT_INTERVAL
            &&& rate_wait(s, (now + d) as u64) == Ok::<Option<u64>, ()>(None)
        }),
{
    let d = (RATE_LIMIT_INTERVAL - (now - t)) as u64;
    lemma_all_equal(s, t, now);
    lemma_all_equal(s, t, (now + d) as u64);
}

} // verus!
