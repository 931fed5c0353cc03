//! Expiry policies for cached responses.
//!
//! All times are in milliseconds: instants since an arbitrary fixed epoch,
//! ages and durations as differences of such instants.

use vstd::prelude::*;

verus! {

/// The age window of a cache entry: definitely valid while younger than `low`,
/// definitely invalid from `high` on, and valid by chance in between, with a
/// probability that falls linearly from 1 at `low` to 0 at `high`.
#[derive(Clone, Copy, Debug, PartialEq, Eq)]
pub struct Timeout {
    pub low: u64,
    pub high: u64,
}

impl Timeout {
    /// Entries are valid while younger than `d`.
    pub fn fixed(d: u64) -> (r: Timeout)
        ensures
            r.low == d,
            r.high == d,
    {
        Timeout { low: d, high: d }
    }

    /// Entries are valid by chance while their age lies in `low..high`.
    pub fn range(low: u64, high: u64) -> (r: Timeout)
        ensures
            r.low == low,
            r.high == high,
    {
        Timeout { low, high }
    }

    /// Entries are valid by chance while younger than `high`, from age zero on.
    pub fn up_to(high: u64) -> (r: Timeout)
        ensures
            r.low == 0,
            r.high == high,
    {
        Timeout { low: 0, high }
    }
}

/// The age of an entry stamped at `ts`, seen at `now`; none for a stamp in the future.
pub open spec fn age(ts: u64, now: u64) -> Option<int> {
    if ts <= now {
        Some(now - ts)
    } else {
        None
    }
}

/// The entry is valid whatever the random draw.
pub open spec fn definitely_valid(t: Option<Timeout>, ts: u64, now: u64) -> bool {
    match t {
        None => true,
        Some(t) => ts <= now && now - ts < t.low,
    }
}

/// The entry is invalid whatever the random draw.
pub open spec fn definitely_invalid(t: Option<Timeout>, ts: u64, now: u64) -> bool {
    match t {
        None => false,
        Some(t) => ts > now || (now - ts >= t.low && now - ts >= t.high),
    }
}

/// The number of equally likely draws that decide an entry in the uncertain zone.
pub open spec fn draw_bound(t: Timeout) -> int {
    t.high - t.low
}

/// Validity of an entry for a draw `draw` taken uniformly from `0..draw_bound(t)`:
/// in the uncertain zone, `high - age` of the `high - low` draws keep it valid.
pub open spec fn valid_with_draw(t: Option<Timeout>, ts: u64, now: u64, draw: u64) -> bool {
    match t {
        None => true,
        Some(t) => ts <= now && (now - ts < t.low || (now - ts < t.high && draw < t.high - (
        now - ts))),
    }
}

/// A draw that can decide an entry under `t`.
pub open spec fn draw_in_range(t: Option<Timeout>, draw: u64) -> bool {
    match t {
        None => true,
        Some(t) => t.low < t.high ==> draw < draw_bound(t),
    }
}

/// Whether an entry stamped at `ts` is valid at `now` under `t`, given a draw
/// from `0..draw_bound`.
pub fn valid_for_draw(t: &Option<Timeout>, ts: u64, now: u64, draw: u64) -> (r: bool)
    ensures
        r == valid_with_draw(*t, ts, now, draw),
{
    match t {
        None => true,
        Some(t) => {
            if ts > now {
                false
            } else {
                let age = now - ts;
                age < t.low || (age < t.high && draw < t.high - age)
            }
        },
    }
}

/// Relies on rand's `Rng::gen_range` over `0..bound`, drawn from the thread's
/// generator: the result lies in the range.
#[verifier::external_body]
fn random_below(bound: u64) -> (r: u64)
    requires
        bound > 0,
    ensures
        r < bound,
{
    rand::Rng::gen_range(&mut rand::thread_rng(), 0..bound)
}

/// Whether an entry stamped at `ts` is valid at `now` under `t`. Outside the
/// uncertain zone the answer is fixed; inside it a uniform random draw decides,
/// so that the entry stays valid with probability `(high - age) / (high - low)`.
pub fn timestamp_is_valid(t: &Option<Timeout>, ts: u64, now: u64) -> (r: bool)
    ensures
        definitely_valid(*t, ts, now) ==> r,
        definitely_invalid(*t, ts, now) ==> !r,
        exists|d: u64| draw_in_range(*t, d) && r == valid_with_draw(*t, ts, now, d),
{
    let draw: u64 = match t {
        Some(tt) => {
            if ts <= now && tt.low <= now - ts && now - ts < tt.high {
                random_below(tt.high - tt.low)
            } else {
                0
            }
        },
        None => 0,
    };
    let r = valid_for_draw(t, ts, now, draw);
    proof {
        assert(draw_in_range(*t, draw) && r == valid_with_draw(*t, ts, now, draw));
    }
    r
}

/// A degenerate range `low..low` behaves exactly as `fixed(low)`: every entry
/// is decided without randomness, valid while younger than `low`.
pub proof fn lemma_degenerate_range_is_fixed(low: u64, ts: u64, now: u64, draw: u64)
    ensures
        definitely_valid(Some(Timeout { low, high: low }), ts, now) || definitely_invalid(
            Some(Timeout { low, high: low }),
            ts,
            now,
        ),
        valid_with_draw(Some(Timeout { low, high: low }), ts, now, draw) == valid_with_draw(
            Some(Timeout { low, high: low }),
            ts,
            now,
            0,
        ),
        valid_with_draw(Some(Timeout { low, high: low }), ts, now, draw) == (ts <= now && now - ts
            < low),
{
}

/// Under `fixed(d)` an entry stamped at `ts` is valid at `now` exactly while
/// `now - ts < d`, whatever the draw.
pub proof fn lemma_fixed_is_exact(d: u64, ts: u64, now: u64, draw: u64)
    requires
        ts <= now,
    ensures
        valid_with_draw(Some(Timeout { low: d, high: d }), ts, now, draw) == (now - ts < d),
        now - ts < d ==> definitely_valid(Some(Timeout { low: d, high: d }), ts, now),
        now - ts >= d ==> definitely_invalid(Some(Timeout { low: d, high: d }), ts, now),
{
}

/// An entry that is definitely valid (invalid) is valid (invalid) for every draw.
pub proof fn lemma_definite_ignores_draw(t: Option<Timeout>, ts: u64, now: u64, draw: u64)
    ensures
        definitely_valid(t, ts, now) ==> valid_with_draw(t, ts, now, draw),
        definitely_invalid(t, ts, now) ==> !valid_with_draw(t, ts, now, draw),
{
}

} // verus!
