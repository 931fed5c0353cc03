//! The response cache: at most one entry per normalised request URL, each
//! stamped with the time it was fetched.

use vstd::prelude::*;
use crate::ApiError;
use crate::keyed::{
    entries_map,
    keys_unique,
    lemma_entries_map_domain,
    lemma_entries_map_push,
    lemma_entries_map_remove,
    lemma_entries_map_update,
    lemma_entries_map_value,
};
use crate::rate::{is_recent, oldest_recent, rate_wait, recent_count, RATE_LIMIT_INTERVAL, RATE_LIMIT_NUM_REQUESTS};
use crate::timeout::{
    Timeout,
    definitely_invalid,
    definitely_valid,
    draw_in_range,
    timestamp_is_valid,
    valid_with_draw,
};

verus! {

/// A cached response and the time it was fetched.
#[derive(Debug, Clone)]
pub struct CacheEntry {
    pub timestamp: u64,
    /// The response body, as JSON text.
    pub data: String,
}

impl CacheEntry {
    /// A copy of this entry.
    pub fn duplicate(&self) -> (r: CacheEntry)
        ensures
            r == *self,
    {
        CacheEntry { timestamp: self.timestamp, data: self.data.clone() }
    }
}

/// What a lookup of `url` at `now` returns for the draw `draw`.
pub open spec fn lookup(
    m: Map<Seq<char>, CacheEntry>,
    t: Option<Timeout>,
    url: Seq<char>,
    now: u64,
    draw: u64,
) -> Option<String> {
    if m.contains_key(url) && valid_with_draw(t, m[url].timestamp, now, draw) {
        Some(m[url].data)
    } else {
        None
    }
}

/// The entries of `m` that are not definitely invalid at `now`.
pub open spec fn fresh_part(m: Map<Seq<char>, CacheEntry>, t: Option<Timeout>, now: u64) -> Map<
    Seq<char>,
    CacheEntry,
> {
    Map::new(
        |k: Seq<char>| m.contains_key(k) && !definitely_invalid(t, m[k].timestamp, now),
        |k: Seq<char>| m[k],
    )
}

/// The test that keeps an entry when loading: not definitely invalid at `now`.
pub open spec fn fresh_pred(t: Option<Timeout>, now: u64) -> spec_fn((String, CacheEntry)) -> bool {
    |p: (String, CacheEntry)| !definitely_invalid(t, p.1.timestamp, now)
}

proof fn lemma_fresh_filter(s: Seq<(String, CacheEntry)>, t: Option<Timeout>, now: u64)
    requires
        keys_unique(s),
    ensures
        keys_unique(s.filter(fresh_pred(t, now))),
        entries_map(s.filter(fresh_pred(t, now))) == fresh_part(entries_map(s), t, now),
    decreases s.len(),
{
    let pred = fresh_pred(t, now);
    reveal(Seq::filter);
    if s.len() == 0 {
        assert(s.filter(pred) =~= Seq::<(String, CacheEntry)>::empty());
        assert(fresh_part(entries_map(s), t, now) =~= Map::<Seq<char>, CacheEntry>::empty());
    } else {
        let dl = s.drop_last();
        let last = s.last();
        assert(keys_unique(dl));
        lemma_fresh_filter(dl, t, now);
        assert(s.filter(pred) == if pred(last) { dl.filter(pred).push(last) } else { dl.filter(pred) });
        assert forall|j: int| 0 <= j < dl.len() implies dl[j].0@ != last.0@ by {
            assert(s[j] == dl[j]);
        }
        lemma_entries_map_domain(dl, last.0@);
        if pred(last) {
            let f = dl.filter(pred);
            lemma_entries_map_domain(f, last.0@);
            assert forall|j: int| 0 <= j < f.len() implies f[j].0@ != last.0@ by {
                if f[j].0@ == last.0@ {
                    assert(entries_map(f).contains_key(last.0@));
                }
            }
            assert(dl.filter(pred).push(last).drop_last() =~= dl.filter(pred));
        }
        assert(entries_map(s.filter(pred)) =~= fresh_part(entries_map(s), t, now));
    }
}

/// `k` holds the oldest entry of `m`.
pub open spec fn is_oldest(m: Map<Seq<char>, CacheEntry>, k: Seq<char>) -> bool {
    m.contains_key(k) && forall|k2: Seq<char>|
        m.contains_key(k2) ==> m[k].timestamp <= #[trigger] m[k2].timestamp
}

/// The oldest entry of `m` has left the rate-limit window at `now`.
pub open spec fn oldest_expired(m: Map<Seq<char>, CacheEntry>, now: u64) -> bool {
    exists|k: Seq<char>|
        is_oldest(m, k) && m[k].timestamp <= now && now - m[k].timestamp >= RATE_LIMIT_INTERVAL
}

/// The response cache.
#[derive(Debug)]
pub struct Cache {
    entries: Vec<(String, CacheEntry)>,
    timeout: Option<Timeout>,
    changes: u8,
    persistent: bool,
}

/// The number of inserts after which a disk-backed cache is written out.
pub const PERSIST_THRESHOLD: u8 = 16;

impl Cache {
    /// The cached entries by URL.
    pub closed spec fn view(&self) -> Map<Seq<char>, CacheEntry> {
        entries_map(self.entries@)
    }

    /// The internal invariant: one entry per URL.
    pub closed spec fn wf(&self) -> bool {
        keys_unique(self.entries@)
    }

    /// The expiry policy.
    pub closed spec fn timeout_spec(&self) -> Option<Timeout> {
        self.timeout
    }

    /// The inserts since the cache was last written out.
    pub closed spec fn changes_spec(&self) -> u8 {
        self.changes
    }

    /// Whether the cache is backed by a file.
    pub closed spec fn persistent_spec(&self) -> bool {
        self.persistent
    }

    /// The request timestamps of the entries, in storage order.
    pub closed spec fn stamps(&self) -> Seq<u64> {
        self.entries@.map_values(|p: (String, CacheEntry)| p.1.timestamp)
    }

    /// An empty cache.
    pub fn empty(timeout: Option<Timeout>, persistent: bool) -> (r: Cache)
        ensures
            r.wf(),
            r@ == Map::<Seq<char>, CacheEntry>::empty(),
            r.timeout_spec() == timeout,
            r.persistent_spec() == persistent,
            r.changes_spec() == 0,
    {
        Cache { entries: Vec::new(), timeout, changes: 0, persistent }
    }

    /// The expiry policy.
    pub fn timeout(&self) -> (r: Option<Timeout>)
        ensures
            r == self.timeout_spec(),
    {
        self.timeout
    }

    /// The inserts since the cache was last written out.
    pub fn changes(&self) -> (r: u8)
        ensures
            r == self.changes_spec(),
    {
        self.changes
    }

    /// The position of `url` among the entries.
    fn position(&self, url: &String) -> (r: Option<usize>)
        requires
            self.wf(),
        ensures
            match r {
                Some(i) => i < self.entries@.len() && self.entries@[i as int].0@ == url@
                    && self@.contains_key(url@),
                None => !self@.contains_key(url@),
            },
    {
        let mut i: usize = 0;
        while i < self.entries.len()
            invariant
                i <= self.entries@.len(),
                forall|j: int| 0 <= j < i ==> self.entries@[j].0@ != url@,
            decreases self.entries@.len() - i,
        {
            if self.entries[i].0 == *url {
                proof {
                    lemma_entries_map_domain(self.entries@, url@);
                }
                return Some(i);
            }
            i += 1;
        }
        proof {
            lemma_entries_map_domain(self.entries@, url@);
        }
        None
    }

    /// The cached response for `url`, if there is one and it is valid at `now`.
    /// In the uncertain zone of the expiry policy a random draw decides.
    pub fn get(&self, url: &String, now: u64) -> (r: Option<String>)
        requires
            self.wf(),
        ensures
            !self@.contains_key(url@) ==> r is None,
            self@.contains_key(url@) && definitely_valid(
                self.timeout_spec(),
                self@[url@].timestamp,
                now,
            ) ==> r == Some(self@[url@].data),
            self@.contains_key(url@) && definitely_invalid(
                self.timeout_spec(),
                self@[url@].timestamp,
                now,
            ) ==> r is None,
            exists|d: u64|
                draw_in_range(self.timeout_spec(), d) && r == lookup(
                    self@,
                    self.timeout_spec(),
                    url@,
                    now,
                    d,
                ),
    {
        match self.position(url) {
            None => {
                proof {
                    assert(draw_in_range(self.timeout, 0) && lookup(self@, self.timeout, url@, now, 0) is None);
                }
                None
            },
            Some(i) => {
                let entry = &self.entries[i].1;
                proof {
                    lemma_entries_map_value(self.entries@, i as int);
                }
                let valid = timestamp_is_valid(&self.timeout, entry.timestamp, now);
                if valid {
                    Some(entry.data.clone())
                } else {
                    None
                }
            },
        }
    }

    /// Stores `entry` for `url`, replacing any earlier one, and counts the change.
    /// Returns whether a disk-backed cache is due to be written out; a cache
    /// without a file forgets its changes at the threshold.
    pub fn insert(&mut self, url: String, entry: CacheEntry) -> (persist_due: bool)
        requires
            old(self).wf(),
        ensures
            final(self).wf(),
            final(self)@ == old(self)@.insert(url@, entry),
            final(self).timeout_spec() == old(self).timeout_spec(),
            final(self).persistent_spec() == old(self).persistent_spec(),
            persist_due == (old(self).persistent_spec() && counted(old(self).changes_spec())
                >= PERSIST_THRESHOLD),
            final(self).changes_spec() == if !old(self).persistent_spec() && counted(
                old(self).changes_spec(),
            ) >= PERSIST_THRESHOLD {
                0
            } else {
                counted(old(self).changes_spec())
            },
    {
        let ghost key = url@;
        match self.position(&url) {
            Some(i) => {
                proof {
                    lemma_entries_map_update(self.entries@, i as int, (url, entry));
                }
                self.entries.set(i, (url, entry));
            },
            None => {
                proof {
                    lemma_entries_map_push(self.entries@, (url, entry));
                }
                self.entries.push((url, entry));
            },
        }
        if self.changes < 255 {
            self.changes = self.changes + 1;
        }
        if self.changes >= PERSIST_THRESHOLD {
            if self.persistent {
                return true;
            }
            self.changes = 0;
        }
        false
    }

    /// A cache holding the pairs of `entries`, a later pair winning over an
    /// earlier one for the same URL.
    pub fn from_entries(entries: &Vec<(String, CacheEntry)>, timeout: Option<Timeout>, persistent: bool) -> (r: Cache)
        ensures
            r.wf(),
            r@ == entries_map(entries@),
            r.timeout_spec() == timeout,
            r.persistent_spec() == persistent,
            r.changes_spec() == 0,
    {
        let mut c = Cache::empty(timeout, persistent);
        let mut i: usize = 0;
        while i < entries.len()
            invariant
                i <= entries@.len(),
                c.wf(),
                c@ == entries_map(entries@.take(i as int)),
                c.timeout_spec() == timeout,
                c.persistent_spec() == persistent,
                c.changes_spec() == 0,
            decreases entries@.len() - i,
        {
            let url = entries[i].0.clone();
            let entry = entries[i].1.duplicate();
            proof {
                assert(entries@.take(i + 1).drop_last() =~= entries@.take(i as int));
            }
            c.put(url, entry);
            i += 1;
        }
        proof {
            assert(entries@.take(entries@.len() as int) =~= entries@);
        }
        c
    }

    /// Stores `entry` for `url`, replacing any earlier one.
    fn put(&mut self, url: String, entry: CacheEntry)
        requires
            old(self).wf(),
        ensures
            final(self).wf(),
            final(self)@ == old(self)@.insert(url@, entry),
            final(self).timeout == old(self).timeout,
            final(self).persistent == old(self).persistent,
            final(self).changes == old(self).changes,
    {
        match self.position(&url) {
            Some(i) => {
                proof {
                    lemma_entries_map_update(self.entries@, i as int, (url, entry));
                }
                self.entries.set(i, (url, entry));
            },
            None => {
                proof {
                    lemma_entries_map_push(self.entries@, (url, entry));
                }
                self.entries.push((url, entry));
            },
        }
    }

    /// All entries, one pair per URL, for writing the cache out.
    pub fn export(&self) -> (r: Vec<(String, CacheEntry)>)
        requires
            self.wf(),
        ensures
            keys_unique(r@),
            entries_map(r@) == self@,
    {
        let mut r: Vec<(String, CacheEntry)> = Vec::new();
        let mut i: usize = 0;
        while i < self.entries.len()
            invariant
                i <= self.entries@.len(),
                r@ == self.entries@.take(i as int),
            decreases self.entries@.len() - i,
        {
            r.push((self.entries[i].0.clone(), self.entries[i].1.duplicate()));
            i += 1;
            proof {
                assert(r@ =~= self.entries@.take(i as int));
            }
        }
        proof {
            assert(r@ =~= self.entries@);
        }
        r
    }

    /// Drops the entries that are definitely invalid at `now`; no random draw
    /// is made.
    pub fn retain_fresh(&mut self, now: u64)
        requires
            old(self).wf(),
        ensures
            final(self).wf(),
            final(self)@ == fresh_part(old(self)@, old(self).timeout_spec(), now),
            final(self).timeout_spec() == old(self).timeout_spec(),
            final(self).persistent_spec() == old(self).persistent_spec(),
            final(self).changes_spec() == old(self).changes_spec(),
    {
        let ghost old_entries = self.entries@;
        let ghost pred = fresh_pred(self.timeout, now);
        let mut kept: Vec<(String, CacheEntry)> = Vec::new();
        let mut i: usize = 0;
        while i < self.entries.len()
            invariant
                self.entries@ == old_entries,
                pred == fresh_pred(self.timeout, now),
                i <= old_entries.len(),
                kept@ == old_entries.take(i as int).filter(pred),
            decreases old_entries.len() - i,
        {
            let ts = self.entries[i].1.timestamp;
            let dead = match &self.timeout {
                None => false,
                Some(tt) => ts > now || (now - ts >= tt.low && now - ts >= tt.high),
            };
            proof {
                assert(old_entries.take(i + 1).drop_last() =~= old_entries.take(i as int));
                assert(dead == !pred(old_entries[i as int]));
                reveal(Seq::filter);
            }
            if !dead {
                kept.push((self.entries[i].0.clone(), self.entries[i].1.duplicate()));
            }
            i += 1;
        }
        proof {
            assert(old_entries.take(old_entries.len() as int) =~= old_entries);
            lemma_fresh_filter(old_entries, self.timeout, now);
        }
        self.entries = kept;
    }

    /// Replaces the expiry policy.
    pub fn set_timeout(&mut self, timeout: Option<Timeout>)
        requires
            old(self).wf(),
        ensures
            final(self).wf(),
            final(self)@ == old(self)@,
            final(self).timeout_spec() == timeout,
            final(self).persistent_spec() == old(self).persistent_spec(),
            final(self).changes_spec() == old(self).changes_spec(),
    {
        self.timeout = timeout;
    }

    /// Whether a new request at `now` may proceed (`Ok(None)`) or must first
    /// wait the given number of milliseconds, judged from the fetch times of the
    /// cached entries. A counted request in the future is an error.
    pub fn rate_limited(&self, now: u64) -> (r: Result<Option<u64>, ApiError>)
        ensures
            rate_wait(self.stamps(), now) is Ok <==> r is Ok,
            r is Ok ==> r->Ok_0 == rate_wait(self.stamps(), now)->Ok_0,
            r is Err ==> r->Err_0 is SystemTime,
    {
        let ghost s = self.stamps();
        let mut count: usize = 0;
        let mut oldest: Option<u64> = None;
        let mut i: usize = 0;
        while i < self.entries.len()
            invariant
                s == self.stamps(),
                s.len() == self.entries@.len(),
                i <= s.len(),
                count as nat == recent_count(s.take(i as int), now),
                count <= i,
                oldest == oldest_recent(s.take(i as int), now),
            decreases s.len() - i,
        {
            let ts = self.entries[i].1.timestamp;
            proof {
                assert(s.take(i + 1).drop_last() =~= s.take(i as int));
                assert(s[i as int] == ts);
            }
            if ts > now || now - ts < RATE_LIMIT_INTERVAL {
                count += 1;
                oldest = match oldest {
                    None => Some(ts),
                    Some(m) => Some(if ts < m { ts } else { m }),
                };
            }
            i += 1;
        }
        proof {
            assert(s.take(s.len() as int) =~= s);
        }
        if count >= RATE_LIMIT_NUM_REQUESTS {
            match oldest {
                Some(m) => {
                    if m <= now {
                        proof {
                            lemma_oldest_is_recent(s, now);
                        }
                        Ok(Some(RATE_LIMIT_INTERVAL - (now - m)))
                    } else {
                        Err(ApiError::SystemTime)
                    }
                },
                None => Ok(None),
            }
        } else {
            Ok(None)
        }
    }

    /// The number of entries.
    pub closed spec fn entry_count(&self) -> nat {
        self.entries@.len()
    }

    /// The number of entries.
    pub fn len(&self) -> (r: usize)
        ensures
            r == self.entry_count(),
    {
        self.entries.len()
    }

    /// The position of the entry with the earliest timestamp.
    fn oldest_position(&self) -> (r: usize)
        requires
            self.entries@.len() > 0,
        ensures
            r < self.entries@.len(),
            forall|j: int|
                0 <= j < self.entries@.len() ==> self.entries@[r as int].1.timestamp
                    <= #[trigger] self.entries@[j].1.timestamp,
    {
        let mut best: usize = 0;
        let mut i: usize = 1;
        while i < self.entries.len()
            invariant
                1 <= i <= self.entries@.len(),
                best < i,
                forall|j: int|
                    0 <= j < i ==> self.entries@[best as int].1.timestamp
                        <= #[trigger] self.entries@[j].1.timestamp,
            decreases self.entries@.len() - i,
        {
            if self.entries[i].1.timestamp < self.entries[best].1.timestamp {
                best = i;
            }
            i += 1;
        }
        best
    }

    /// Stores `entry` for `url` as `insert` does, keeping a full cache
    /// bounded: when the cache already holds the quota of entries and `url` is
    /// new, the oldest entry is evicted first, but only once it has left the
    /// rate-limit window at `now`, so no entry that the rate limit still counts
    /// is dropped.
    pub fn insert_bounded(&mut self, url: String, entry: CacheEntry, now: u64) -> (persist_due: bool)
        requires
            old(self).wf(),
        ensures
            final(self).wf(),
            !(old(self).entry_count() >= RATE_LIMIT_NUM_REQUESTS && !old(self)@.contains_key(url@)
                && oldest_expired(old(self)@, now)) ==> final(self)@ == old(self)@.insert(url@, entry),
            old(self).entry_count() >= RATE_LIMIT_NUM_REQUESTS && !old(self)@.contains_key(url@)
                && oldest_expired(old(self)@, now) ==> exists|k: Seq<char>|
                is_oldest(old(self)@, k) && final(self)@ == old(self)@.remove(k).insert(url@, entry),
            final(self).timeout_spec() == old(self).timeout_spec(),
            final(self).persistent_spec() == old(self).persistent_spec(),
            persist_due == (old(self).persistent_spec() && counted(old(self).changes_spec())
                >= PERSIST_THRESHOLD),
            final(self).changes_spec() == if !old(self).persistent_spec() && counted(
                old(self).changes_spec(),
            ) >= PERSIST_THRESHOLD {
                0
            } else {
                counted(old(self).changes_spec())
            },
    {
        if self.entries.len() >= RATE_LIMIT_NUM_REQUESTS && self.position(&url).is_none() {
            let i = self.oldest_position();
            let ts = self.entries[i].1.timestamp;
            let ghost m = self@;
            let ghost k0 = self.entries@[i as int].0@;
            proof {
                lemma_entries_map_value(self.entries@, i as int);
                assert forall|k2: Seq<char>| m.contains_key(k2) implies m[k0].timestamp
                    <= #[trigger] m[k2].timestamp by {
                    lemma_entries_map_domain(self.entries@, k2);
                    let j = choose|j: int| 0 <= j < self.entries@.len() && self.entries@[j].0@ == k2;
                    lemma_entries_map_value(self.entries@, j);
                }
                assert(is_oldest(m, k0));
            }
            if ts <= now && now - ts >= RATE_LIMIT_INTERVAL {
                proof {
                    lemma_entries_map_remove(self.entries@, i as int);
                }
                self.entries.remove(i);
                let due = self.insert(url, entry);
                proof {
                    assert(is_oldest(m, k0) && self@ == m.remove(k0).insert(url@, entry));
                }
                return due;
            } else {
                proof {
                    assert forall|k: Seq<char>| is_oldest(m, k) implies !(m[k].timestamp <= now && now
                        - m[k].timestamp >= RATE_LIMIT_INTERVAL) by {
                        assert(m[k].timestamp <= m[k0].timestamp);
                        assert(m[k0].timestamp <= m[k].timestamp);
                    }
                }
            }
        }
        self.insert(url, entry)
    }

    /// Records that the cache was written out.
    pub fn mark_persisted(&mut self)
        requires
            old(self).wf(),
        ensures
            final(self).wf(),
            final(self)@ == old(self)@,
            final(self).timeout_spec() == old(self).timeout_spec(),
            final(self).persistent_spec() == old(self).persistent_spec(),
            final(self).changes_spec() == 0,
    {
        self.changes = 0;
    }
}

proof fn lemma_oldest_is_recent(s: Seq<u64>, now: u64)
    ensures
        oldest_recent(s, now) matches Some(m) ==> is_recent(m, now),
    decreases s.len(),
{
    if s.len() > 0 {
        lemma_oldest_is_recent(s.drop_last(), now);
    }
}

/// The change count after one more insert; it stops at the largest `u8`.
pub open spec fn counted(c: u8) -> u8 {
    if c < 255 {
        (c + 1) as u8
    } else {
        c
    }
}


/// Under `fixed(d)`, an entry inserted with stamp `ts` is returned by a lookup
/// at `now >= ts` exactly while `now - ts < d`, whatever the draw.
pub proof fn lemma_fixed_timeout_lookup(
    m: Map<Seq<char>, CacheEntry>,
    url: Seq<char>,
    entry: CacheEntry,
    d: u64,
    now: u64,
    draw: u64,
)
    requires
        entry.timestamp <= now,
    ensures
        lookup(m.insert(url, entry), Some(Timeout { low: d, high: d }), url, now, draw) == if now
            - entry.timestamp < d {
            Some(entry.data)
        } else {
            None::<String>
        },
{
}

/// Lookups of an entry that has not expired return the same stored value, at
/// any two such times and for any draws.
pub proof fn lemma_unexpired_lookup_is_stable(
    m: Map<Seq<char>, CacheEntry>,
    t: Option<Timeout>,
    url: Seq<char>,
    now1: u64,
    now2: u64,
    d1: u64,
    d2: u64,
)
    requires
        m.contains_key(url),
        definitely_valid(t, m[url].timestamp, now1),
        definitely_valid(t, m[url].timestamp, now2),
    ensures
        lookup(m, t, url, now1, d1) == Some(m[url].data),
        lookup(m, t, url, now1, d1) == lookup(m, t, url, now2, d2),
{
}

/// Reloading written-out entries under the same policy at `now` keeps every
/// lookup at `now` as it was: only entries that no lookup would return are dropped.
pub proof fn lemma_reload_keeps_lookups(
    m: Map<Seq<char>, CacheEntry>,
    t: Option<Timeout>,
    now: u64,
    url: Seq<char>,
    draw: u64,
)
    ensures
        lookup(fresh_part(m, t, now), t, url, now, draw) == lookup(m, t, url, now, draw),
{
}

} // verus!
