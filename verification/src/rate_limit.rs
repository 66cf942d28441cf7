//! The rate limiter's verdict and its table of per-client buckets: which
//! bucket a client has, and which buckets are dropped as stale. The token
//! counts themselves are fractional and are computed by the application.

use vstd::prelude::*;
use std::time::Duration;
use crate::named_map::{distinct_keys, find_key, key_index, lemma_key_index};
use crate::table::{fresh_at, lemma_filter_distinct, retain_fresh, sat_sub, Stamped};

verus! {

/// The verdict on one request.
#[derive(Debug, Clone, Copy, PartialEq, Eq)]
pub enum RateLimitResult {
    /// The request may proceed
    Allowed,
    /// The request is refused; a token is available after `retry_after`
    RateLimited {
        /// Time until the next token
        retry_after: Duration,
    },
}

impl RateLimitResult {
    /// Whether the request may proceed.
    pub fn is_allowed(&self) -> (r: bool)
        ensures
            r == (*self is Allowed),
    {
        match self {
            RateLimitResult::Allowed => true,
            RateLimitResult::RateLimited { .. } => false,
        }
    }

    /// How long to wait before retrying, for a refused request.
    pub fn retry_after(&self) -> (r: Option<Duration>)
        ensures
            match *self {
                RateLimitResult::Allowed => r is None,
                RateLimitResult::RateLimited { retry_after } => r == Some(retry_after),
            },
    {
        match self {
            RateLimitResult::Allowed => None,
            RateLimitResult::RateLimited { retry_after } => Some(*retry_after),
        }
    }
}

/// The bucket of one client and the time (µs) it was last updated.
#[derive(Debug, Clone)]
pub struct BucketSlot<B> {
    /// Time of the last update (microseconds on the limiter's clock)
    pub last_update_us: u64,
    /// The client's bucket
    pub bucket: B,
}

impl<B> Stamped for BucketSlot<B> {
    open spec fn stamp_spec(&self) -> u64 {
        self.last_update_us
    }

    fn stamp(&self) -> (r: u64) {
        self.last_update_us
    }
}

/// Whether the stale buckets are due to be dropped at `now_us`: the last
/// clean-up was `interval_us` or more before (a clock reading before the last
/// clean-up counts as no time passed).
pub fn cleanup_due(last_cleanup_us: u64, now_us: u64, interval_us: u64) -> (r: bool)
    ensures
        r == (sat_sub(now_us, last_cleanup_us) >= interval_us),
{
    now_us.saturating_sub(last_cleanup_us) >= interval_us
}

/// The buckets of a rate limiter, one per client address.
#[derive(Debug)]
pub struct BucketTable<B> {
    slots: Vec<(String, BucketSlot<B>)>,
}

impl<B> BucketTable<B> {
    /// The slots, by client address, in the order clients first came.
    pub closed spec fn slots_spec(&self) -> Seq<(String, BucketSlot<B>)> {
        self.slots@
    }

    /// Each client has at most one slot.
    pub open spec fn wf(&self) -> bool {
        distinct_keys(self.slots_spec())
    }

    /// A table with no client.
    pub fn new() -> (t: Self)
        ensures
            t.wf(),
            t.slots_spec().len() == 0,
    {
        BucketTable { slots: Vec::new() }
    }

    /// Number of clients with a bucket.
    pub fn tracked_count(&self) -> (n: usize)
        ensures
            n == self.slots_spec().len(),
    {
        self.slots.len()
    }

    /// The slot of `client`, if it has one.
    pub fn slot(&self, client: &str) -> (r: Option<&BucketSlot<B>>)
        ensures
            match r {
                Some(s) => key_index(self.slots_spec(), client@) >= 0
                    && *s == self.slots_spec()[key_index(self.slots_spec(), client@)].1,
                None => key_index(self.slots_spec(), client@) < 0,
            },
    {
        match find_key(&self.slots, client) {
            Some(i) => Some(&self.slots[i].1),
            None => None,
        }
    }

    /// Stores `bucket`, updated at `now_us`, as the bucket of `client`:
    /// replaces its slot in place, or adds one for a new client.
    pub fn store(&mut self, client: &str, now_us: u64, bucket: B)
        requires
            old(self).wf(),
        ensures
            final(self).wf(),
            ({
                let s = old(self).slots_spec();
                let i = key_index(s, client@);
                let slot = BucketSlot { last_update_us: now_us, bucket };
                if i >= 0 {
                    final(self).slots_spec() == s.update(i, (s[i].0, slot))
                } else {
                    &&& final(self).slots_spec().len() == s.len() + 1
                    &&& final(self).slots_spec().drop_last() == s
                    &&& final(self).slots_spec().last().0@ == client@
                    &&& final(self).slots_spec().last().1 == slot
                }
            }),
    {
        let ghost s = self.slots@;
        proof {
            lemma_key_index(s, client@);
        }
        let slot = BucketSlot { last_update_us: now_us, bucket };
        match find_key(&self.slots, client) {
            Some(i) => {
                let (key, _) = self.slots.remove(i);
                self.slots.insert(i, (key, slot));
                proof {
                    assert(self.slots@ =~= s.update(i as int, (s[i as int].0, slot)));
                    assert forall|x: int, y: int| 0 <= x < y < self.slots@.len()
                        implies self.slots@[x].0@ != self.slots@[y].0@ by {
                        assert(s[x].0@ != s[y].0@);
                    }
                }
            },
            None => {
                self.slots.push((client.to_owned(), slot));
                proof {
                    assert(self.slots@.drop_last() =~= s);
                    assert forall|x: int, y: int| 0 <= x < y < self.slots@.len()
                        implies self.slots@[x].0@ != self.slots@[y].0@ by {
                        if y == s.len() {
                            assert(s[x].0@ != client@);
                        } else {
                            assert(s[x].0@ != s[y].0@);
                        }
                    }
                }
            },
        }
    }

    /// Drops the buckets last updated `ttl_us` or more before `now_us`,
    /// keeping the order of the others.
    pub fn drop_stale(&mut self, now_us: u64, ttl_us: u64)
        requires
            old(self).wf(),
        ensures
            final(self).wf(),
            final(self).slots_spec() == old(self).slots_spec().filter(fresh_at(now_us, ttl_us)),
    {
        proof {
            lemma_filter_distinct(self.slots@, fresh_at::<BucketSlot<B>>(now_us, ttl_us));
        }
        retain_fresh(&mut self.slots, now_us, ttl_us);
    }
}

} // verus!
