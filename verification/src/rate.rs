//! Per-key token-bucket admission control.  Token counts are thousandths of a
//! token, so fractional refill rates stay exact; one admission costs 1000.

use vstd::prelude::*;

verus! {

use crate::assoc::{assoc_find, assoc_get, assoc_set};

pub const TOKEN_MILLI: u64 = 1000;

#[derive(Clone, Copy, Debug, PartialEq, Eq, Structural)]
pub struct Bucket {
    pub tokens_milli: u64,
    pub last_refill_ms: u64,
}

/// Mapping from key to its bucket, with the shared capacity and refill rate.
#[derive(Clone, Debug)]
pub struct RateLimiter {
    pub buckets: Vec<(String, Bucket)>,
    pub capacity_milli: u64,
    pub refill_per_sec_milli: u64,
}

impl View for RateLimiter {
    type V = Seq<(String, Bucket)>;

    open spec fn view(&self) -> Seq<(String, Bucket)> {
        self.buckets@
    }
}

/// The bucket consulted for a key: the stored one, or a full bucket minted at
/// the current instant on first use.
pub open spec fn bucket_of(
    buckets: Seq<(String, Bucket)>,
    key: Seq<char>,
    capacity_milli: u64,
    now_ms: u64,
) -> Bucket {
    match assoc_find(buckets, key) {
        Some(b) => b,
        None => Bucket { tokens_milli: capacity_milli, last_refill_ms: now_ms },
    }
}

/// A bucket after lazy refill at `now_ms`: elapsed time (under a monotonic
/// clock) earns `elapsed * rate / 1000` thousandths, clamped to capacity.
pub open spec fn refilled(b: Bucket, capacity_milli: u64, rate_milli: u64, now_ms: u64) -> Bucket {
    if now_ms > b.last_refill_ms {
        let earned = (now_ms - b.last_refill_ms) * rate_milli / 1000;
        let topped = if b.tokens_milli + earned > capacity_milli {
            capacity_milli as int
        } else {
            b.tokens_milli + earned
        };
        Bucket { tokens_milli: topped as u64, last_refill_ms: now_ms }
    } else {
        b
    }
}

/// Whether a refilled bucket admits one request.
pub open spec fn admits(b: Bucket) -> bool {
    b.tokens_milli >= TOKEN_MILLI
}

/// The bucket after a `check`: refilled, then one token drained on admission.
pub open spec fn bucket_after_check(
    b: Bucket,
    capacity_milli: u64,
    rate_milli: u64,
    now_ms: u64,
) -> Bucket {
    let r = refilled(b, capacity_milli, rate_milli, now_ms);
    if admits(r) {
        Bucket { tokens_milli: (r.tokens_milli - TOKEN_MILLI) as u64, last_refill_ms: r.last_refill_ms }
    } else {
        r
    }
}

impl RateLimiter {
    pub fn new(capacity_milli: u64, refill_per_sec_milli: u64) -> (r: Self)
        ensures
            r.buckets@.len() == 0,
            r.capacity_milli == capacity_milli,
            r.refill_per_sec_milli == refill_per_sec_milli,
    {
        RateLimiter { buckets: Vec::new(), capacity_milli, refill_per_sec_milli }
    }

    /// Admit or refuse one request under `key` at `now_ms`.  A fresh key
    /// starts with a full bucket; admission drains one token.
    pub fn check(&mut self, key: &str, now_ms: u64) -> (allowed: bool)
        ensures
            allowed == admits(
                refilled(
                    bucket_of(old(self)@, key@, old(self).capacity_milli, now_ms),
                    old(self).capacity_milli,
                    old(self).refill_per_sec_milli,
                    now_ms,
                ),
            ),
            assoc_find(final (self)@, key@) == Some(
                bucket_after_check(
                    bucket_of(old(self)@, key@, old(self).capacity_milli, now_ms),
                    old(self).capacity_milli,
                    old(self).refill_per_sec_milli,
                    now_ms,
                ),
            ),
            forall|k2: Seq<char>|
                k2 != key@ ==> assoc_find(final (self)@, k2) == assoc_find(old(self)@, k2),
            final (self).capacity_milli == old(self).capacity_milli,
            final (self).refill_per_sec_milli == old(self).refill_per_sec_milli,
    {
        let cap = self.capacity_milli;
        let rate = self.refill_per_sec_milli;
        let entry = match assoc_get(&self.buckets, key) {
            Some(b) => *b,
            None => Bucket { tokens_milli: cap, last_refill_ms: now_ms },
        };
        let refreshed = if now_ms > entry.last_refill_ms {
            proof {
                let e = (now_ms - entry.last_refill_ms) as int;
                let ri = rate as int;
                assert(e * ri >= 0) by (nonlinear_arith)
                    requires
                        e >= 0,
                        ri >= 0,
                ;
                assert(e * ri < 0x10000000000000000 * 0x10000000000000000) by (nonlinear_arith)
                    requires
                        0 <= e < 0x10000000000000000,
                        0 <= ri < 0x10000000000000000,
                ;
                assert(e * ri / 1000 <= e * ri) by (nonlinear_arith)
                    requires
                        e * ri >= 0,
                ;
            }
            let elapsed: u128 = (now_ms - entry.last_refill_ms) as u128;
            let earned: u128 = elapsed * (rate as u128) / 1000;
            let topped: u128 = if (entry.tokens_milli as u128) + earned > (cap as u128) {
                cap as u128
            } else {
                (entry.tokens_milli as u128) + earned
            };
            Bucket { tokens_milli: topped as u64, last_refill_ms: now_ms }
        } else {
            entry
        };
        proof {
            assert(refreshed == refilled(
                bucket_of(old(self)@, key@, cap, now_ms),
                cap,
                rate,
                now_ms,
            ));
        }
        if refreshed.tokens_milli >= TOKEN_MILLI {
            let drained = Bucket {
                tokens_milli: refreshed.tokens_milli - TOKEN_MILLI,
                last_refill_ms: refreshed.last_refill_ms,
            };
            assoc_set(&mut self.buckets, key, drained);
            true
        } else {
            assoc_set(&mut self.buckets, key, refreshed);
            false
        }
    }
}

} // verus!
