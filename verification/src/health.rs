//! Per-model health statistics: exponentially weighted moving averages of
//! latency, error rate and throughput, blended with integer arithmetic.
//! Error rates are parts per million; throughput is tokens per second.

use vstd::prelude::*;

verus! {

use crate::assoc::{assoc_find, assoc_get, assoc_set};
use crate::types::RouteFeedback;

pub const PPM: u32 = 1000000;

#[derive(Clone, Copy, Debug, PartialEq, Eq, Structural)]
pub struct HealthStats {
    pub p50_ms: u32,
    pub p95_ms: u32,
    pub err_rate_ppm: u32,
    pub tokens_per_sec: u32,
    pub last_update_ms: u64,
}

/// Bounds every stored entry keeps: the error rate is a proper fraction and
/// the throughput and latencies stay positive.
pub open spec fn wf_stats(s: HealthStats) -> bool {
    s.err_rate_ppm <= PPM && s.tokens_per_sec >= 1 && s.p50_ms >= 1 && s.p95_ms >= 1
}

/// Conservative starting point for a model that has no feedback yet.
pub open spec fn default_stats() -> HealthStats {
    HealthStats {
        p50_ms: 700,
        p95_ms: 2100,
        err_rate_ppm: 10000,
        tokens_per_sec: 300,
        last_update_ms: 0,
    }
}

/// EWMA step with weight `num/den`: move `prev` toward `obs` by that fraction
/// of the gap, rounding toward `prev`.
pub open spec fn blend_spec(prev: u32, obs: u32, num: u64, den: u64) -> u32 {
    if obs >= prev {
        (prev as int + (obs as int - prev as int) * (num as int) / (den as int)) as u32
    } else {
        (prev as int - (prev as int - obs as int) * (num as int) / (den as int)) as u32
    }
}

proof fn lemma_mul_bound(a: int, b: int, ca: int, cb: int)
    by (nonlinear_arith)
    requires
        0 <= a < ca,
        0 <= b < cb,
        ca >= 0,
        cb >= 0,
    ensures
        a * b < ca * cb,
{
}

proof fn lemma_div_bound(d: int, num: int, den: int)
    by (nonlinear_arith)
    requires
        d >= 0,
        0 <= num <= den,
        den >= 1,
    ensures
        d * num / den <= d,
        d * num / den >= 0,
{
}

proof fn lemma_shrink_keeps_one(prev: int, num: int, den: int)
    by (nonlinear_arith)
    requires
        prev >= 1,
        1 <= num < den,
    ensures
        prev * num / den <= prev - 1,
{
    assert(prev * num <= prev * den - prev);
}

/// The blend lands between the two operands.
pub proof fn lemma_blend_bounds(prev: u32, obs: u32, num: u64, den: u64)
    requires
        1 <= num < den,
    ensures
        blend_spec(prev, obs, num, den) <= if prev >= obs {
            prev
        } else {
            obs
        },
        blend_spec(prev, obs, num, den) >= if prev <= obs {
            prev
        } else {
            obs
        },
{
    if obs >= prev {
        lemma_div_bound(obs - prev, num as int, den as int);
    } else {
        lemma_div_bound(prev - obs, num as int, den as int);
    }
}

/// Blending toward any observation never drains a positive value to zero.
pub proof fn lemma_blend_positive(prev: u32, obs: u32, num: u64, den: u64)
    requires
        prev >= 1,
        1 <= num < den,
    ensures
        blend_spec(prev, obs, num, den) >= 1,
{
    if obs >= prev {
        lemma_blend_bounds(prev, obs, num, den);
    } else {
        let p = prev as int;
        let o = obs as int;
        let n = num as int;
        let d = den as int;
        lemma_div_bound(p - o, n, d);
        lemma_shrink_keeps_one(p, n, d);
        assert((p - o) * n <= p * n) by (nonlinear_arith)
            requires
                0 <= o,
                o <= p,
                n >= 0,
        ;
        assert((p - o) * n / d <= p * n / d) by (nonlinear_arith)
            requires
                (p - o) * n <= p * n,
                0 <= (p - o) * n,
                d >= 1,
        ;
    }
}

fn blend(prev: u32, obs: u32, num: u64, den: u64) -> (r: u32)
    requires
        1 <= num < den,
        den <= 1000,
    ensures
        r == blend_spec(prev, obs, num, den),
{
    if obs >= prev {
        proof {
            lemma_div_bound((obs - prev) as int, num as int, den as int);
            lemma_mul_bound(
                (obs - prev) as int,
                num as int,
                0x100000000,
                0x10000000000000000,
            );
        }
        let delta: u128 = ((obs - prev) as u128) * (num as u128) / (den as u128);
        prev + (delta as u32)
    } else {
        proof {
            lemma_div_bound((prev - obs) as int, num as int, den as int);
            lemma_mul_bound(
                (prev - obs) as int,
                num as int,
                0x100000000,
                0x10000000000000000,
            );
        }
        let delta: u128 = ((prev - obs) as u128) * (num as u128) / (den as u128);
        prev - (delta as u32)
    }
}

/// The p95 observation derived from one feedback: the observed duration with
/// a 1.3 margin, saturating.
pub open spec fn obs_p95_spec(duration_ms: u32) -> u32 {
    if (duration_ms as int) * 13 / 10 > u32::MAX {
        u32::MAX
    } else {
        ((duration_ms as int) * 13 / 10) as u32
    }
}

/// The throughput observation derived from one feedback, if it carries usage
/// and a positive duration: total tokens per second, saturating.
pub open spec fn obs_tps_spec(prompt: u32, completion: u32, duration_ms: u32) -> u32 {
    let tps = (prompt as int + completion as int) * 1000 / (duration_ms as int);
    if tps > u32::MAX {
        u32::MAX
    } else {
        tps as u32
    }
}

/// The stats after one feedback is blended in: latency with weight 1/5, p95
/// with weight 1/10 toward 1.3 times the observation, error rate with weight
/// 1/10 toward all-or-nothing, throughput with weight 1/5 when measurable.
pub open spec fn updated_stats(prev: HealthStats, fb: RouteFeedback, now_ms: u64) -> HealthStats {
    let err_obs: u32 = if fb.success {
        0u32
    } else {
        PPM
    };
    let tps = match fb.usage {
        Some(usage) => {
            if fb.duration_ms > 0 {
                blend_spec(
                    prev.tokens_per_sec,
                    obs_tps_spec(usage.prompt_tokens, usage.completion_tokens, fb.duration_ms),
                    1,
                    5,
                )
            } else {
                prev.tokens_per_sec
            }
        },
        None => prev.tokens_per_sec,
    };
    HealthStats {
        p50_ms: blend_spec(prev.p50_ms, fb.duration_ms, 1, 5),
        p95_ms: blend_spec(prev.p95_ms, obs_p95_spec(fb.duration_ms), 1, 10),
        err_rate_ppm: blend_spec(prev.err_rate_ppm, err_obs, 1, 10),
        tokens_per_sec: tps,
        last_update_ms: now_ms,
    }
}

/// An update keeps an entry well formed.
pub proof fn lemma_updated_stats_wf(prev: HealthStats, fb: RouteFeedback, now_ms: u64)
    requires
        wf_stats(prev),
    ensures
        wf_stats(updated_stats(prev, fb, now_ms)),
{
    let err_obs: u32 = if fb.success {
        0u32
    } else {
        PPM
    };
    lemma_blend_bounds(prev.err_rate_ppm, err_obs, 1, 10);
    lemma_blend_positive(prev.p50_ms, fb.duration_ms, 1, 5);
    lemma_blend_positive(prev.p95_ms, obs_p95_spec(fb.duration_ms), 1, 10);
    match fb.usage {
        Some(usage) => {
            if fb.duration_ms > 0 {
                lemma_blend_positive(
                    prev.tokens_per_sec,
                    obs_tps_spec(usage.prompt_tokens, usage.completion_tokens, fb.duration_ms),
                    1,
                    5,
                );
            }
        },
        None => {},
    }
}

/// Mapping from model id to its health statistics.
#[derive(Clone, Debug)]
pub struct HealthStore {
    pub entries: Vec<(String, HealthStats)>,
}

impl View for HealthStore {
    type V = Seq<(String, HealthStats)>;

    open spec fn view(&self) -> Seq<(String, HealthStats)> {
        self.entries@
    }
}

/// The stats recorded under an id, or the conservative default.
pub open spec fn stats_of(store: Seq<(String, HealthStats)>, id: Seq<char>) -> HealthStats {
    match assoc_find(store, id) {
        Some(s) => s,
        None => default_stats(),
    }
}

/// Every entry of the store is well formed.
pub open spec fn wf_store(store: Seq<(String, HealthStats)>) -> bool {
    forall|j: int| 0 <= j < store.len() ==> wf_stats(#[trigger] store[j].1)
}

pub proof fn lemma_stats_of_wf(store: Seq<(String, HealthStats)>, id: Seq<char>)
    requires
        wf_store(store),
    ensures
        wf_stats(stats_of(store, id)),
    decreases store.len(),
{
    if store.len() > 0 && store.first().0@ != id {
        lemma_stats_of_wf(store.drop_first(), id);
    }
}

impl HealthStore {
    pub fn new() -> (r: Self)
        ensures
            r@.len() == 0,
    {
        HealthStore { entries: Vec::new() }
    }

    /// A copy of the current stats for a model; the default if none recorded.
    pub fn snapshot(&self, model_id: &str) -> (r: HealthStats)
        ensures
            r == stats_of(self@, model_id@),
    {
        match assoc_get(&self.entries, model_id) {
            Some(stats) => *stats,
            None => HealthStats {
                p50_ms: 700,
                p95_ms: 2100,
                err_rate_ppm: 10000,
                tokens_per_sec: 300,
                last_update_ms: 0,
            },
        }
    }

    /// Blend one feedback into the entry for its model.  After any sequence
    /// of feedbacks the error rate stays a proper fraction and the throughput
    /// stays positive.
    pub fn update(&mut self, fb: &RouteFeedback, now_ms: u64)
        requires
            wf_store(old(self)@),
        ensures
            wf_store(final (self)@),
            stats_of(final (self)@, fb.model_id@) == updated_stats(
                stats_of(old(self)@, fb.model_id@),
                *fb,
                now_ms,
            ),
            forall|id: Seq<char>|
                id != fb.model_id@ ==> stats_of(final (self)@, id) == stats_of(old(self)@, id),
    {
        let prev = self.snapshot(fb.model_id.as_str());
        let err_obs: u32 = if fb.success {
            0
        } else {
            PPM
        };
        let duration = fb.duration_ms;
        let p95_obs_wide: u64 = (duration as u64) * 13 / 10;
        let p95_obs: u32 = if p95_obs_wide > (u32::MAX as u64) {
            u32::MAX
        } else {
            p95_obs_wide as u32
        };
        let tps = match &fb.usage {
            Some(usage) => {
                if duration > 0 {
                    let total: u64 = (usage.prompt_tokens as u64) + (usage.completion_tokens
                        as u64);
                    let tps_wide: u64 = total * 1000 / (duration as u64);
                    let tps_obs: u32 = if tps_wide > (u32::MAX as u64) {
                        u32::MAX
                    } else {
                        tps_wide as u32
                    };
                    assert(tps_obs == obs_tps_spec(
                        usage.prompt_tokens,
                        usage.completion_tokens,
                        duration,
                    ));
                    blend(prev.tokens_per_sec, tps_obs, 1, 5)
                } else {
                    prev.tokens_per_sec
                }
            },
            None => prev.tokens_per_sec,
        };
        let next = HealthStats {
            p50_ms: blend(prev.p50_ms, duration, 1, 5),
            p95_ms: blend(prev.p95_ms, p95_obs, 1, 10),
            err_rate_ppm: blend(prev.err_rate_ppm, err_obs, 1, 10),
            tokens_per_sec: tps,
            last_update_ms: now_ms,
        };
        proof {
            lemma_stats_of_wf(self@, fb.model_id@);
            lemma_updated_stats_wf(prev, *fb, now_ms);
            assert(next == updated_stats(prev, *fb, now_ms));
        }
        assoc_set(&mut self.entries, fb.model_id.as_str(), next);
    }
}

} // verus!
