//! Candidate filtering, cost and latency estimation, and scoring.  Scores are
//! integers in nano-units (thousandth-weight times millionth-fit), so the
//! whole pipeline is exact.

use vstd::prelude::*;

verus! {

use crate::compile::{CompiledAlias, CompiledCatalog, CompiledModel, ModelStatus};
use crate::embedding::CanonicalSelection;
use crate::health::{stats_of, HealthStats, HealthStore};
use crate::masks::{mask_contains, mask_intersects, contains_mask, intersects_mask, REGION_GLOBAL};
use crate::text::{eq_ignore_case, lower_eq};
use crate::types::{PolicyDefaults, PolicyWeights};

pub const RATIO_CAP_MICRO: i64 = 1500000;

pub const MICRO: i64 = 1000000;

/// One surviving candidate: its catalog index, its position in the alias
/// candidate list, and its estimates.
#[derive(Clone, Copy, Debug, PartialEq, Eq, Structural)]
pub struct Candidate {
    pub model_idx: usize,
    pub pos: usize,
    pub score_nano: i64,
    pub est_cost_micro: u64,
    pub est_latency_ms: u32,
    pub penalty_milli: u32,
}

/// Tokens served from the prompt cache: 40 percent of the prompt, rounded to
/// nearest.
pub open spec fn cached_tokens_spec(in_tokens: u32, use_cache: bool) -> int {
    if use_cache {
        (4 * in_tokens + 5) / 10
    } else {
        0
    }
}

/// Estimated cost in micro-units: cached, normal and output tokens each at
/// their per-million price, floored per component.
pub open spec fn est_cost_spec(
    input_price: u64,
    output_price: u64,
    cached_price: u64,
    in_tokens: u32,
    out_tokens: u32,
    use_cache: bool,
) -> int {
    let cached = cached_tokens_spec(in_tokens, use_cache);
    let normal = in_tokens - cached;
    cached * cached_price / 1000000 + normal * input_price / 1000000 + out_tokens * output_price
        / 1000000
}

/// Estimate the cost of a call to `m`, saturating at the largest expressible
/// amount.
pub fn estimate_cost_micro(m: &CompiledModel, in_tokens: u32, out_tokens: u32, use_cache: bool) -> (
    r: u64)
    ensures
        r == if est_cost_spec(
            m.input_price,
            m.output_price,
            m.cached_price,
            in_tokens,
            out_tokens,
            use_cache,
        ) > u64::MAX {
            u64::MAX as int
        } else {
            est_cost_spec(
                m.input_price,
                m.output_price,
                m.cached_price,
                in_tokens,
                out_tokens,
                use_cache,
            )
        },
{
    let cached: u64 = if use_cache {
        ((4 * (in_tokens as u64)) + 5) / 10
    } else {
        0
    };
    let normal: u64 = (in_tokens as u64) - cached;
    proof {
        lemma_mul_u64_fits(cached as int, m.cached_price as int);
        lemma_mul_u64_fits(normal as int, m.input_price as int);
        lemma_mul_u64_fits(out_tokens as int, m.output_price as int);
    }
    let cached_cost: u128 = (cached as u128) * (m.cached_price as u128) / 1000000;
    let normal_cost: u128 = (normal as u128) * (m.input_price as u128) / 1000000;
    let out_cost: u128 = (out_tokens as u128) * (m.output_price as u128) / 1000000;
    let total: u128 = cached_cost + normal_cost + out_cost;
    if total > (u64::MAX as u128) {
        u64::MAX
    } else {
        total as u64
    }
}

/// Estimated latency in milliseconds: base latency plus generation time at
/// the observed throughput, capped at 1.5 times the latency target.
pub open spec fn est_latency_spec(m: CompiledModel, stats: HealthStats, in_tokens: u32, out_tokens: u32) -> int {
    let throughput: int = if stats.tokens_per_sec >= 60 {
        stats.tokens_per_sec as int
    } else {
        60
    };
    let gen_ms = (in_tokens + out_tokens) * 1000 / throughput;
    let base: int = if stats.p50_ms >= m.base_latency_ms {
        stats.p50_ms as int
    } else {
        m.base_latency_ms as int
    };
    let target: int = if m.target_latency_ms >= 1 {
        m.target_latency_ms as int
    } else {
        1
    };
    let cap = target * 3 / 2;
    if base + gen_ms <= cap {
        base + gen_ms
    } else {
        cap
    }
}

/// Estimate the latency of a call to `m`, saturating at `u32::MAX`.
pub fn estimate_latency(m: &CompiledModel, stats: &HealthStats, in_tokens: u32, out_tokens: u32) -> (
    r: u32)
    ensures
        r == if est_latency_spec(*m, *stats, in_tokens, out_tokens) > u32::MAX {
            u32::MAX as int
        } else {
            est_latency_spec(*m, *stats, in_tokens, out_tokens)
        },
{
    let throughput: u64 = if stats.tokens_per_sec >= 60 {
        stats.tokens_per_sec as u64
    } else {
        60
    };
    let gen_ms: u64 = ((in_tokens as u64) + (out_tokens as u64)) * 1000 / throughput;
    let base: u64 = if stats.p50_ms >= m.base_latency_ms {
        stats.p50_ms as u64
    } else {
        m.base_latency_ms as u64
    };
    let target: u64 = if m.target_latency_ms >= 1 {
        m.target_latency_ms as u64
    } else {
        1
    };
    let cap: u64 = target * 3 / 2;
    let latency: u64 = if base + gen_ms <= cap {
        base + gen_ms
    } else {
        cap
    };
    if latency > (u32::MAX as u64) {
        u32::MAX
    } else {
        latency as u32
    }
}

/// `value/norm` in millionths, capped at 1.5; an absent or zero norm reads as
/// beyond the cap.
pub open spec fn ratio_micro_spec(value: int, norm: int) -> int {
    if norm <= 0 {
        RATIO_CAP_MICRO as int
    } else if value * 1000000 / norm > RATIO_CAP_MICRO {
        RATIO_CAP_MICRO as int
    } else {
        value * 1000000 / norm
    }
}

fn ratio_micro(value: u64, norm: u64) -> (r: i64)
    ensures
        r == ratio_micro_spec(value as int, norm as int),
{
    if norm == 0 {
        RATIO_CAP_MICRO
    } else {
        let wide: u128 = (value as u128) * 1000000 / (norm as u128);
        if wide > (RATIO_CAP_MICRO as u128) {
            RATIO_CAP_MICRO
        } else {
            wide as i64
        }
    }
}

/// A tag list carries a tag, compared ignoring ASCII case.
pub open spec fn has_tag_spec(tags: Seq<String>, t: Seq<char>) -> bool {
    exists|i: int| 0 <= i < tags.len() && lower_eq((#[trigger] tags[i])@, t)
}

pub fn has_tag(tags: &Vec<String>, t: &str) -> (r: bool)
    ensures
        r == has_tag_spec(tags@, t@),
{
    let mut i: usize = 0;
    while i < tags.len()
        invariant
            i <= tags@.len(),
            forall|j: int| 0 <= j < i ==> !lower_eq((#[trigger] tags@[j])@, t@),
        decreases tags@.len() - i,
    {
        if eq_ignore_case(tags[i].as_str(), t) {
            assert(lower_eq(tags@[i as int]@, t@));
            return true;
        }
        i = i + 1;
    }
    false
}

/// The health fitness in millionths: one minus five times the error rate,
/// clamped to the unit interval.
pub open spec fn fit_health_spec(err_rate_ppm: u32) -> int {
    if 1000000 - err_rate_ppm * 5 < 0 {
        0
    } else {
        1000000 - err_rate_ppm * 5
    }
}

/// The context fitness in millionths: context window over needed tokens plus
/// headroom, capped at one.
pub open spec fn fit_context_spec(context_tokens: u32, in_tokens: u32, out_tokens: u32) -> int {
    let need = in_tokens + out_tokens + 32;
    if context_tokens * 1000000 / need > 1000000 {
        1000000
    } else {
        context_tokens * 1000000 / need
    }
}

/// The score of a candidate, in nano-units: the four weighted fitness terms,
/// a tier bonus under boost or a `tier:T1` tag, a penalty when degraded, and
/// the canonical hint's score when it names this model.
pub open spec fn score_spec(
    m: CompiledModel,
    stats: HealthStats,
    weights: PolicyWeights,
    defaults: PolicyDefaults,
    est_cost: u64,
    est_latency: u32,
    in_tokens: u32,
    out_tokens: u32,
    boost: bool,
    canonical_bonus_micro: u32,
) -> int {
    let cost_ratio = ratio_micro_spec(est_cost as int, defaults.cost_norm_micro as int);
    let latency_ratio = ratio_micro_spec(est_latency as int, defaults.latency_ms as int);
    let base = weights.cost_milli * (1000000 - cost_ratio) + weights.latency_milli * (1000000
        - latency_ratio) + weights.health_milli * fit_health_spec(stats.err_rate_ppm)
        + weights.context_milli * fit_context_spec(m.context_tokens, in_tokens, out_tokens);
    let with_bonus = if boost || has_tag_spec(m.policy_tags@, "tier:T1"@) {
        base + weights.tier_bonus_milli * 1000000
    } else {
        base
    };
    let with_penalty = if m.status == ModelStatus::Degraded {
        with_bonus - 50000000
    } else {
        with_bonus
    };
    with_penalty + canonical_bonus_micro * 1000
}

proof fn lemma_mul_u64_fits(a: int, b: int)
    by (nonlinear_arith)
    requires
        0 <= a < 0x10000000000000000,
        0 <= b < 0x10000000000000000,
    ensures
        0 <= a * b < 0x100000000000000000000000000000000,
{
}

proof fn lemma_weight_term_bounds(w: u32, fit: int)
    by (nonlinear_arith)
    requires
        -500000 <= fit <= 1000000,
    ensures
        -2200000000000000 <= w * fit <= 4300000000000000,
{
}

/// Compute a candidate's score.
pub fn compute_score(
    m: &CompiledModel,
    stats: &HealthStats,
    weights: &PolicyWeights,
    defaults: &PolicyDefaults,
    est_cost: u64,
    est_latency: u32,
    in_tokens: u32,
    out_tokens: u32,
    boost: bool,
    canonical_bonus_micro: u32,
) -> (r: i64)
    requires
        canonical_bonus_micro <= 1000000,
    ensures
        r == score_spec(
            *m,
            *stats,
            *weights,
            *defaults,
            est_cost,
            est_latency,
            in_tokens,
            out_tokens,
            boost,
            canonical_bonus_micro,
        ),
{
    let cost_ratio: i64 = ratio_micro(est_cost, defaults.cost_norm_micro);
    let latency_ratio: i64 = ratio_micro(est_latency as u64, defaults.latency_ms as u64);
    let fit_health: i64 = if (stats.err_rate_ppm as i64) * 5 > 1000000 {
        0
    } else {
        1000000 - (stats.err_rate_ppm as i64) * 5
    };
    let need: u64 = (in_tokens as u64) + (out_tokens as u64) + 32;
    let fit_wide: u64 = ((m.context_tokens as u64) * 1000000) / need;
    let fit_context: i64 = if fit_wide > 1000000 {
        1000000
    } else {
        fit_wide as i64
    };
    proof {
        assert(0 <= cost_ratio <= RATIO_CAP_MICRO);
        assert(0 <= latency_ratio <= RATIO_CAP_MICRO);
        assert(0 <= fit_health <= 1000000);
        assert(0 <= fit_context <= 1000000);
        lemma_weight_term_bounds(weights.cost_milli, 1000000 - cost_ratio);
        lemma_weight_term_bounds(weights.latency_milli, 1000000 - latency_ratio);
        lemma_weight_term_bounds(weights.health_milli, fit_health as int);
        lemma_weight_term_bounds(weights.context_milli, fit_context as int);
        lemma_weight_term_bounds(weights.tier_bonus_milli, 1000000);
    }
    let mut score: i64 = (weights.cost_milli as i64) * (1000000 - cost_ratio) + (
    weights.latency_milli as i64) * (1000000 - latency_ratio) + (weights.health_milli as i64)
        * fit_health + (weights.context_milli as i64) * fit_context;
    if boost || has_tag(&m.policy_tags, "tier:T1") {
        score = score + (weights.tier_bonus_milli as i64) * 1000000;
    }
    if matches!(m.status, ModelStatus::Degraded) {
        score = score - 50000000;
    }
    score + (canonical_bonus_micro as i64) * 1000
}


/// A prompt cache is used when the model supports it and the conversation
/// context (prior turns or a plan token) warrants it.
pub open spec fn use_cache_spec(m: CompiledModel, cache_ctx: bool) -> bool {
    mask_contains(m.capabilities, crate::masks::CAP_PROMPT_CACHE) && cache_ctx
}

/// The saturated cost estimate a candidate carries.
pub open spec fn cand_cost_spec(m: CompiledModel, in_tokens: u32, out_tokens: u32, cache_ctx: bool) -> int {
    let est = est_cost_spec(
        m.input_price,
        m.output_price,
        m.cached_price,
        in_tokens,
        out_tokens,
        use_cache_spec(m, cache_ctx),
    );
    if est > u64::MAX {
        u64::MAX as int
    } else {
        est
    }
}

/// The saturated latency estimate a candidate carries.
pub open spec fn cand_latency_spec(m: CompiledModel, stats: HealthStats, in_tokens: u32, out_tokens: u32) -> int {
    let est = est_latency_spec(m, stats, in_tokens, out_tokens);
    if est > u32::MAX {
        u32::MAX as int
    } else {
        est
    }
}

/// The canonical bonus a model receives: the hint's score (at most one) when
/// the hint names this model.
pub open spec fn bonus_spec(canonical: Option<CanonicalSelection>, id: Seq<char>) -> u32 {
    match canonical {
        Some(sel) => {
            if sel.model_id@ == id {
                if sel.score_micro > 1000000 {
                    1000000u32
                } else {
                    sel.score_micro
                }
            } else {
                0u32
            }
        },
        None => 0u32,
    }
}

pub open spec fn tier_view(t: Option<&String>) -> Option<Seq<char>> {
    match t {
        Some(s) => Some(s@),
        None => None,
    }
}

pub open spec fn canon_view(c: Option<&CanonicalSelection>) -> Option<CanonicalSelection> {
    match c {
        Some(sel) => Some(*sel),
        None => None,
    }
}

/// The candidate filter: capability superset, region overlap on both the
/// alias and the model (or a global model), context window room, not
/// offline, the forced tier's tag if any, and the budget and latency caps if
/// the request set them.
pub open spec fn passes_filter(
    m: CompiledModel,
    stats: HealthStats,
    alias: CompiledAlias,
    caps_mask: u32,
    region_mask: u32,
    in_tokens: u32,
    out_tokens: u32,
    forced_tier: Option<Seq<char>>,
    budget_micro: Option<u64>,
    p95_cap: Option<u32>,
    cache_ctx: bool,
) -> bool {
    &&& mask_contains(m.capabilities, caps_mask | alias.require_caps)
    &&& mask_intersects(alias.allowed_regions, region_mask)
    &&& (mask_intersects(region_mask, m.regions) || mask_contains(m.regions, REGION_GLOBAL))
    &&& m.context_tokens >= in_tokens + out_tokens
    &&& m.status != ModelStatus::Offline
    &&& (forced_tier matches Some(t) ==> has_tag_spec(m.policy_tags@, t))
    &&& (budget_micro matches Some(b) ==> cand_cost_spec(m, in_tokens, out_tokens, cache_ctx) <= b)
    &&& (p95_cap matches Some(cap) ==> cand_latency_spec(m, stats, in_tokens, out_tokens) <= cap)
}

/// A candidate record is exactly what its alias position and model warrant.
pub open spec fn cand_ok(
    c: Candidate,
    alias: CompiledAlias,
    models: Seq<CompiledModel>,
    health: Seq<(String, HealthStats)>,
    weights: PolicyWeights,
    defaults: PolicyDefaults,
    caps_mask: u32,
    region_mask: u32,
    in_tokens: u32,
    out_tokens: u32,
    boost: bool,
    forced_tier: Option<Seq<char>>,
    canonical: Option<CanonicalSelection>,
    cache_ctx: bool,
    budget_micro: Option<u64>,
    p95_cap: Option<u32>,
) -> bool {
    &&& c.pos < alias.candidates@.len()
    &&& c.model_idx == alias.candidates@[c.pos as int]
    &&& c.model_idx < models.len()
    &&& {
        let m = models[c.model_idx as int];
        let stats = stats_of(health, m.id@);
        &&& passes_filter(
            m,
            stats,
            alias,
            caps_mask,
            region_mask,
            in_tokens,
            out_tokens,
            forced_tier,
            budget_micro,
            p95_cap,
            cache_ctx,
        )
        &&& c.est_cost_micro == cand_cost_spec(m, in_tokens, out_tokens, cache_ctx)
        &&& c.est_latency_ms == cand_latency_spec(m, stats, in_tokens, out_tokens)
        &&& c.score_nano == score_spec(
            m,
            stats,
            weights,
            defaults,
            c.est_cost_micro,
            c.est_latency_ms,
            in_tokens,
            out_tokens,
            boost,
            bonus_spec(canonical, m.id@),
        )
        &&& c.penalty_milli == (if m.status == ModelStatus::Degraded {
            100u32
        } else {
            0u32
        })
    }
}

/// Descending score, ties by alias position.
pub open spec fn sorted_desc(s: Seq<Candidate>) -> bool {
    forall|a: int, b: int|
        0 <= a < b < s.len() ==> (#[trigger] s[a]).score_nano > (#[trigger] s[b]).score_nano || (
        s[a].score_nano == s[b].score_nano && s[a].pos < s[b].pos)
}

/// Insert a candidate into a run sorted by descending score, after every
/// entry scoring at least as much (all of which carry smaller positions).
fn insert_sorted(v: &mut Vec<Candidate>, c: Candidate)
    requires
        sorted_desc(old(v)@),
        forall|j: int| 0 <= j < old(v)@.len() ==> (#[trigger] old(v)@[j]).pos < c.pos,
    ensures
        sorted_desc(final (v)@),
        final (v)@.len() == old(v)@.len() + 1,
        forall|j: int|
            0 <= j < final (v)@.len() ==> final (v)@[j] == c || (exists|i: int|
                0 <= i < old(v)@.len() && final (v)@[j] == #[trigger] old(v)@[i]),
        exists|j: int| 0 <= j < final (v)@.len() && final (v)@[j] == c,
        forall|i: int|
            0 <= i < old(v)@.len() ==> exists|j: int|
                0 <= j < final (v)@.len() && final (v)@[j] == #[trigger] old(v)@[i],
{
    let mut p: usize = 0;
    while p < v.len() && v[p].score_nano >= c.score_nano
        invariant
            p <= v@.len(),
            forall|j: int| 0 <= j < p ==> (#[trigger] v@[j]).score_nano >= c.score_nano,
            v == old(v),
        decreases v@.len() - p,
    {
        p = p + 1;
    }
    let ghost sold = v@;
    let ghost gp = p as int;
    v.insert(p, c);
    proof {
        assert(v@ == sold.insert(gp, c));
        assert(forall|j: int| 0 <= j < gp ==> v@[j] == sold[j]);
        assert(v@[gp] == c);
        assert(forall|j: int| gp < j < v@.len() ==> v@[j] == sold[j - 1]);
        assert forall|a: int, b: int| 0 <= a < b < v@.len() implies (#[trigger] v@[a]).score_nano
            > (#[trigger] v@[b]).score_nano || (v@[a].score_nano == v@[b].score_nano && v@[a].pos
            < v@[b].pos) by {
            if a < gp && b == gp {
                assert(v@[a] == sold[a]);
            } else if a == gp && b > gp {
                assert(v@[b] == sold[b - 1]);
                assert(gp < sold.len() + 1);
                assert(sold[b - 1].score_nano < c.score_nano || b - 1 >= gp);
                if gp < sold.len() {
                    assert(sold[gp].score_nano < c.score_nano);
                    if b - 1 == gp {
                    } else {
                        assert(sold[gp].score_nano > sold[b - 1].score_nano || (sold[gp].score_nano
                            == sold[b - 1].score_nano && sold[gp].pos < sold[b - 1].pos));
                    }
                }
            } else if a < gp && b > gp {
                assert(v@[a] == sold[a]);
                assert(v@[b] == sold[b - 1]);
            } else if a > gp && b > gp {
                assert(v@[a] == sold[a - 1]);
                assert(v@[b] == sold[b - 1]);
            } else if a < gp && b < gp {
                assert(v@[a] == sold[a]);
                assert(v@[b] == sold[b]);
            }
        }
        assert forall|i: int| 0 <= i < sold.len() implies exists|j: int|
            0 <= j < v@.len() && v@[j] == #[trigger] sold[i] by {
            if i < gp {
                assert(v@[i] == sold[i]);
            } else {
                assert(v@[i + 1] == sold[i]);
            }
        }
    }
}

/// Filter and score the alias's candidates.  The result holds exactly the
/// candidates that pass the filter, each with its exact estimates and score,
/// ordered by descending score with ties in candidate-list order.
#[verifier::rlimit(80)]
pub fn score_candidates(
    alias: &CompiledAlias,
    catalog: &CompiledCatalog,
    health: &HealthStore,
    weights: &PolicyWeights,
    defaults: &PolicyDefaults,
    caps_mask: u32,
    in_tokens: u32,
    out_tokens: u32,
    region_mask: u32,
    boost: bool,
    forced_tier: Option<&String>,
    canonical: Option<&CanonicalSelection>,
    cache_ctx: bool,
    budget_micro: Option<u64>,
    p95_cap: Option<u32>,
) -> (r: Vec<Candidate>)
    requires
        forall|k: int|
            0 <= k < alias.candidates@.len() ==> (#[trigger] alias.candidates@[k])
                < catalog.models@.len(),
    ensures
        forall|j: int|
            0 <= j < r@.len() ==> cand_ok(
                #[trigger] r@[j],
                *alias,
                catalog.models@,
                health@,
                *weights,
                *defaults,
                caps_mask,
                region_mask,
                in_tokens,
                out_tokens,
                boost,
                tier_view(forced_tier),
                canon_view(canonical),
                cache_ctx,
                budget_micro,
                p95_cap,
            ),
        forall|k: int|
            0 <= k < alias.candidates@.len() && passes_filter(
                catalog.models@[#[trigger] alias.candidates@[k] as int],
                stats_of(health@, catalog.models@[alias.candidates@[k] as int].id@),
                *alias,
                caps_mask,
                region_mask,
                in_tokens,
                out_tokens,
                tier_view(forced_tier),
                budget_micro,
                p95_cap,
                cache_ctx,
            ) ==> exists|j: int| 0 <= j < r@.len() && (#[trigger] r@[j]).pos == k,
        sorted_desc(r@),
{
    let mut result: Vec<Candidate> = Vec::new();
    let mut k: usize = 0;
    while k < alias.candidates.len()
        invariant
            k <= alias.candidates@.len(),
            forall|k2: int|
                0 <= k2 < alias.candidates@.len() ==> (#[trigger] alias.candidates@[k2])
                    < catalog.models@.len(),
            forall|j: int|
                0 <= j < result@.len() ==> cand_ok(
                    #[trigger] result@[j],
                    *alias,
                    catalog.models@,
                    health@,
                    *weights,
                    *defaults,
                    caps_mask,
                    region_mask,
                    in_tokens,
                    out_tokens,
                    boost,
                    tier_view(forced_tier),
                    canon_view(canonical),
                    cache_ctx,
                    budget_micro,
                    p95_cap,
                ),
            forall|j: int| 0 <= j < result@.len() ==> (#[trigger] result@[j]).pos < k,
            forall|k2: int|
                0 <= k2 < k && passes_filter(
                    catalog.models@[#[trigger] alias.candidates@[k2] as int],
                    stats_of(health@, catalog.models@[alias.candidates@[k2] as int].id@),
                    *alias,
                    caps_mask,
                    region_mask,
                    in_tokens,
                    out_tokens,
                    tier_view(forced_tier),
                    budget_micro,
                    p95_cap,
                    cache_ctx,
                ) ==> exists|j: int| 0 <= j < result@.len() && (#[trigger] result@[j]).pos == k2,
            sorted_desc(result@),
        decreases alias.candidates@.len() - k,
    {
        let idx = alias.candidates[k];
        let m = &catalog.models[idx];
        let ghost gm = catalog.models@[idx as int];
        let mut pass = contains_mask(m.capabilities, caps_mask | alias.require_caps);
        if pass {
            pass = intersects_mask(alias.allowed_regions, region_mask);
        }
        if pass {
            pass = intersects_mask(region_mask, m.regions) || contains_mask(
                m.regions,
                REGION_GLOBAL,
            );
        }
        if pass {
            pass = (m.context_tokens as u64) >= (in_tokens as u64) + (out_tokens as u64);
        }
        if pass {
            pass = !matches!(m.status, ModelStatus::Offline);
        }
        if pass {
            pass = match forced_tier {
                Some(t) => has_tag(&m.policy_tags, t.as_str()),
                None => true,
            };
        }
        if pass {
            let use_cache = contains_mask(m.capabilities, crate::masks::CAP_PROMPT_CACHE)
                && cache_ctx;
            let est_cost = estimate_cost_micro(m, in_tokens, out_tokens, use_cache);
            let budget_ok = match budget_micro {
                Some(b) => est_cost <= b,
                None => true,
            };
            if budget_ok {
                let stats = health.snapshot(m.id.as_str());
                let est_latency = estimate_latency(m, &stats, in_tokens, out_tokens);
                let latency_ok = match p95_cap {
                    Some(cap) => est_latency <= cap,
                    None => true,
                };
                if latency_ok {
                    let bonus: u32 = match canonical {
                        Some(sel) => {
                            if crate::text::str_eq(sel.model_id.as_str(), m.id.as_str()) {
                                if sel.score_micro > 1000000 {
                                    1000000
                                } else {
                                    sel.score_micro
                                }
                            } else {
                                0
                            }
                        },
                        None => 0,
                    };
                    let score = compute_score(
                        m,
                        &stats,
                        weights,
                        defaults,
                        est_cost,
                        est_latency,
                        in_tokens,
                        out_tokens,
                        boost,
                        bonus,
                    );
                    let cand = Candidate {
                        model_idx: idx,
                        pos: k,
                        score_nano: score,
                        est_cost_micro: est_cost,
                        est_latency_ms: est_latency,
                        penalty_milli: if matches!(m.status, ModelStatus::Degraded) {
                            100
                        } else {
                            0
                        },
                    };
                    proof {
                        assert(passes_filter(
                            gm,
                            stats_of(health@, gm.id@),
                            *alias,
                            caps_mask,
                            region_mask,
                            in_tokens,
                            out_tokens,
                            tier_view(forced_tier),
                            budget_micro,
                            p95_cap,
                            cache_ctx,
                        ));
                        assert(cand_ok(
                            cand,
                            *alias,
                            catalog.models@,
                            health@,
                            *weights,
                            *defaults,
                            caps_mask,
                            region_mask,
                            in_tokens,
                            out_tokens,
                            boost,
                            tier_view(forced_tier),
                            canon_view(canonical),
                            cache_ctx,
                            budget_micro,
                            p95_cap,
                        ));
                    }
                    let ghost sbefore = result@;
                    insert_sorted(&mut result, cand);
                    proof {
                        assert forall|k2: int|
                            0 <= k2 < k + 1 && passes_filter(
                                catalog.models@[#[trigger] alias.candidates@[k2] as int],
                                stats_of(
                                    health@,
                                    catalog.models@[alias.candidates@[k2] as int].id@,
                                ),
                                *alias,
                                caps_mask,
                                region_mask,
                                in_tokens,
                                out_tokens,
                                tier_view(forced_tier),
                                budget_micro,
                                p95_cap,
                                cache_ctx,
                            ) implies exists|j: int|
                            0 <= j < result@.len() && (#[trigger] result@[j]).pos == k2 by {
                            if k2 == k {
                                let j = choose|j: int|
                                    0 <= j < result@.len() && result@[j] == cand;
                                assert(result@[j].pos == k2);
                            } else {
                                let j0 = choose|j: int|
                                    0 <= j < sbefore.len() && (#[trigger] sbefore[j]).pos == k2;
                                let j1 = choose|j: int|
                                    0 <= j < result@.len() && result@[j] == sbefore[j0];
                                assert(result@[j1].pos == k2);
                            }
                        }
                    }
                    k = k + 1;
                    continue ;
                }
            }
        }
        proof {
            assert(!passes_filter(
                gm,
                stats_of(health@, gm.id@),
                *alias,
                caps_mask,
                region_mask,
                in_tokens,
                out_tokens,
                tier_view(forced_tier),
                budget_micro,
                p95_cap,
                cache_ctx,
            ));
        }
        k = k + 1;
    }
    result
}


/// The first candidate whose model carries the sticky model id, if any.
pub open spec fn find_sticky_spec(cands: Seq<Candidate>, models: Seq<CompiledModel>, model_id: Seq<char>) -> Option<int>
    decreases cands.len(),
{
    if cands.len() == 0 {
        None
    } else if cands.first().model_idx < models.len() && models[cands.first().model_idx as int].id@
        == model_id {
        Some(0)
    } else {
        match find_sticky_spec(cands.drop_first(), models, model_id) {
            Some(i) => Some(i + 1),
            None => None,
        }
    }
}

/// Which candidate becomes primary: a surviving sticky match for the same
/// alias is preferred; otherwise the top-scored candidate; none if none
/// survive.
pub open spec fn choose_primary_spec(
    cands: Seq<Candidate>,
    models: Seq<CompiledModel>,
    sticky: Option<(Seq<char>, Seq<char>)>,
    alias: Seq<char>,
) -> Option<int> {
    let sticky_pick = match sticky {
        Some((claims_alias, claims_model)) => {
            if claims_alias == alias {
                find_sticky_spec(cands, models, claims_model)
            } else {
                None
            }
        },
        None => None,
    };
    match sticky_pick {
        Some(i) => Some(i),
        None => if cands.len() > 0 {
            Some(0)
        } else {
            None
        },
    }
}

/// Choose the primary candidate.  `sticky` carries the verified claims'
/// alias and model id.
pub fn choose_primary(
    cands: &Vec<Candidate>,
    catalog: &CompiledCatalog,
    sticky: Option<(&String, &String)>,
    alias_name: &str,
) -> (r: Option<usize>)
    ensures
        match r {
            Some(i) => i < cands@.len() && Some(i as int) == choose_primary_spec(
                cands@,
                catalog.models@,
                match sticky {
                    Some((a, m)) => Some((a@, m@)),
                    None => None,
                },
                alias_name@,
            ),
            None => choose_primary_spec(
                cands@,
                catalog.models@,
                match sticky {
                    Some((a, m)) => Some((a@, m@)),
                    None => None,
                },
                alias_name@,
            ) is None,
        },
{
    if let Some((claims_alias, claims_model)) = sticky {
        if crate::text::str_eq(claims_alias.as_str(), alias_name) {
            let mut i: usize = 0;
            while i < cands.len()
                invariant
                    i <= cands@.len(),
                    claims_alias@ == alias_name@,
                    sticky == Some((claims_alias, claims_model)),
                    forall|j: int|
                        0 <= j < i ==> !((#[trigger] cands@[j]).model_idx < catalog.models@.len()
                            && catalog.models@[cands@[j].model_idx as int].id@ == claims_model@),
                decreases cands@.len() - i,
            {
                let idx = cands[i].model_idx;
                if idx < catalog.models.len() {
                    if crate::text::str_eq(catalog.models[idx].id.as_str(), claims_model.as_str()) {
                        proof {
                            lemma_find_sticky_at(cands@, catalog.models@, claims_model@, i as int);
                            assert(find_sticky_spec(cands@, catalog.models@, claims_model@)
                                == Some(i as int));
                            assert(claims_alias@ == alias_name@);
                            assert(choose_primary_spec(
                                cands@,
                                catalog.models@,
                                Some((claims_alias@, claims_model@)),
                                alias_name@,
                            ) == Some(i as int));
                        }
                        return Some(i);
                    }
                }
                i = i + 1;
            }
            proof {
                lemma_find_sticky_none(cands@, catalog.models@, claims_model@);
            }
            if cands.len() > 0 {
                return Some(0);
            }
            return None;
        }
    }
    if cands.len() > 0 {
        Some(0)
    } else {
        None
    }
}

proof fn lemma_find_sticky_at(
    cands: Seq<Candidate>,
    models: Seq<CompiledModel>,
    model_id: Seq<char>,
    i: int,
)
    requires
        0 <= i < cands.len(),
        cands[i].model_idx < models.len(),
        models[cands[i].model_idx as int].id@ == model_id,
        forall|j: int|
            0 <= j < i ==> !((#[trigger] cands[j]).model_idx < models.len()
                && models[cands[j].model_idx as int].id@ == model_id),
    ensures
        find_sticky_spec(cands, models, model_id) == Some(i),
    decreases i,
{
    if i == 0 {
    } else {
        assert(cands.drop_first()[i - 1] == cands[i]);
        assert(forall|j: int|
            0 <= j < i - 1 ==> #[trigger] cands.drop_first()[j] == cands[j + 1]);
        lemma_find_sticky_at(cands.drop_first(), models, model_id, i - 1);
    }
}

proof fn lemma_find_sticky_none(
    cands: Seq<Candidate>,
    models: Seq<CompiledModel>,
    model_id: Seq<char>,
)
    requires
        forall|j: int|
            0 <= j < cands.len() ==> !((#[trigger] cands[j]).model_idx < models.len()
                && models[cands[j].model_idx as int].id@ == model_id),
    ensures
        find_sticky_spec(cands, models, model_id) is None,
    decreases cands.len(),
{
    if cands.len() > 0 {
        assert(forall|j: int|
            0 <= j < cands.drop_first().len() ==> #[trigger] cands.drop_first()[j] == cands[j + 1]);
        lemma_find_sticky_none(cands.drop_first(), models, model_id);
    }
}

/// Up to `budget` candidates, in order, whose model id is not yet excluded;
/// each pick excludes its own id, so the picked ids are pairwise distinct.
pub open spec fn fallback_picks(
    cands: Seq<Candidate>,
    models: Seq<CompiledModel>,
    excluded: Seq<Seq<char>>,
    budget: int,
) -> Seq<Candidate>
    decreases cands.len(),
{
    if cands.len() == 0 || budget <= 0 {
        Seq::empty()
    } else if cands.first().model_idx < models.len() && !excluded.contains(
        models[cands.first().model_idx as int].id@,
    ) {
        seq![cands.first()] + fallback_picks(
            cands.drop_first(),
            models,
            excluded.push(models[cands.first().model_idx as int].id@),
            budget - 1,
        )
    } else {
        fallback_picks(cands.drop_first(), models, excluded, budget)
    }
}

/// Whether a model id was already taken.
fn id_taken(taken: &Vec<String>, id: &str) -> (r: bool)
    ensures
        r == exists|i: int| 0 <= i < taken@.len() && (#[trigger] taken@[i])@ == id@,
{
    let mut i: usize = 0;
    while i < taken.len()
        invariant
            i <= taken@.len(),
            forall|j: int| 0 <= j < i ==> (#[trigger] taken@[j])@ != id@,
        decreases taken@.len() - i,
    {
        if crate::text::str_eq(taken[i].as_str(), id) {
            assert(taken@[i as int]@ == id@);
            return true;
        }
        i = i + 1;
    }
    false
}

/// Pick up to three next-best candidates with pairwise distinct model ids,
/// none of them the primary's.
pub fn build_fallbacks(
    cands: &Vec<Candidate>,
    catalog: &CompiledCatalog,
    primary_id: &str,
) -> (r: Vec<Candidate>)
    ensures
        r@ == fallback_picks(cands@, catalog.models@, seq![primary_id@], 3),
        forall|j: int|
            0 <= j < r@.len() ==> exists|i: int|
                0 <= i < cands@.len() && #[trigger] r@[j] == cands@[i],
        forall|j: int|
            0 <= j < r@.len() ==> (#[trigger] r@[j]).model_idx < catalog.models@.len()
                && catalog.models@[r@[j].model_idx as int].id@ != primary_id@,
        forall|a: int, b: int|
            0 <= a < b < r@.len() ==> catalog.models@[(#[trigger] r@[a]).model_idx as int].id@
                != catalog.models@[(#[trigger] r@[b]).model_idx as int].id@,
{
    proof {
        lemma_fallback_picks_members(cands@, catalog.models@, seq![primary_id@], 3);
        lemma_fallback_picks_distinct(cands@, catalog.models@, seq![primary_id@], 3);
        assert(seq![primary_id@][0] == primary_id@);
        assert(seq![primary_id@].contains(primary_id@));
    }
    let mut out: Vec<Candidate> = Vec::new();
    let mut taken: Vec<String> = Vec::new();
    taken.push(String::from_str(primary_id));
    let ghost mut excl: Seq<Seq<char>> = seq![primary_id@];
    let mut i: usize = 0;
    proof {
        assert(cands@.subrange(0, cands@.len() as int) =~= cands@);
        assert(taken@.len() == excl.len());
        assert(forall|j: int| 0 <= j < taken@.len() ==> (#[trigger] taken@[j])@ == excl[j]);
        assert(out@ + fallback_picks(cands@, catalog.models@, excl, 3) =~= fallback_picks(
            cands@,
            catalog.models@,
            excl,
            3,
        ));
    }
    while i < cands.len()
        invariant
            i <= cands@.len(),
            out@.len() <= 3,
            taken@.len() == excl.len(),
            forall|j: int| 0 <= j < taken@.len() ==> (#[trigger] taken@[j])@ == excl[j],
            fallback_picks(cands@, catalog.models@, seq![primary_id@], 3) == out@ + fallback_picks(
                cands@.subrange(i as int, cands@.len() as int),
                catalog.models@,
                excl,
                3 - out@.len(),
            ),
        decreases cands@.len() - i,
    {
        if out.len() >= 3 {
            proof {
                lemma_fallback_picks_members(cands@, catalog.models@, seq![primary_id@], 3);
                lemma_fallback_picks_distinct(cands@, catalog.models@, seq![primary_id@], 3);
                assert(fallback_picks(
                    cands@.subrange(i as int, cands@.len() as int),
                    catalog.models@,
                    excl,
                    0,
                ) =~= Seq::<Candidate>::empty());
                assert(fallback_picks(cands@, catalog.models@, seq![primary_id@], 3) =~= out@);
                assert(seq![primary_id@][0] == primary_id@);
                assert(seq![primary_id@].contains(primary_id@));
            }
            return out;
        }
        let ghost rest = cands@.subrange(i as int, cands@.len() as int);
        proof {
            assert(rest.len() > 0);
            assert(rest.first() == cands@[i as int]);
            assert(rest.drop_first() =~= cands@.subrange(i + 1, cands@.len() as int));
        }
        let idx = cands[i].model_idx;
        let keep = if idx < catalog.models.len() {
            !id_taken(&taken, catalog.models[idx].id.as_str())
        } else {
            false
        };
        proof {
            if idx < catalog.models@.len() {
                let gid = catalog.models@[idx as int].id@;
                if excl.contains(gid) {
                    let j0 = choose|j: int| 0 <= j < excl.len() && excl[j] == gid;
                    assert(taken@[j0]@ == gid);
                }
                if exists|j: int| 0 <= j < taken@.len() && (#[trigger] taken@[j])@ == gid {
                    let j0 = choose|j: int|
                        0 <= j < taken@.len() && (#[trigger] taken@[j])@ == gid;
                    assert(excl[j0] == gid);
                }
            }
        }
        if keep {
            let c = cands[i];
            out.push(c);
            taken.push(catalog.models[idx].id.clone());
            proof {
                let gid = catalog.models@[idx as int].id@;
                excl = excl.push(gid);
                assert(taken@.len() == excl.len());
                assert(forall|j: int|
                    0 <= j < taken@.len() ==> (#[trigger] taken@[j])@ == excl[j]);
                assert(out@.drop_last() + (seq![c] + fallback_picks(
                    rest.drop_first(),
                    catalog.models@,
                    excl,
                    3 - out@.len(),
                )) =~= out@ + fallback_picks(
                    rest.drop_first(),
                    catalog.models@,
                    excl,
                    3 - out@.len(),
                ));
            }
        }
        i = i + 1;
    }
    proof {
        lemma_fallback_picks_members(cands@, catalog.models@, seq![primary_id@], 3);
        lemma_fallback_picks_distinct(cands@, catalog.models@, seq![primary_id@], 3);
        assert(fallback_picks(
            cands@.subrange(cands@.len() as int, cands@.len() as int),
            catalog.models@,
            excl,
            3 - out@.len(),
        ) =~= Seq::<Candidate>::empty());
        assert(fallback_picks(cands@, catalog.models@, seq![primary_id@], 3) =~= out@);
        assert(seq![primary_id@][0] == primary_id@);
        assert(seq![primary_id@].contains(primary_id@));
    }
    out
}

proof fn lemma_fallback_picks_members(
    cands: Seq<Candidate>,
    models: Seq<CompiledModel>,
    excluded: Seq<Seq<char>>,
    budget: int,
)
    ensures
        forall|j: int|
            0 <= j < fallback_picks(cands, models, excluded, budget).len() ==> exists|i: int|
                0 <= i < cands.len() && #[trigger] fallback_picks(cands, models, excluded, budget)[j]
                    == cands[i],
    decreases cands.len(),
{
    if cands.len() > 0 && budget > 0 {
        let h = cands.first();
        let keep = h.model_idx < models.len() && !excluded.contains(models[h.model_idx as int].id@);
        if keep {
            lemma_fallback_picks_members(
                cands.drop_first(),
                models,
                excluded.push(models[h.model_idx as int].id@),
                budget - 1,
            );
        } else {
            lemma_fallback_picks_members(cands.drop_first(), models, excluded, budget);
        }
        let whole = fallback_picks(cands, models, excluded, budget);
        assert forall|j: int| 0 <= j < whole.len() implies exists|i: int|
            0 <= i < cands.len() && #[trigger] whole[j] == cands[i] by {
            if keep {
                if j == 0 {
                    assert(whole[0] == cands[0]);
                } else {
                    let sub = fallback_picks(
                        cands.drop_first(),
                        models,
                        excluded.push(models[h.model_idx as int].id@),
                        budget - 1,
                    );
                    assert(whole[j] == sub[j - 1]);
                    let i0 = choose|i: int|
                        0 <= i < cands.drop_first().len() && sub[j - 1] == cands.drop_first()[i];
                    assert(whole[j] == cands[i0 + 1]);
                }
            } else {
                let sub = fallback_picks(cands.drop_first(), models, excluded, budget);
                assert(whole[j] == sub[j]);
                let i0 = choose|i: int|
                    0 <= i < cands.drop_first().len() && sub[j] == cands.drop_first()[i];
                assert(whole[j] == cands[i0 + 1]);
            }
        }
    }
}

/// Every pick's id is new: outside the exclusions, and distinct from every
/// other pick's.
proof fn lemma_fallback_picks_distinct(
    cands: Seq<Candidate>,
    models: Seq<CompiledModel>,
    excluded: Seq<Seq<char>>,
    budget: int,
)
    ensures
        forall|j: int|
            0 <= j < fallback_picks(cands, models, excluded, budget).len() ==> (
            #[trigger] fallback_picks(cands, models, excluded, budget)[j]).model_idx < models.len()
                && !excluded.contains(
                models[fallback_picks(cands, models, excluded, budget)[j].model_idx as int].id@,
            ),
        forall|a: int, b: int|
            0 <= a < b < fallback_picks(cands, models, excluded, budget).len() ==> models[(
            #[trigger] fallback_picks(cands, models, excluded, budget)[a]).model_idx as int].id@
                != models[(#[trigger] fallback_picks(cands, models, excluded, budget)[
            b]).model_idx as int].id@,
    decreases cands.len(),
{
    if cands.len() > 0 && budget > 0 {
        let h = cands.first();
        let keep = h.model_idx < models.len() && !excluded.contains(models[h.model_idx as int].id@);
        let whole = fallback_picks(cands, models, excluded, budget);
        if keep {
            let hid = models[h.model_idx as int].id@;
            let bigger = excluded.push(hid);
            lemma_fallback_picks_distinct(cands.drop_first(), models, bigger, budget - 1);
            let sub = fallback_picks(cands.drop_first(), models, bigger, budget - 1);
            assert(bigger.contains(hid)) by {
                assert(bigger[excluded.len() as int] == hid);
            }
            assert forall|x: Seq<char>| excluded.contains(x) implies bigger.contains(x) by {
                let i0 = choose|i: int| 0 <= i < excluded.len() && excluded[i] == x;
                assert(bigger[i0] == x);
            }
            assert forall|j: int| 0 <= j < whole.len() implies (#[trigger] whole[j]).model_idx
                < models.len() && !excluded.contains(models[whole[j].model_idx as int].id@) by {
                if j == 0 {
                    assert(whole[0] == h);
                } else {
                    assert(whole[j] == sub[j - 1]);
                }
            }
            assert forall|a: int, b: int| 0 <= a < b < whole.len() implies models[(
            #[trigger] whole[a]).model_idx as int].id@ != models[(#[trigger] whole[
            b]).model_idx as int].id@ by {
                if a == 0 {
                    assert(whole[0] == h);
                    assert(whole[b] == sub[b - 1]);
                    assert(!bigger.contains(models[sub[b - 1].model_idx as int].id@));
                } else {
                    assert(whole[a] == sub[a - 1]);
                    assert(whole[b] == sub[b - 1]);
                }
            }
        } else {
            lemma_fallback_picks_distinct(cands.drop_first(), models, excluded, budget);
        }
    }
}

} // verus!
