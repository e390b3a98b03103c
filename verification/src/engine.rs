//! The routing engine: request analysis, escalation, overlay resolution,
//! candidate selection, plan materialization, caching, stickiness, metrics
//! and hot reload.

use vstd::prelude::*;

verus! {

use vstd::string::StrSliceExecFns;
use vstd::string::StringExecFns;
use crate::assoc::{assoc_find, assoc_get, assoc_set};
use crate::cache::{cache_find, cache_key_spec, status_of, wf_cache, CacheKey, CachedPlan, PlanCache};
use crate::compile::{catalog_matches, compile_catalog, compile_policy, dup_headers, headers_eqv,
    index_bounded, lemma_candidates_bounded, policy_matches, strings_eqv, CompiledAlias,
    CompiledCatalog, CompiledModel, CompiledPolicy};
use crate::digest::{hex_of, hex_encode, sha256_digest, sha256_of};
use crate::embedding::{canonical_hash, CanonicalSelection};
use crate::errors::{code_of, dup_strings, ErrorCode, RouterError};
use crate::fingerprint::hash_chars_spec;
use crate::fingerprint::hash_string;
use crate::health::{stats_of, wf_store, HealthStats, HealthStore};
use crate::masks::{caps_of_names, caps_from_strings, region_of_name, region_from_str, CAP_JSON,
    CAP_TEXT, CAP_TOOLS, REGION_ALL};
use crate::rate::RateLimiter;
use crate::score::{build_fallbacks, cand_ok, choose_primary, passes_filter, score_candidates,
    sorted_desc, tier_view, Candidate};
use crate::stickiness::{opt_view, rfc3339_of, rfc3339_string, sat_add64, StickinessClaims,
    StickinessManager};
use crate::text::{dec_str, has_prefix, starts_with, str_eq, suffix_from, u64_to_dec};
use crate::types::{CacheStatus, CanonicalContext, CacheHints, ContentLevel, Fallback,
    GovernanceApprovals, GovernanceBudgets, GovernanceEcho, HeaderEntry, Hints, Limits,
    PolicyDefaults, PolicyDocument, PolicyEscalations, PolicyInfo, PolicyWeights, PrivacyMode,
    PromptOverlays, RouteFeedback, RoutePlan, RouteRequest, RouterStats, Stickiness, Upstream,
    UpstreamMode, CatalogDocument};

pub const DEFAULT_PROMPT_TOKENS: u32 = 512;

pub const DEFAULT_OUTPUT_TOKENS: u32 = 256;

pub const MAX_CACHE_CAPACITY: usize = 100000;

/// Whether a precompiled uncertainty pattern matches a summary; a function of
/// the pattern and the text alone.
pub uninterp spec fn regex_match_of(pattern: Seq<char>, text: Seq<char>) -> bool;

/// Relies on regex's `Regex::new` and `is_match`: whether the pattern
/// compiles and matches the text, a deterministic function of both; invalid
/// patterns match nothing.
#[verifier::external_body]
fn regex_is_match(pattern: &str, text: &str) -> (r: bool)
    ensures
        r == regex_match_of(pattern@, text@),
{
    match regex::Regex::new(pattern) {
        Ok(re) => re.is_match(text),
        Err(_) => false,
    }
}

/// The prompt-token estimate of a request, defaulted.
pub open spec fn in_tokens_spec(req: RouteRequest) -> u32 {
    match req.estimates {
        Some(e) => match e.prompt_tokens {
            Some(p) => p,
            None => DEFAULT_PROMPT_TOKENS,
        },
        None => DEFAULT_PROMPT_TOKENS,
    }
}

pub fn in_tokens_of(req: &RouteRequest) -> (r: u32)
    ensures
        r == in_tokens_spec(*req),
{
    match &req.estimates {
        Some(e) => match e.prompt_tokens {
            Some(p) => p,
            None => DEFAULT_PROMPT_TOKENS,
        },
        None => DEFAULT_PROMPT_TOKENS,
    }
}

/// The output-token estimate: the request's, else the policy default, with
/// zero lifted to the built-in default.
pub open spec fn out_tokens_spec(req: RouteRequest, defaults: PolicyDefaults) -> u32 {
    let raw = match req.estimates {
        Some(e) => match e.max_output_tokens {
            Some(p) => p,
            None => defaults.max_output_tokens,
        },
        None => defaults.max_output_tokens,
    };
    if raw == 0 {
        DEFAULT_OUTPUT_TOKENS
    } else {
        raw
    }
}

pub fn out_tokens_of(req: &RouteRequest, defaults: &PolicyDefaults) -> (r: u32)
    ensures
        r == out_tokens_spec(*req, *defaults),
{
    let raw = match &req.estimates {
        Some(e) => match e.max_output_tokens {
            Some(p) => p,
            None => defaults.max_output_tokens,
        },
        None => defaults.max_output_tokens,
    };
    if raw == 0 {
        DEFAULT_OUTPUT_TOKENS
    } else {
        raw
    }
}

/// Whether the request asks for JSON mode.
pub open spec fn json_mode_spec(req: RouteRequest) -> bool {
    match req.params {
        Some(p) => p.json_mode == Some(true),
        None => false,
    }
}

pub fn json_mode_of(req: &RouteRequest) -> (r: bool)
    ensures
        r == json_mode_spec(*req),
{
    match &req.params {
        Some(p) => match p.json_mode {
            Some(b) => b,
            None => false,
        },
        None => false,
    }
}

/// The capability mask of a request: its named capabilities, tools when tool
/// hints are present, JSON when JSON mode is on, and always text.
pub open spec fn caps_mask_spec(req: RouteRequest) -> u32 {
    caps_of_names(req.caps@) | (match req.tools {
        Some(t) => if t@.len() > 0 {
            CAP_TOOLS
        } else {
            0u32
        },
        None => 0u32,
    }) | (if json_mode_spec(req) {
        CAP_JSON
    } else {
        0u32
    }) | CAP_TEXT
}

pub fn caps_mask_of(req: &RouteRequest) -> (r: u32)
    ensures
        r == caps_mask_spec(*req),
{
    let base = caps_from_strings(&req.caps);
    let tools_bit: u32 = match &req.tools {
        Some(t) => if t.len() > 0 {
            CAP_TOOLS
        } else {
            0
        },
        None => 0,
    };
    let json_bit: u32 = if json_mode_of(req) {
        CAP_JSON
    } else {
        0
    };
    base | tools_bit | json_bit | CAP_TEXT
}

/// The region mask of a request: its region's bit, or every region.
pub open spec fn region_mask_spec(req: RouteRequest) -> u32 {
    match req.geo {
        Some(g) => match g.region {
            Some(r) => region_of_name(r@),
            None => REGION_ALL,
        },
        None => REGION_ALL,
    }
}

pub fn region_mask_of(req: &RouteRequest) -> (r: u32)
    ensures
        r == region_mask_spec(*req),
{
    match &req.geo {
        Some(g) => match &g.region {
            Some(name) => region_from_str(name.as_str()),
            None => REGION_ALL,
        },
        None => REGION_ALL,
    }
}

/// Whether the request carries the teacher-boost override.
pub open spec fn boost_spec(req: RouteRequest) -> bool {
    match req.overrides {
        Some(ov) => ov.teacher_boost == Some(true),
        None => false,
    }
}

pub fn has_teacher_boost(req: &RouteRequest) -> (r: bool)
    ensures
        r == boost_spec(*req),
{
    match &req.overrides {
        Some(ov) => match ov.teacher_boost {
            Some(b) => b,
            None => false,
        },
        None => false,
    }
}

/// Whether the request raises the scpi error flag.
pub open spec fn scpi_flag_spec(req: RouteRequest) -> bool {
    match req.overrides {
        Some(ov) => ov.scpi_error_present == Some(true),
        None => false,
    }
}

fn scpi_flag_of(req: &RouteRequest) -> (r: bool)
    ensures
        r == scpi_flag_spec(*req),
{
    match &req.overrides {
        Some(ov) => match ov.scpi_error_present {
            Some(b) => b,
            None => false,
        },
        None => false,
    }
}

/// The content level a plan reports: an explicit attestation wins; otherwise
/// the privacy mode maps to it.
pub open spec fn content_used_spec(req: RouteRequest) -> ContentLevel {
    match req.content_attestation {
        Some(a) => a.included,
        None => match req.privacy_mode {
            PrivacyMode::FeaturesOnly => ContentLevel::NoContent,
            PrivacyMode::Summary => ContentLevel::Summary,
            PrivacyMode::Full => ContentLevel::Full,
        },
    }
}

pub fn determine_content_usage(req: &RouteRequest) -> (r: ContentLevel)
    ensures
        r == content_used_spec(*req),
{
    match &req.content_attestation {
        Some(a) => a.included,
        None => match req.privacy_mode {
            PrivacyMode::FeaturesOnly => ContentLevel::NoContent,
            PrivacyMode::Summary => ContentLevel::Summary,
            PrivacyMode::Full => ContentLevel::Full,
        },
    }
}

/// The freeze key: the override when present, else `frz_` and the policy
/// revision.
pub open spec fn freeze_key_spec(req: RouteRequest, policy_rev: Seq<char>) -> Seq<char> {
    match req.overrides {
        Some(ov) => match ov.freeze_key {
            Some(k) => k@,
            None => "frz_"@ + policy_rev,
        },
        None => "frz_"@ + policy_rev,
    }
}

pub fn freeze_key_from_request(req: &RouteRequest, policy_rev: &str) -> (r: String)
    ensures
        r@ == freeze_key_spec(*req, policy_rev@),
{
    match &req.overrides {
        Some(ov) => match &ov.freeze_key {
            Some(k) => k.clone(),
            None => String::from_str("frz_").concat(policy_rev),
        },
        None => String::from_str("frz_").concat(policy_rev),
    }
}

/// The raw conversation summary offered for uncertainty matching.
pub open spec fn summary_view(req: RouteRequest) -> Option<Seq<char>> {
    match req.conversation {
        Some(c) => match c.summary {
            Some(s) => Some(s@),
            None => None,
        },
        None => None,
    }
}

/// Whether the conversation context makes a prompt cache worthwhile: prior
/// turns, or an incoming plan token.
pub open spec fn cache_ctx_spec(req: RouteRequest) -> bool {
    (match req.conversation {
        Some(c) => match c.turns {
            Some(t) => t > 0,
            None => false,
        },
        None => false,
    }) || (match req.overrides {
        Some(ov) => ov.plan_token is Some,
        None => false,
    })
}

fn cache_ctx_of(req: &RouteRequest) -> (r: bool)
    ensures
        r == cache_ctx_spec(*req),
{
    let turns = match &req.conversation {
        Some(c) => match c.turns {
            Some(t) => t > 0,
            None => false,
        },
        None => false,
    };
    let token = match &req.overrides {
        Some(ov) => ov.plan_token.is_some(),
        None => false,
    };
    turns || token
}

/// The tier escalation falls back to when none is configured.
pub open spec fn fallback_tier_spec(esc: PolicyEscalations) -> Seq<char> {
    match esc.fallback_tier {
        Some(t) => t@,
        None => "T3"@,
    }
}

/// The escalation decision: the forced tier and the reason, first match
/// winning in the order teacher boost, complexity, uncertainty, scpi policy
/// lock; no match forces nothing.
pub open spec fn escalation_spec(
    esc: PolicyEscalations,
    in_tokens: u32,
    boost: bool,
    summary: Option<Seq<char>>,
    scpi_flag: bool,
) -> (Option<Seq<char>>, Option<Seq<char>>) {
    let fallback = fallback_tier_spec(esc);
    if boost {
        let target = match esc.teacher_boost_tier {
            Some(t) => t@,
            None => fallback,
        };
        (Some(target), Some("teacher_boost"@))
    } else if esc.token_len_over matches Some(limit) && in_tokens > limit {
        (Some(fallback), Some("complexity"@))
    } else if esc.uncertainty_regex matches Some(re) && summary matches Some(text)
        && regex_match_of(re@, text) {
        (Some(fallback), Some("uncertainty"@))
    } else if esc.scpi_error_present == Some(true) && scpi_flag {
        (Some(fallback), Some("policy_lock"@))
    } else {
        (None, None)
    }
}

/// Decide the escalation for a request.
pub fn determine_escalation(
    esc: &PolicyEscalations,
    in_tokens: u32,
    boost: bool,
    summary: Option<&String>,
    scpi_flag: bool,
) -> (r: (Option<String>, Option<String>))
    ensures
        ({
            let (tier, reason) = escalation_spec(
                *esc,
                in_tokens,
                boost,
                match summary {
                    Some(s) => Some(s@),
                    None => None,
                },
                scpi_flag,
            );
            &&& (match r.0 {
                Some(t) => tier == Some(t@),
                None => tier is None,
            })
            &&& (match r.1 {
                Some(why) => reason == Some(why@),
                None => reason is None,
            })
        }),
{
    let fallback: String = match &esc.fallback_tier {
        Some(t) => t.clone(),
        None => String::from_str("T3"),
    };
    if boost {
        let target = match &esc.teacher_boost_tier {
            Some(t) => t.clone(),
            None => fallback,
        };
        return (Some(target), Some(String::from_str("teacher_boost")));
    }
    if let Some(limit) = esc.token_len_over {
        if in_tokens > limit {
            return (Some(fallback), Some(String::from_str("complexity")));
        }
    }
    if let Some(re) = &esc.uncertainty_regex {
        if let Some(text) = summary {
            if regex_is_match(re.as_str(), text.as_str()) {
                return (Some(fallback), Some(String::from_str("uncertainty")));
            }
        }
    }
    let scpi_configured = match esc.scpi_error_present {
        Some(b) => b,
        None => false,
    };
    if scpi_configured && scpi_flag {
        return (Some(fallback), Some(String::from_str("policy_lock")));
    }
    (None, None)
}

/// Teacher boost outranks every other escalation: whenever it is set, the
/// reason is `teacher_boost`, whatever the length, the summary or the scpi
/// flag say.
pub proof fn lemma_escalation_precedence(
    esc: PolicyEscalations,
    in_tokens: u32,
    summary: Option<Seq<char>>,
    scpi_flag: bool,
)
    ensures
        escalation_spec(esc, in_tokens, true, summary, scpi_flag).1 == Some("teacher_boost"@),
        ({
            let r = escalation_spec(esc, in_tokens, false, summary, scpi_flag);
            (esc.token_len_over matches Some(limit) && in_tokens > limit) ==> r.1 == Some(
                "complexity"@,
            )
        }),
{
}


/// Copy an optional string, preserving its view.
pub fn dup_opt_string(o: &Option<String>) -> (r: Option<String>)
    ensures
        opt_view(r) == opt_view(*o),
{
    match o {
        Some(s) => Some(s.clone()),
        None => None,
    }
}

/// Two upstream blocks describe the same endpoint.
pub open spec fn upstream_eqv(a: Upstream, b: Upstream) -> bool {
    &&& a.base_url@ == b.base_url@
    &&& a.mode == b.mode
    &&& a.model_id@ == b.model_id@
    &&& opt_view(a.auth_env) == opt_view(b.auth_env)
    &&& headers_eqv(a.headers@, b.headers@)
}

pub open spec fn overlays_eqv(a: PromptOverlays, b: PromptOverlays) -> bool {
    &&& opt_view(a.system_overlay) == opt_view(b.system_overlay)
    &&& opt_view(a.overlay_fingerprint) == opt_view(b.overlay_fingerprint)
    &&& a.overlay_size_bytes == b.overlay_size_bytes
    &&& a.max_overlay_bytes == b.max_overlay_bytes
}

pub open spec fn hints_eqv(a: Hints, b: Hints) -> bool {
    &&& opt_view(a.tier) == opt_view(b.tier)
    &&& a.est_cost_micro == b.est_cost_micro
    &&& opt_view(a.currency) == opt_view(b.currency)
    &&& a.est_latency_ms == b.est_latency_ms
    &&& opt_view(a.provider) == opt_view(b.provider)
}

pub open spec fn fallback_eqv(a: Fallback, b: Fallback) -> bool {
    &&& a.base_url@ == b.base_url@
    &&& a.mode == b.mode
    &&& a.model_id@ == b.model_id@
    &&& opt_view(a.reason) == opt_view(b.reason)
    &&& a.penalty_milli == b.penalty_milli
}

pub open spec fn fallbacks_eqv(a: Seq<Fallback>, b: Seq<Fallback>) -> bool {
    a.len() == b.len() && forall|i: int| 0 <= i < a.len() ==> fallback_eqv(#[trigger] a[i], b[i])
}

pub open spec fn cache_hints_eqv(a: CacheHints, b: CacheHints) -> bool {
    &&& a.ttl_ms == b.ttl_ms
    &&& opt_view(a.etag) == opt_view(b.etag)
    &&& opt_view(a.valid_until) == opt_view(b.valid_until)
    &&& opt_view(a.freeze_key) == opt_view(b.freeze_key)
}

pub open spec fn stickiness_eqv(a: Stickiness, b: Stickiness) -> bool {
    &&& opt_view(a.plan_token) == opt_view(b.plan_token)
    &&& a.max_turns == b.max_turns
    &&& opt_view(a.expires_at) == opt_view(b.expires_at)
}

pub open spec fn policy_info_eqv(a: PolicyInfo, b: PolicyInfo) -> bool {
    &&& opt_view(a.revision) == opt_view(b.revision)
    &&& opt_view(a.id) == opt_view(b.id)
    &&& opt_view(a.explain) == opt_view(b.explain)
}

pub open spec fn governance_eqv(a: GovernanceEcho, b: GovernanceEcho) -> bool {
    &&& a.budgets == b.budgets
    &&& strings_eqv(a.approvals.require_for_levels@, b.approvals.require_for_levels@)
}

pub open spec fn canonical_ctx_eqv(a: Option<CanonicalContext>, b: Option<CanonicalContext>) -> bool {
    match (a, b) {
        (Some(x), Some(y)) => strings_eqv(x.ids@, y.ids@) && opt_view(x.model) == opt_view(y.model)
            && x.score_micro == y.score_micro,
        (None, None) => true,
        _ => false,
    }
}

/// Two plans carry the same content.
pub open spec fn plan_eqv(a: RoutePlan, b: RoutePlan) -> bool {
    &&& a.schema_version@ == b.schema_version@
    &&& a.route_id@ == b.route_id@
    &&& upstream_eqv(a.upstream, b.upstream)
    &&& a.limits == b.limits
    &&& overlays_eqv(a.prompt_overlays, b.prompt_overlays)
    &&& hints_eqv(a.hints, b.hints)
    &&& fallbacks_eqv(a.fallbacks@, b.fallbacks@)
    &&& cache_hints_eqv(a.cache, b.cache)
    &&& stickiness_eqv(a.stickiness, b.stickiness)
    &&& policy_info_eqv(a.policy, b.policy)
    &&& a.policy_rev@ == b.policy_rev@
    &&& a.content_used == b.content_used
    &&& governance_eqv(a.governance_echo, b.governance_echo)
    &&& canonical_ctx_eqv(a.canonical, b.canonical)
}

fn dup_governance(g: &GovernanceEcho) -> (r: GovernanceEcho)
    ensures
        governance_eqv(r, *g),
{
    GovernanceEcho {
        budgets: g.budgets,
        approvals: GovernanceApprovals {
            require_for_levels: dup_strings(&g.approvals.require_for_levels),
        },
    }
}

fn dup_fallbacks(v: &Vec<Fallback>) -> (r: Vec<Fallback>)
    ensures
        fallbacks_eqv(r@, v@),
{
    let mut out: Vec<Fallback> = Vec::new();
    let mut i: usize = 0;
    while i < v.len()
        invariant
            i <= v@.len(),
            out@.len() == i,
            forall|j: int| 0 <= j < i ==> fallback_eqv(#[trigger] out@[j], v@[j]),
        decreases v@.len() - i,
    {
        let f = &v[i];
        out.push(
            Fallback {
                base_url: f.base_url.clone(),
                mode: f.mode,
                model_id: f.model_id.clone(),
                reason: dup_opt_string(&f.reason),
                penalty_milli: f.penalty_milli,
            },
        );
        i = i + 1;
    }
    out
}

fn dup_canonical_ctx(o: &Option<CanonicalContext>) -> (r: Option<CanonicalContext>)
    ensures
        canonical_ctx_eqv(r, *o),
{
    match o {
        Some(c) => Some(
            CanonicalContext {
                ids: dup_strings(&c.ids),
                model: dup_opt_string(&c.model),
                score_micro: c.score_micro,
            },
        ),
        None => None,
    }
}

/// Copy a plan, preserving all of its content.
pub fn dup_route_plan(p: &RoutePlan) -> (r: RoutePlan)
    ensures
        plan_eqv(r, *p),
{
    RoutePlan {
        schema_version: p.schema_version.clone(),
        route_id: p.route_id.clone(),
        upstream: Upstream {
            base_url: p.upstream.base_url.clone(),
            mode: p.upstream.mode,
            model_id: p.upstream.model_id.clone(),
            auth_env: dup_opt_string(&p.upstream.auth_env),
            headers: dup_headers(&p.upstream.headers),
        },
        limits: Limits {
            max_input_tokens: p.limits.max_input_tokens,
            max_output_tokens: p.limits.max_output_tokens,
            timeout_ms: p.limits.timeout_ms,
        },
        prompt_overlays: PromptOverlays {
            system_overlay: dup_opt_string(&p.prompt_overlays.system_overlay),
            overlay_fingerprint: dup_opt_string(&p.prompt_overlays.overlay_fingerprint),
            overlay_size_bytes: p.prompt_overlays.overlay_size_bytes,
            max_overlay_bytes: p.prompt_overlays.max_overlay_bytes,
        },
        hints: Hints {
            tier: dup_opt_string(&p.hints.tier),
            est_cost_micro: p.hints.est_cost_micro,
            currency: dup_opt_string(&p.hints.currency),
            est_latency_ms: p.hints.est_latency_ms,
            provider: dup_opt_string(&p.hints.provider),
        },
        fallbacks: dup_fallbacks(&p.fallbacks),
        cache: CacheHints {
            ttl_ms: p.cache.ttl_ms,
            etag: dup_opt_string(&p.cache.etag),
            valid_until: dup_opt_string(&p.cache.valid_until),
            freeze_key: dup_opt_string(&p.cache.freeze_key),
        },
        stickiness: Stickiness {
            plan_token: dup_opt_string(&p.stickiness.plan_token),
            max_turns: p.stickiness.max_turns,
            expires_at: dup_opt_string(&p.stickiness.expires_at),
        },
        policy: PolicyInfo {
            revision: dup_opt_string(&p.policy.revision),
            id: dup_opt_string(&p.policy.id),
            explain: dup_opt_string(&p.policy.explain),
        },
        policy_rev: p.policy_rev.clone(),
        content_used: p.content_used,
        governance_echo: dup_governance(&p.governance_echo),
        canonical: dup_canonical_ctx(&p.canonical),
    }
}

/// The role used for overlay lookup.
pub open spec fn role_spec(req: RouteRequest) -> Seq<char> {
    match req.org {
        Some(org) => match org.role {
            Some(r) => r@,
            None => "default"@,
        },
        None => "default"@,
    }
}

/// The overlay id an alias and role resolve to: the alias's own map first,
/// then the role defaults.
pub open spec fn overlay_id_spec(policy: PolicyDocument, alias: Seq<char>, role: Seq<char>) -> Option<Seq<char>> {
    let from_map = match assoc_find(policy.overlay_map@, alias) {
        Some(rules) => match assoc_find(rules@, role) {
            Some(id) => Some(id@),
            None => None,
        },
        None => None,
    };
    if from_map is Some {
        from_map
    } else {
        match assoc_find(policy.overlay_defaults@, role) {
            Some(id) => Some(id@),
            None => None,
        }
    }
}

/// The UTF-8 byte length of an overlay body.
pub open spec fn overlay_len(content: Seq<char>) -> int {
    vstd::utf8::encode_utf8(content).len() as int
}

/// Resolve the overlay block for a request: look the overlay id up, fetch its
/// body, enforce the size bound, and fingerprint it with SHA-256.  A missing
/// body is recorded, not fatal; an oversized body is a hard deny.
pub fn resolve_overlay(
    req: &RouteRequest,
    policy: &PolicyDocument,
    overlays: &Vec<(String, String)>,
    max_overlay_bytes: u32,
) -> (r: Result<PromptOverlays, RouterError>)
    ensures
        ({
            let id = overlay_id_spec(*policy, req.alias@, role_spec(*req));
            match r {
                Ok(po) => {
                    &&& po.max_overlay_bytes == Some(max_overlay_bytes)
                    &&& match id {
                        None => po.system_overlay is None && po.overlay_fingerprint is None
                            && po.overlay_size_bytes == Some(0u32),
                        Some(idv) => match assoc_find(overlays@, idv) {
                            None => po.system_overlay is None && opt_view(po.overlay_fingerprint)
                                == Some("missing:"@ + idv) && po.overlay_size_bytes == Some(0u32),
                            Some(content) => {
                                &&& overlay_len(content@) <= max_overlay_bytes
                                &&& opt_view(po.system_overlay) == Some(content@)
                                &&& opt_view(po.overlay_fingerprint) == Some(
                                    "sha256:"@ + hex_of(
                                        sha256_of(vstd::utf8::encode_utf8(content@)),
                                    ),
                                )
                                &&& po.overlay_size_bytes == Some(
                                    overlay_len(content@) as u32,
                                )
                            },
                        },
                    }
                },
                Err(e) => {
                    &&& code_of(e) == ErrorCode::PolicyDeny
                    &&& id matches Some(idv) && assoc_find(overlays@, idv) matches Some(content)
                        && overlay_len(content@) > max_overlay_bytes
                },
            }
        }),
{
    let role: String = match &req.org {
        Some(org) => match &org.role {
            Some(role) => role.clone(),
            None => String::from_str("default"),
        },
        None => String::from_str("default"),
    };
    let overlay_id: Option<String> = {
        let from_map = match assoc_get(&policy.overlay_map, req.alias.as_str()) {
            Some(rules) => match assoc_get(rules, role.as_str()) {
                Some(id) => Some(id.clone()),
                None => None,
            },
            None => None,
        };
        match from_map {
            Some(id) => Some(id),
            None => match assoc_get(&policy.overlay_defaults, role.as_str()) {
                Some(id) => Some(id.clone()),
                None => None,
            },
        }
    };
    proof {
        assert(role@ == role_spec(*req));
        assert(match overlay_id {
            Some(id) => overlay_id_spec(*policy, req.alias@, role_spec(*req)) == Some(id@),
            None => overlay_id_spec(*policy, req.alias@, role_spec(*req)) is None,
        });
    }
    let mut block = PromptOverlays {
        system_overlay: None,
        overlay_fingerprint: None,
        overlay_size_bytes: Some(0),
        max_overlay_bytes: Some(max_overlay_bytes),
    };
    if let Some(id) = overlay_id {
        match assoc_get(overlays, id.as_str()) {
            Some(content) => {
                let body = content.as_str().as_bytes_vec();
                let size = body.len();
                if (size as u64) > (max_overlay_bytes as u64) {
                    return Err(
                        RouterError::PolicyDeny(
                            String::from_str("overlay exceeds max_overlay_bytes"),
                        ),
                    );
                }
                let digest = sha256_digest(body.as_slice());
                let fingerprint = String::from_str("sha256:").concat(
                    hex_encode(digest.as_slice()).as_str(),
                );
                block.system_overlay = Some(content.clone());
                block.overlay_fingerprint = Some(fingerprint);
                block.overlay_size_bytes = Some(size as u32);
            },
            None => {
                block.overlay_fingerprint = Some(
                    String::from_str("missing:").concat(id.as_str()),
                );
            },
        }
    }
    Ok(block)
}

/// The tier named by the first `tier:` tag, if any.
pub open spec fn tier_of_tags(tags: Seq<String>) -> Option<Seq<char>>
    decreases tags.len(),
{
    if tags.len() == 0 {
        None
    } else if has_prefix(tags.first()@, "tier:"@) {
        Some(tags.first()@.subrange(5, tags.first()@.len() as int))
    } else {
        tier_of_tags(tags.drop_first())
    }
}

fn find_tier_tag(tags: &Vec<String>) -> (r: Option<String>)
    ensures
        match r {
            Some(t) => tier_of_tags(tags@) == Some(t@),
            None => tier_of_tags(tags@) is None,
        },
{
    let mut i: usize = 0;
    proof {
        assert(tags@.subrange(0, tags@.len() as int) =~= tags@);
    }
    while i < tags.len()
        invariant
            i <= tags@.len(),
            tier_of_tags(tags@) == tier_of_tags(tags@.subrange(i as int, tags@.len() as int)),
        decreases tags@.len() - i,
    {
        proof {
            let rest = tags@.subrange(i as int, tags@.len() as int);
            assert(rest.first() == tags@[i as int]);
            assert(rest.drop_first() =~= tags@.subrange(i + 1, tags@.len() as int));
        }
        let tag = &tags[i];
        if starts_with(tag.as_str(), "tier:") {
            proof {
                reveal_strlit("tier:");
            }
            let t = suffix_from(tag.as_str(), 5);
            return Some(t);
        }
        i = i + 1;
    }
    proof {
        assert(tags@.subrange(tags@.len() as int, tags@.len() as int) =~= Seq::<String>::empty());
    }
    None
}

/// The rendering of a signed score for the explain string.
pub open spec fn int_dec(n: int) -> Seq<char> {
    if n < 0 {
        seq!['-'] + dec_str((-n) as nat)
    } else {
        dec_str(n as nat)
    }
}

fn i64_to_dec(n: i64) -> (r: String)
    ensures
        r@ == int_dec(n as int),
{
    if n < 0 {
        let mag: u64 = ((-(n as i128)) as u64);
        proof {
            reveal_strlit("-");
        }
        let mut out = String::from_str("-");
        assert(out@ =~= seq!['-']);
        out.append(u64_to_dec(mag).as_str());
        out
    } else {
        u64_to_dec(n as u64)
    }
}

/// The plan's explain line: score, cost and latency.
pub open spec fn explain_spec(score: i64, cost: u64, latency: u32) -> Seq<char> {
    "score="@ + int_dec(score as int) + " cost="@ + dec_str(cost as nat) + "u latency="@ + dec_str(
        latency as nat,
    ) + "ms"@
}

fn explain_string(score: i64, cost: u64, latency: u32) -> (r: String)
    ensures
        r@ == explain_spec(score, cost, latency),
{
    let mut out = String::from_str("score=");
    out.append(i64_to_dec(score).as_str());
    out.append(" cost=");
    out.append(u64_to_dec(cost).as_str());
    out.append("u latency=");
    out.append(u64_to_dec(latency as u64).as_str());
    out.append("ms");
    proof {
        assert(out@ =~= explain_spec(score, cost, latency));
    }
    out
}

/// The weak validator of a catalog-and-policy pair.
pub open spec fn plan_etag_spec(catalog_rev: Seq<char>, policy_rev: Seq<char>) -> Seq<char> {
    "W/\""@ + "cat_"@ + catalog_rev + "@pol_"@ + policy_rev + "\""@
}

fn plan_etag(catalog_rev: &str, policy_rev: &str) -> (r: String)
    ensures
        r@ == plan_etag_spec(catalog_rev@, policy_rev@),
{
    let mut out = String::from_str("W/\"");
    out.append("cat_");
    out.append(catalog_rev);
    out.append("@pol_");
    out.append(policy_rev);
    out.append("\"");
    proof {
        assert(out@ =~= plan_etag_spec(catalog_rev@, policy_rev@));
    }
    out
}

/// Turn fallback picks into wire fallback blocks.
fn fallbacks_of(picks: &Vec<Candidate>, catalog: &CompiledCatalog) -> (r: Vec<Fallback>)
    requires
        forall|j: int|
            0 <= j < picks@.len() ==> (#[trigger] picks@[j]).model_idx < catalog.models@.len(),
    ensures
        r@.len() == picks@.len(),
        forall|j: int|
            0 <= j < r@.len() ==> {
                let m = catalog.models@[picks@[j].model_idx as int];
                &&& (#[trigger] r@[j]).base_url@ == m.base_url@
                &&& r@[j].mode == m.mode
                &&& r@[j].model_id@ == m.id@
                &&& opt_view(r@[j].reason) == Some("alternate"@)
                &&& r@[j].penalty_milli == Some(picks@[j].penalty_milli)
            },
{
    let mut out: Vec<Fallback> = Vec::new();
    let mut i: usize = 0;
    while i < picks.len()
        invariant
            i <= picks@.len(),
            out@.len() == i,
            forall|j: int|
                0 <= j < picks@.len() ==> (#[trigger] picks@[j]).model_idx < catalog.models@.len(),
            forall|j: int|
                0 <= j < i ==> {
                    let m = catalog.models@[picks@[j].model_idx as int];
                    &&& (#[trigger] out@[j]).base_url@ == m.base_url@
                    &&& out@[j].mode == m.mode
                    &&& out@[j].model_id@ == m.id@
                    &&& opt_view(out@[j].reason) == Some("alternate"@)
                    &&& out@[j].penalty_milli == Some(picks@[j].penalty_milli)
                },
        decreases picks@.len() - i,
    {
        let c = picks[i];
        let m = &catalog.models[c.model_idx];
        out.push(
            Fallback {
                base_url: m.base_url.clone(),
                mode: m.mode,
                model_id: m.id.clone(),
                reason: Some(String::from_str("alternate")),
                penalty_milli: Some(c.penalty_milli),
            },
        );
        i = i + 1;
    }
    out
}


/// Build the route plan for a chosen candidate: upstream coordinates,
/// limits, overlay block, hints, fallbacks, cache hints, empty stickiness,
/// policy echo and the canonical block.  The route id is a fresh identifier.
fn materialize_plan(
    req: &RouteRequest,
    policy: &PolicyDocument,
    prompt_overlays: PromptOverlays,
    primary: Candidate,
    model: &CompiledModel,
    fallbacks: Vec<Fallback>,
    out_tokens: u32,
    content_used: ContentLevel,
    cache_ttl_ms: u32,
    freeze_key: String,
    catalog_revision: &str,
    canonical: &Option<CanonicalSelection>,
) -> (r: RoutePlan)
    ensures
        r.schema_version@ == req.schema_version@,
        r.upstream.base_url@ == model.base_url@,
        r.upstream.mode == model.mode,
        r.upstream.model_id@ == model.id@,
        opt_view(r.upstream.auth_env) == opt_view(model.auth_env),
        headers_eqv(r.upstream.headers@, model.headers@),
        r.limits.max_input_tokens == Some(model.context_tokens),
        r.limits.max_output_tokens == Some(
            if out_tokens <= policy.defaults.max_output_tokens {
                out_tokens
            } else {
                policy.defaults.max_output_tokens
            },
        ),
        r.limits.timeout_ms == Some(policy.defaults.timeout_ms),
        overlays_eqv(r.prompt_overlays, prompt_overlays),
        opt_view(r.hints.tier) == tier_of_tags(model.policy_tags@),
        r.hints.est_cost_micro == Some(primary.est_cost_micro),
        opt_view(r.hints.currency) == Some(
            match req.budget {
                Some(b) => b.currency@,
                None => "USD"@,
            },
        ),
        r.hints.est_latency_ms == Some(primary.est_latency_ms),
        opt_view(r.hints.provider) == Some(model.provider@),
        r.fallbacks@ == fallbacks@,
        r.cache.ttl_ms == Some(cache_ttl_ms),
        opt_view(r.cache.etag) == Some(plan_etag_spec(catalog_revision@, policy.revision@)),
        r.cache.valid_until is None,
        opt_view(r.cache.freeze_key) == Some(freeze_key@),
        r.stickiness.plan_token is None,
        r.stickiness.max_turns is None,
        r.stickiness.expires_at is None,
        opt_view(r.policy.revision) == Some(policy.revision@),
        opt_view(r.policy.id) == Some(policy.id@),
        opt_view(r.policy.explain) == Some(
            explain_spec(primary.score_nano, primary.est_cost_micro, primary.est_latency_ms),
        ),
        r.policy_rev@ == policy.revision@,
        r.content_used == content_used,
        governance_eqv(r.governance_echo, policy.governance),
        match canonical {
            Some(sel) => r.canonical matches Some(c) && strings_eqv(c.ids@, sel.canonical_ids@)
                && opt_view(c.model) == Some(sel.model_id@) && c.score_micro == Some(
                sel.score_micro,
            ),
            None => r.canonical is None,
        },
{
    let canonical_block: Option<CanonicalContext> = match canonical {
        Some(sel) => Some(
            CanonicalContext {
                ids: dup_strings(&sel.canonical_ids),
                model: Some(sel.model_id.clone()),
                score_micro: Some(sel.score_micro),
            },
        ),
        None => None,
    };
    RoutePlan {
        schema_version: req.schema_version.clone(),
        route_id: crate::stickiness::fresh_token_id(),
        upstream: Upstream {
            base_url: model.base_url.clone(),
            mode: model.mode,
            model_id: model.id.clone(),
            auth_env: dup_opt_string(&model.auth_env),
            headers: dup_headers(&model.headers),
        },
        limits: Limits {
            max_input_tokens: Some(model.context_tokens),
            max_output_tokens: Some(
                if out_tokens <= policy.defaults.max_output_tokens {
                    out_tokens
                } else {
                    policy.defaults.max_output_tokens
                },
            ),
            timeout_ms: Some(policy.defaults.timeout_ms),
        },
        prompt_overlays,
        hints: Hints {
            tier: find_tier_tag(&model.policy_tags),
            est_cost_micro: Some(primary.est_cost_micro),
            currency: Some(
                match &req.budget {
                    Some(b) => b.currency.clone(),
                    None => String::from_str("USD"),
                },
            ),
            est_latency_ms: Some(primary.est_latency_ms),
            provider: Some(model.provider.clone()),
        },
        fallbacks,
        cache: CacheHints {
            ttl_ms: Some(cache_ttl_ms),
            etag: Some(plan_etag(catalog_revision, policy.revision.as_str())),
            valid_until: None,
            freeze_key: Some(freeze_key),
        },
        stickiness: Stickiness { plan_token: None, max_turns: None, expires_at: None },
        policy: PolicyInfo {
            revision: Some(policy.revision.clone()),
            id: Some(policy.id.clone()),
            explain: Some(
                explain_string(primary.score_nano, primary.est_cost_micro, primary.est_latency_ms),
            ),
        },
        policy_rev: policy.revision.clone(),
        content_used,
        governance_echo: dup_governance(&policy.governance),
        canonical: canonical_block,
    }
}

/// An incoming claim is reused when it locks the same alias to the model the
/// plan chose and has turns left.
pub open spec fn reuses_claims(
    existing: Option<StickinessClaims>,
    alias: Seq<char>,
    model_id: Seq<char>,
) -> bool {
    existing matches Some(c) && c.alias@ == alias && c.model_id@ == model_id && c.turn + 1
        < c.max_turns
}

/// Attach stickiness to a response plan: with stickiness configured, progress
/// a matching session or issue a fresh one, and stamp the token, cap and
/// expiry onto the plan; with it disabled, leave the plan without a token.
fn attach_stickiness(
    manager: &StickinessManager,
    cfg: &crate::types::PolicyStickiness,
    req: &RouteRequest,
    plan: &mut RoutePlan,
    existing: Option<&StickinessClaims>,
    now_ms: u64,
) -> (r: Result<Option<StickinessClaims>, RouterError>)
    ensures
        r is Ok,
        final (plan).schema_version == old(plan).schema_version,
        final (plan).route_id == old(plan).route_id,
        final (plan).upstream == old(plan).upstream,
        final (plan).limits == old(plan).limits,
        final (plan).prompt_overlays == old(plan).prompt_overlays,
        final (plan).hints == old(plan).hints,
        final (plan).fallbacks == old(plan).fallbacks,
        final (plan).policy == old(plan).policy,
        final (plan).policy_rev == old(plan).policy_rev,
        final (plan).content_used == old(plan).content_used,
        final (plan).governance_echo == old(plan).governance_echo,
        final (plan).canonical == old(plan).canonical,
        final (plan).cache.ttl_ms == old(plan).cache.ttl_ms,
        final (plan).cache.etag == old(plan).cache.etag,
        final (plan).cache.freeze_key == old(plan).cache.freeze_key,
        (cfg.max_turns == 0 || cfg.window_ms == 0) <==> r == Ok::<
            Option<StickinessClaims>,
            RouterError,
        >(None),
        r == Ok::<Option<StickinessClaims>, RouterError>(None) ==> final (plan).stickiness.plan_token is None
            && final (plan).stickiness.max_turns is None && final (plan).stickiness.expires_at is None
            && final (plan).cache.valid_until == old(plan).cache.valid_until,
        r matches Ok(Some(claims)) ==> {
            &&& final (plan).stickiness.plan_token is Some
            &&& final (plan).stickiness.max_turns == Some(cfg.max_turns)
            &&& opt_view(final (plan).stickiness.expires_at) == Some(
                rfc3339_of(claims.expires_at_ms),
            )
            &&& opt_view(final (plan).cache.valid_until) == Some(rfc3339_of(claims.expires_at_ms))
            &&& claims.expires_at_ms == sat_add64(now_ms, cfg.window_ms)
            &&& claims.alias@ == req.alias@
            &&& claims.model_id@ == old(plan).upstream.model_id@
            &&& (reuses_claims(
                match existing {
                    Some(c) => Some(*c),
                    None => None,
                },
                req.alias@,
                old(plan).upstream.model_id@,
            ) ==> (existing matches Some(c) && claims.turn == c.turn + 1))
            &&& (!reuses_claims(
                match existing {
                    Some(c) => Some(*c),
                    None => None,
                },
                req.alias@,
                old(plan).upstream.model_id@,
            ) ==> claims.turn == 0)
        },
{
    if cfg.max_turns == 0 || cfg.window_ms == 0 {
        plan.stickiness = Stickiness { plan_token: None, max_turns: None, expires_at: None };
        return Ok(None);
    }
    let reuse: Option<&StickinessClaims> = match existing {
        Some(c) => {
            let same_alias = str_eq(c.alias.as_str(), req.alias.as_str());
            let same_model = str_eq(c.model_id.as_str(), plan.upstream.model_id.as_str());
            if same_alias && same_model && c.turn < u8::MAX && c.turn + 1 < c.max_turns {
                Some(c)
            } else {
                None
            }
        },
        None => None,
    };
    let issued = match reuse {
        Some(c) => manager.progress_turn(c, cfg.window_ms, now_ms),
        None => {
            let tenant: Option<&str> = match &req.org {
                Some(org) => match &org.tenant {
                    Some(t) => Some(t.as_str()),
                    None => None,
                },
                None => None,
            };
            let project: Option<&str> = match &req.org {
                Some(org) => match &org.project {
                    Some(p) => Some(p.as_str()),
                    None => None,
                },
                None => None,
            };
            manager.issue(
                tenant,
                project,
                req.alias.as_str(),
                plan.upstream.model_id.as_str(),
                cfg.max_turns,
                cfg.window_ms,
                now_ms,
            )
        },
    };
    let (token, claims) = match issued {
        Ok(pair) => pair,
        Err(e) => {
            return Err(e);
        },
    };
    let stamp = rfc3339_string(claims.expires_at_ms);
    plan.stickiness = Stickiness {
        plan_token: Some(token),
        max_turns: Some(cfg.max_turns),
        expires_at: Some(stamp.clone()),
    };
    plan.cache.valid_until = Some(stamp);
    Ok(Some(claims))
}


/// Per-alias and per-model counters.
#[derive(Clone, Debug)]
pub struct RouterMetrics {
    pub total_requests: Vec<(String, u64)>,
    pub model_share: Vec<(String, u64)>,
    pub cache_hits: Vec<(String, u64)>,
}

/// What a plan call returns: the plan, where it came from, and the state of
/// the world it was answered under.
#[derive(Clone, Debug)]
pub struct PlanOutcome {
    pub plan: RoutePlan,
    pub cache_status: CacheStatus,
    pub policy_revision: String,
    pub catalog_revision: String,
    pub route_reason: Option<String>,
}

/// A model id is present in the catalog.
pub open spec fn model_listed(models: Seq<CompiledModel>, id: Seq<char>) -> bool {
    exists|j: int| 0 <= j < models.len() && (#[trigger] models[j]).id@ == id
}

/// A cached entry is usable under the current snapshot: it was planned under
/// the current policy revision and its model is still listed.
pub open spec fn entry_ok(e: CachedPlan, policy_rev: Seq<char>, models: Seq<CompiledModel>) -> bool {
    e.plan.policy_rev@ == policy_rev && model_listed(models, e.plan.upstream.model_id@)
}

/// The routing engine: compiled policy and catalog, overlay store, plan
/// cache, stickiness, health, metrics and admission control.
#[derive(Clone, Debug)]
pub struct RouterEngine {
    pub cache: PlanCache,
    pub cache_ttl_ms: u64,
    pub policy: CompiledPolicy,
    pub catalog: CompiledCatalog,
    pub overlays: Vec<(String, String)>,
    pub stickiness: StickinessManager,
    pub health: HealthStore,
    pub metrics: RouterMetrics,
    pub rate_limiter: RateLimiter,
}

impl RouterEngine {
    /// The engine invariant: every alias candidate points into the model
    /// list, the index is bounded, the cache is uniquely keyed and holds only
    /// entries planned under the current revision, and the health store is
    /// well formed.
    pub open spec fn wf(&self) -> bool {
        &&& wf_cache(self.cache@)
        &&& self.cache.capacity >= 1
        &&& forall|i: int|
            0 <= i < self.cache@.len() ==> entry_ok(
                (#[trigger] self.cache@[i]).1,
                self.policy.doc.revision@,
                self.catalog.models@,
            )
        &&& forall|a: int, k: int|
            0 <= a < self.policy.alias_map@.len() && 0 <= k
                < (#[trigger] self.policy.alias_map@[a]).1.candidates@.len() ==> (
            #[trigger] self.policy.alias_map@[a].1.candidates@[k]) < self.catalog.models@.len()
        &&& index_bounded(self.catalog.index@, self.catalog.models@.len() as int)
        &&& wf_store(self.health@)
    }

    /// Build an engine from documents, overlays and configuration.  Fails
    /// exactly when a catalog model lacks its base url.
    pub fn bootstrap(
        policy_doc: PolicyDocument,
        catalog_doc: CatalogDocument,
        overlays: Vec<(String, String)>,
        sticky_secret: Vec<u8>,
        cache_ttl_ms: u64,
        cache_stale_ms: u64,
        rate_limit_burst_milli: u64,
        rate_limit_refill_per_sec_milli: u64,
    ) -> (r: Result<RouterEngine, RouterError>)
        ensures
            r matches Ok(e) ==> e.wf() && catalog_matches(e.catalog, catalog_doc) && policy_matches(
                e.policy,
                policy_doc,
                e.catalog.index@,
            ) && e.cache@.len() == 0 && e.overlays == overlays && e.cache_ttl_ms == cache_ttl_ms
                && e.cache.fresh_ttl_ms == cache_ttl_ms && e.cache.stale_extension_ms
                == cache_stale_ms && e.stickiness.secret@ == sticky_secret@ && e.health@.len() == 0,
            r is Ok <==> (forall|i: int|
                0 <= i < catalog_doc.models@.len() ==> (
                #[trigger] catalog_doc.models@[i]).metadata.base_url is Some),
    {
        let catalog = match compile_catalog(catalog_doc) {
            Ok(c) => c,
            Err(e) => {
                return Err(e);
            },
        };
        let policy = match compile_policy(policy_doc, &catalog) {
            Ok(p) => p,
            Err(e) => {
                return Err(e);
            },
        };
        let engine = RouterEngine {
            cache: PlanCache::new(MAX_CACHE_CAPACITY, cache_ttl_ms, cache_stale_ms),
            cache_ttl_ms,
            policy,
            catalog,
            overlays,
            stickiness: StickinessManager::new(sticky_secret),
            health: HealthStore::new(),
            metrics: RouterMetrics {
                total_requests: Vec::new(),
                model_share: Vec::new(),
                cache_hits: Vec::new(),
            },
            rate_limiter: RateLimiter::new(
                rate_limit_burst_milli,
                rate_limit_refill_per_sec_milli,
            ),
        };
        proof {
            assert forall|a: int, k: int|
                0 <= a < engine.policy.alias_map@.len() && 0 <= k
                    < (#[trigger] engine.policy.alias_map@[a]).1.candidates@.len() implies (
            #[trigger] engine.policy.alias_map@[a].1.candidates@[k])
                < engine.catalog.models@.len() by {
                lemma_candidates_bounded(
                    engine.policy.doc.aliases@[a].rule.candidates@,
                    engine.catalog.index@,
                    engine.catalog.models@.len() as int,
                );
            }
        }
        Ok(engine)
    }

    pub fn health(&self) -> (r: &HealthStore)
        ensures
            r == &self.health,
    {
        &self.health
    }

    /// Blend one feedback observation into the health store.
    pub fn record_feedback(&mut self, fb: &RouteFeedback, now_ms: u64)
        requires
            old(self).wf(),
        ensures
            final (self).wf(),
            stats_of(final (self).health@, fb.model_id@) == crate::health::updated_stats(
                stats_of(old(self).health@, fb.model_id@),
                *fb,
                now_ms,
            ),
            final (self).policy == old(self).policy,
            final (self).catalog == old(self).catalog,
            final (self).cache == old(self).cache,
    {
        self.health.update(fb, now_ms);
    }

    /// Admit or refuse a request under a rate-limit key.
    pub fn check_rate_limit(&mut self, key: &str, now_ms: u64) -> (r: Result<(), RouterError>)
        requires
            old(self).wf(),
        ensures
            final (self).wf(),
            final (self).policy == old(self).policy,
            final (self).catalog == old(self).catalog,
            final (self).cache == old(self).cache,
            final (self).health == old(self).health,
            r is Ok <==> crate::rate::admits(
                crate::rate::refilled(
                    crate::rate::bucket_of(
                        old(self).rate_limiter@,
                        key@,
                        old(self).rate_limiter.capacity_milli,
                        now_ms,
                    ),
                    old(self).rate_limiter.capacity_milli,
                    old(self).rate_limiter.refill_per_sec_milli,
                    now_ms,
                ),
            ),
            r matches Err(e) ==> code_of(e) == ErrorCode::PolicyDeny,
    {
        if self.rate_limiter.check(key, now_ms) {
            Ok(())
        } else {
            Err(RouterError::PolicyDeny(String::from_str("rate limit exceeded")))
        }
    }

    /// Replace the policy document: recompile against the current catalog and
    /// invalidate every cached plan.
    pub fn reload_policy(&mut self, doc: PolicyDocument) -> (r: Result<(), RouterError>)
        requires
            old(self).wf(),
        ensures
            final (self).wf(),
            r is Ok,
            policy_matches(final (self).policy, doc, final (self).catalog.index@),
            final (self).catalog == old(self).catalog,
            final (self).cache@.len() == 0,
            final (self).overlays == old(self).overlays,
            final (self).health == old(self).health,
    {
        let compiled = match compile_policy(doc, &self.catalog) {
            Ok(p) => p,
            Err(e) => {
                return Err(e);
            },
        };
        self.policy = compiled;
        self.cache.clear();
        proof {
            assert forall|a: int, k: int|
                0 <= a < self.policy.alias_map@.len() && 0 <= k
                    < (#[trigger] self.policy.alias_map@[a]).1.candidates@.len() implies (
            #[trigger] self.policy.alias_map@[a].1.candidates@[k])
                < self.catalog.models@.len() by {
                lemma_candidates_bounded(
                    self.policy.doc.aliases@[a].rule.candidates@,
                    self.catalog.index@,
                    self.catalog.models@.len() as int,
                );
            }
        }
        Ok(())
    }

    /// Replace the catalog document: recompile it, recompile the current
    /// policy against it, and invalidate every cached plan.  Fails exactly
    /// when a model lacks its base url; the old snapshot then stays active.
    pub fn reload_catalog(&mut self, doc: CatalogDocument) -> (r: Result<(), RouterError>)
        requires
            old(self).wf(),
        ensures
            final (self).wf(),
            r is Ok <==> (forall|i: int|
                0 <= i < doc.models@.len() ==> (#[trigger] doc.models@[i]).metadata.base_url
                    is Some),
            r is Ok ==> catalog_matches(final (self).catalog, doc) && policy_matches(
                final (self).policy,
                old(self).policy.doc,
                final (self).catalog.index@,
            ) && final (self).cache@.len() == 0,
            r is Err ==> *final (self) == *old(self),
            final (self).overlays == old(self).overlays,
            final (self).health == old(self).health,
    {
        let compiled = match compile_catalog(doc) {
            Ok(c) => c,
            Err(e) => {
                return Err(e);
            },
        };
        let mut old_policy = CompiledPolicy {
            doc: PolicyDocument {
                id: String::new(),
                revision: String::new(),
                schema_version: String::new(),
                weights: crate::types::PolicyWeights {
                    cost_milli: 0,
                    latency_milli: 0,
                    health_milli: 0,
                    context_milli: 0,
                    tier_bonus_milli: 0,
                },
                defaults: crate::types::PolicyDefaults {
                    cost_norm_micro: 0,
                    latency_ms: 0,
                    timeout_ms: 0,
                    max_output_tokens: 0,
                    max_overlay_bytes: 0,
                    stickiness: crate::types::PolicyStickiness { window_ms: 0, max_turns: 0 },
                },
                governance: GovernanceEcho {
                    budgets: GovernanceBudgets { total: None, l3_max: None },
                    approvals: GovernanceApprovals { require_for_levels: Vec::new() },
                },
                escalations: PolicyEscalations {
                    token_len_over: None,
                    uncertainty_regex: None,
                    scpi_error_present: None,
                    teacher_boost_tier: None,
                    default_tier: None,
                    fallback_tier: None,
                },
                tiers: Vec::new(),
                aliases: Vec::new(),
                overlay_map: Vec::new(),
                overlay_defaults: Vec::new(),
            },
            alias_map: Vec::new(),
        };
        core::mem::swap(&mut old_policy, &mut self.policy);
        let repolicied = match compile_policy(old_policy.doc, &compiled) {
            Ok(p) => p,
            Err(e) => {
                return Err(e);
            },
        };
        self.catalog = compiled;
        self.policy = repolicied;
        self.cache.clear();
        proof {
            assert forall|a: int, k: int|
                0 <= a < self.policy.alias_map@.len() && 0 <= k
                    < (#[trigger] self.policy.alias_map@[a]).1.candidates@.len() implies (
            #[trigger] self.policy.alias_map@[a].1.candidates@[k])
                < self.catalog.models@.len() by {
                lemma_candidates_bounded(
                    self.policy.doc.aliases@[a].rule.candidates@,
                    self.catalog.index@,
                    self.catalog.models@.len() as int,
                );
            }
        }
        Ok(())
    }

    /// Replace the overlay store with freshly scanned bodies.
    pub fn reload_overlays(&mut self, overlays: Vec<(String, String)>) -> (r: Result<
        (),
        RouterError,
    >)
        requires
            old(self).wf(),
        ensures
            final (self).wf(),
            r is Ok,
            final (self).overlays == overlays,
            final (self).policy == old(self).policy,
            final (self).catalog == old(self).catalog,
            final (self).cache == old(self).cache,
            final (self).health == old(self).health,
    {
        self.overlays = overlays;
        Ok(())
    }

    pub fn policy_document(&self) -> (r: &PolicyDocument)
        ensures
            r == &self.policy.doc,
    {
        &self.policy.doc
    }

    pub fn catalog_document(&self) -> (r: &CatalogDocument)
        ensures
            r == &self.catalog.raw,
    {
        &self.catalog.raw
    }

    pub fn policy_revision(&self) -> (r: String)
        ensures
            r@ == self.policy.doc.revision@,
    {
        self.policy.doc.revision.clone()
    }

    pub fn catalog_revision(&self) -> (r: String)
        ensures
            r@ == self.catalog.revision@,
    {
        self.catalog.revision.clone()
    }
}

/// A counter after one more event, saturating.
pub open spec fn bumped(prev: Option<u64>) -> u64 {
    match prev {
        Some(n) => if n == u64::MAX {
            u64::MAX
        } else {
            (n + 1) as u64
        },
        None => 1u64,
    }
}

/// Add one to a counter, saturating; other keys keep their counts.
fn bump_counter(v: &mut Vec<(String, u64)>, key: &str)
    ensures
        assoc_find(final (v)@, key@) == Some(bumped(assoc_find(old(v)@, key@))),
        forall|k2: Seq<char>| k2 != key@ ==> assoc_find(final (v)@, k2) == assoc_find(old(v)@, k2),
        final (v)@.len() <= old(v)@.len() + 1,
{
    let next: u64 = match assoc_get(v, key) {
        Some(n) => {
            if *n == u64::MAX {
                u64::MAX
            } else {
                *n + 1
            }
        },
        None => 1,
    };
    assoc_set(v, key, next);
}

/// Sum of a counter vector, saturating.
pub open spec fn sum_counts(s: Seq<(String, u64)>) -> int
    decreases s.len(),
{
    if s.len() == 0 {
        0
    } else {
        sum_counts(s.drop_last()) + s.last().1
    }
}

/// A counter sum clipped to what a word can carry.
pub open spec fn sat_sum(s: Seq<(String, u64)>) -> u64 {
    if sum_counts(s) > u64::MAX {
        u64::MAX
    } else {
        sum_counts(s) as u64
    }
}

/// Hits over total in parts per million, clipped to one; zero when idle.
pub open spec fn hit_ratio_ppm_spec(hits: u64, total: u64) -> u32 {
    if total == 0 {
        0u32
    } else if (hits as int) * 1000000 / (total as int) > 1000000 {
        1000000u32
    } else {
        ((hits as int) * 1000000 / (total as int)) as u32
    }
}

fn total_counts(v: &Vec<(String, u64)>) -> (r: u64)
    ensures
        r == if sum_counts(v@) > u64::MAX {
            u64::MAX as int
        } else {
            sum_counts(v@)
        },
{
    let mut total: u64 = 0;
    let mut saturated = false;
    let mut i: usize = 0;
    while i < v.len()
        invariant
            i <= v@.len(),
            !saturated ==> total == sum_counts(v@.subrange(0, i as int)),
            saturated ==> total == u64::MAX && sum_counts(v@.subrange(0, i as int)) > u64::MAX,
            sum_counts(v@.subrange(0, i as int)) >= total,
        decreases v@.len() - i,
    {
        proof {
            assert(v@.subrange(0, i + 1).drop_last() =~= v@.subrange(0, i as int));
            assert(v@.subrange(0, i + 1).last() == v@[i as int]);
        }
        let n = v[i].1;
        if !saturated && total <= u64::MAX - n {
            total = total + n;
        } else {
            total = u64::MAX;
            saturated = true;
        }
        i = i + 1;
    }
    proof {
        assert(v@.subrange(0, v@.len() as int) =~= v@);
    }
    total
}


/// The overlay fingerprint string that enters the cache key: the block's
/// fingerprint, or a fixed marker when there is none.
pub open spec fn overlay_fp_chars(policy: PolicyDocument, overlays: Seq<(String, String)>, alias: Seq<char>, role: Seq<char>) -> Seq<char> {
    match overlay_id_spec(policy, alias, role) {
        None => "overlay:none"@,
        Some(idv) => match assoc_find(overlays, idv) {
            None => "missing:"@ + idv,
            Some(content) => "sha256:"@ + hex_of(
                sha256_of(vstd::utf8::encode_utf8(content@)),
            ),
        },
    }
}

/// The cache fingerprint a request derives under a policy, an overlay store,
/// a sticky model index and a canonical hash.  The request id plays no part.
pub open spec fn request_key_spec(
    req: RouteRequest,
    policy: PolicyDocument,
    overlays: Seq<(String, String)>,
    sticky_model: u32,
    chash: u64,
) -> u64 {
    cache_key_spec(
        policy.revision@,
        hash_chars_spec(req.alias@),
        caps_mask_spec(req) as u64,
        json_mode_spec(req),
        crate::bucket_tokens_spec(in_tokens_spec(req)),
        crate::bucket_tokens_spec(out_tokens_spec(req, policy.defaults)),
        region_mask_spec(req),
        boost_spec(req),
        sticky_model,
        hash_chars_spec(overlay_fp_chars(policy, overlays, req.alias@, role_spec(req))),
        req.privacy_mode,
        req.api,
        hash_chars_spec(freeze_key_spec(req, policy.revision@)),
        chash,
    )
}

/// The request fields the fingerprint may depend on, compared by content.
/// The request id is deliberately absent.
pub open spec fn same_routing_fields(r1: RouteRequest, r2: RouteRequest) -> bool {
    &&& r1.alias@ == r2.alias@
    &&& r1.api == r2.api
    &&& r1.privacy_mode == r2.privacy_mode
    &&& r1.caps@.len() == r2.caps@.len()
    &&& (forall|i: int| 0 <= i < r1.caps@.len() ==> (#[trigger] r1.caps@[i])@ == r2.caps@[i]@)
    &&& json_mode_spec(r1) == json_mode_spec(r2)
    &&& (match (r1.tools, r2.tools) {
        (Some(a), Some(b)) => a@.len() == b@.len(),
        (None, None) => true,
        _ => false,
    })
    &&& (match (r1.estimates, r2.estimates) {
        (Some(a), Some(b)) => a.prompt_tokens == b.prompt_tokens && a.max_output_tokens
            == b.max_output_tokens,
        (None, None) => true,
        _ => false,
    })
    &&& (match (r1.geo, r2.geo) {
        (Some(a), Some(b)) => opt_view(a.region) == opt_view(b.region),
        (None, None) => true,
        _ => false,
    })
    &&& boost_spec(r1) == boost_spec(r2)
    &&& (match (r1.overrides, r2.overrides) {
        (Some(a), Some(b)) => opt_view(a.freeze_key) == opt_view(b.freeze_key),
        (None, None) => true,
        (Some(a), None) => a.freeze_key is None,
        (None, Some(b)) => b.freeze_key is None,
    })
    &&& role_spec(r1) == role_spec(r2)
}

/// Two requests that agree on every routing field derive the same cache
/// fingerprint under the same snapshot, sticky model and canonical hash:
/// the request id never influences the fingerprint.
pub proof fn lemma_fingerprint_ignores_request_id(
    r1: RouteRequest,
    r2: RouteRequest,
    policy: PolicyDocument,
    overlays: Seq<(String, String)>,
    sticky_model: u32,
    chash: u64,
)
    requires
        same_routing_fields(r1, r2),
    ensures
        request_key_spec(r1, policy, overlays, sticky_model, chash) == request_key_spec(
            r2,
            policy,
            overlays,
            sticky_model,
            chash,
        ),
{
    crate::masks::lemma_caps_of_names_eqv(r1.caps@, r2.caps@);
    assert(caps_mask_spec(r1) == caps_mask_spec(r2));
    assert(in_tokens_spec(r1) == in_tokens_spec(r2));
    assert(out_tokens_spec(r1, policy.defaults) == out_tokens_spec(r2, policy.defaults));
    assert(region_mask_spec(r1) == region_mask_spec(r2));
    assert(freeze_key_spec(r1, policy.revision@) == freeze_key_spec(r2, policy.revision@));
    assert(overlay_fp_chars(policy, overlays, r1.alias@, role_spec(r1)) == overlay_fp_chars(
        policy,
        overlays,
        r2.alias@,
        role_spec(r2),
    ));
}


/// No alias candidate survives the unconstrained filter for this request.
pub open spec fn no_candidate_passes(
    req: RouteRequest,
    alias: CompiledAlias,
    models: Seq<CompiledModel>,
    health: Seq<(String, HealthStats)>,
    defaults: PolicyDefaults,
) -> bool {
    no_candidate_passes_tier(req, alias, models, health, defaults, None)
}

/// The one hard-deny condition: the overlay the request resolves to has
/// stored content over the policy's size bound.
pub open spec fn overlay_denied(
    req: RouteRequest,
    policy: PolicyDocument,
    overlays: Seq<(String, String)>,
) -> bool {
    overlay_id_spec(policy, req.alias@, role_spec(req)) matches Some(idv) && assoc_find(
        overlays,
        idv,
    ) matches Some(content) && overlay_len(content@) > policy.defaults.max_overlay_bytes
}

/// Whether the request carries a plan token at all.
pub open spec fn has_plan_token(req: RouteRequest) -> bool {
    match req.overrides {
        Some(ov) => ov.plan_token is Some,
        None => false,
    }
}

pub open spec fn budget_of(req: RouteRequest) -> Option<u64> {
    match req.budget {
        Some(b) => Some(b.amount_micro),
        None => None,
    }
}

pub open spec fn p95_of(req: RouteRequest) -> Option<u32> {
    match req.targets {
        Some(t) => t.p95_latency_ms,
        None => None,
    }
}

/// The tag a forced tier matches against.
pub open spec fn forced_tag_spec(tier: Option<Seq<char>>) -> Option<Seq<char>> {
    match tier {
        Some(t) => Some("tier:"@ + t),
        None => None,
    }
}

/// No alias candidate survives the filter under a forced tier.
pub open spec fn no_candidate_passes_tier(
    req: RouteRequest,
    alias: CompiledAlias,
    models: Seq<CompiledModel>,
    health: Seq<(String, HealthStats)>,
    defaults: PolicyDefaults,
    forced: Option<Seq<char>>,
) -> bool {
    forall|k: int|
        0 <= k < alias.candidates@.len() ==> !passes_filter(
            models[#[trigger] alias.candidates@[k] as int],
            stats_of(health, models[alias.candidates@[k] as int].id@),
            alias,
            caps_mask_spec(req),
            region_mask_spec(req),
            in_tokens_spec(req),
            out_tokens_spec(req, defaults),
            forced,
            budget_of(req),
            p95_of(req),
            cache_ctx_spec(req),
        )
}

/// `cands` is the ranking `plan` scores for this request under a forced
/// tier: exactly the filter-passing candidates, each with its exact
/// estimates and score, by descending score with ties in candidate order.
pub open spec fn ranked_for(
    req: RouteRequest,
    canonical: Option<CanonicalSelection>,
    alias: CompiledAlias,
    models: Seq<CompiledModel>,
    health: Seq<(String, HealthStats)>,
    weights: PolicyWeights,
    defaults: PolicyDefaults,
    forced: Option<Seq<char>>,
    cands: Seq<Candidate>,
) -> bool {
    &&& forall|j: int|
        0 <= j < cands.len() ==> cand_ok(
            #[trigger] cands[j],
            alias,
            models,
            health,
            weights,
            defaults,
            caps_mask_spec(req),
            region_mask_spec(req),
            in_tokens_spec(req),
            out_tokens_spec(req, defaults),
            boost_spec(req),
            forced,
            canonical,
            cache_ctx_spec(req),
            budget_of(req),
            p95_of(req),
        )
    &&& forall|k: int|
        0 <= k < alias.candidates@.len() && passes_filter(
            models[#[trigger] alias.candidates@[k] as int],
            stats_of(health, models[alias.candidates@[k] as int].id@),
            alias,
            caps_mask_spec(req),
            region_mask_spec(req),
            in_tokens_spec(req),
            out_tokens_spec(req, defaults),
            forced,
            budget_of(req),
            p95_of(req),
            cache_ctx_spec(req),
        ) ==> exists|j: int| 0 <= j < cands.len() && (#[trigger] cands[j]).pos == k
    &&& sorted_desc(cands)
}

/// The route reason a fresh plan reports when its first scoring stage was
/// used: the escalation reason, else the canonical hint.
pub open spec fn stage_reason(
    why: Option<Seq<char>>,
    canonical: Option<CanonicalSelection>,
) -> Option<Seq<char>> {
    match why {
        Some(w) => Some(w),
        None => match canonical {
            Some(sel) => Some("canonical:"@ + sel.model_id@),
            None => None,
        },
    }
}

/// What a fresh (missed) outcome certifies: a two-stage ranking exists, the
/// plan's model and estimates come from one of its candidates, a request
/// without a plan token takes the top-ranked one and reports the stage's
/// reason, and the plan echoes the request's schema and content level.
pub open spec fn miss_selection_ok(
    req: RouteRequest,
    canonical: Option<CanonicalSelection>,
    policy: PolicyDocument,
    alias: CompiledAlias,
    models: Seq<CompiledModel>,
    health: Seq<(String, HealthStats)>,
    o: PlanOutcome,
) -> bool {
    let esc = escalation_spec(
        policy.escalations,
        in_tokens_spec(req),
        boost_spec(req),
        summary_view(req),
        scpi_flag_spec(req),
    );
    let forced = forced_tag_spec(esc.0);
    exists|cands: Seq<Candidate>, best: int|
        {
            &&& ((ranked_for(
                req,
                canonical,
                alias,
                models,
                health,
                policy.weights,
                policy.defaults,
                forced,
                cands,
            ) && cands.len() > 0 && (!has_plan_token(req) ==> opt_view(o.route_reason)
                == stage_reason(esc.1, canonical))) || (forced is Some && no_candidate_passes_tier(
                req,
                alias,
                models,
                health,
                policy.defaults,
                forced,
            ) && ranked_for(
                req,
                canonical,
                alias,
                models,
                health,
                policy.weights,
                policy.defaults,
                None,
                cands,
            ) && (!has_plan_token(req) ==> o.route_reason is None)))
            &&& 0 <= best < cands.len()
            &&& #[trigger] cands[best].model_idx < models.len()
            &&& (!has_plan_token(req) ==> best == 0)
            &&& o.plan.upstream.model_id@ == models[cands[best].model_idx as int].id@
            &&& o.plan.upstream.base_url@ == models[cands[best].model_idx as int].base_url@
            &&& o.plan.hints.est_cost_micro == Some(cands[best].est_cost_micro)
            &&& o.plan.hints.est_latency_ms == Some(cands[best].est_latency_ms)
            &&& o.plan.schema_version@ == req.schema_version@
            &&& o.plan.content_used == content_used_spec(req)
        }
}

/// What a cache hit certifies: some stored entry supplied the status, the
/// upstream and the limits, and the reason is the entry's unless a sticky
/// session overrode it to a policy lock.
pub open spec fn hit_outcome_ok(
    o: PlanOutcome,
    cache: Seq<(u64, CachedPlan)>,
    fresh_ttl_ms: u64,
    stale_extension_ms: u64,
    now_ms: u64,
    token_present: bool,
) -> bool {
    exists|i: int|
        0 <= i < cache.len() && {
            let e = (#[trigger] cache[i]).1;
            &&& o.cache_status == status_of(e, fresh_ttl_ms, stale_extension_ms, now_ms)
            &&& o.cache_status != CacheStatus::Miss
            &&& o.plan.upstream.model_id@ == e.plan.upstream.model_id@
            &&& o.plan.upstream.base_url@ == e.plan.upstream.base_url@
            &&& o.plan.policy_rev@ == e.plan.policy_rev@
            &&& o.plan.limits == e.plan.limits
            &&& (opt_view(o.route_reason) == Some("policy_lock"@) || opt_view(o.route_reason)
                == opt_view(e.route_reason))
            &&& (!token_present ==> opt_view(o.route_reason) == opt_view(e.route_reason))
        }
}

/// What a fresh insertion leaves in the cache: the blueprint under some
/// fingerprint, stamped now, without any stickiness token, carrying the
/// reported reason, and expiring with the issued session when stickiness is
/// on.
pub open spec fn stored_blueprint_ok(
    o: PlanOutcome,
    cache: Seq<(u64, CachedPlan)>,
    now_ms: u64,
    sticky: crate::types::PolicyStickiness,
) -> bool {
    exists|k: u64|
        #[trigger] cache_find(cache, k) matches Some(e) && {
            &&& e.inserted_at_ms == now_ms
            &&& e.plan.stickiness.plan_token is None
            &&& e.plan.stickiness.max_turns is None
            &&& e.plan.stickiness.expires_at is None
            &&& e.plan.upstream.model_id@ == o.plan.upstream.model_id@
            &&& e.plan.policy_rev@ == o.plan.policy_rev@
            &&& opt_view(e.route_reason) == opt_view(o.route_reason)
            &&& (sticky.max_turns > 0 && sticky.window_ms > 0 ==> e.valid_until_ms == Some(
                sat_add64(now_ms, sticky.window_ms),
            ))
            &&& (!(sticky.max_turns > 0 && sticky.window_ms > 0) ==> e.valid_until_ms is None)
        }
}

impl RouterEngine {
    /// Plan a route: resolve the alias, derive the scoring inputs and the
    /// fingerprint, serve from the cache when possible, otherwise filter and
    /// score candidates (retrying without a forced tier when it empties the
    /// field), choose the primary, materialize the plan, attach stickiness
    /// and cache the blueprint.
    ///
    /// The returned plan names a model of the current catalog, and its
    /// revisions echo the current snapshot.  A freshly planned (missed)
    /// route fits the request's token estimates into the model's context
    /// window.  An unknown alias is refused as such; an oversized overlay is
    /// denied; an empty field after filtering fails planning, and only these
    /// three errors arise.
    #[verifier::rlimit(100)]
    #[verifier::spinoff_prover]
    pub fn plan(
        &mut self,
        req: &RouteRequest,
        canonical: Option<CanonicalSelection>,
        now_ms: u64,
    ) -> (r: Result<PlanOutcome, RouterError>)
        requires
            old(self).wf(),
        ensures
            final (self).wf(),
            final (self).policy == old(self).policy,
            final (self).catalog == old(self).catalog,
            final (self).overlays == old(self).overlays,
            final (self).health == old(self).health,
            final (self).rate_limiter == old(self).rate_limiter,
            final (self).stickiness == old(self).stickiness,
            final (self).cache_ttl_ms == old(self).cache_ttl_ms,
            match r {
                Ok(o) => {
                    &&& o.policy_revision@ == old(self).policy.doc.revision@
                    &&& o.catalog_revision@ == old(self).catalog.revision@
                    &&& o.plan.policy_rev@ == old(self).policy.doc.revision@
                    &&& model_listed(old(self).catalog.models@, o.plan.upstream.model_id@)
                    &&& (o.cache_status == CacheStatus::Miss ==> exists|j: int|
                        0 <= j < old(self).catalog.models@.len() && (
                        #[trigger] old(self).catalog.models@[j]).id@ == o.plan.upstream.model_id@
                            && old(self).catalog.models@[j].context_tokens >= in_tokens_spec(*req)
                            + out_tokens_spec(*req, old(self).policy.doc.defaults))
                    &&& ((old(self).policy.doc.defaults.stickiness.max_turns > 0 && old(
                        self,
                    ).policy.doc.defaults.stickiness.window_ms > 0) <==> o.plan.stickiness.plan_token
                        is Some)
                    &&& (o.cache_status == CacheStatus::Miss ==> (assoc_find(
                        old(self).policy.alias_map@,
                        req.alias@,
                    ) matches Some(found_alias) && miss_selection_ok(
                        *req,
                        canonical,
                        old(self).policy.doc,
                        found_alias,
                        old(self).catalog.models@,
                        old(self).health@,
                        o,
                    )))
                    &&& (o.cache_status != CacheStatus::Miss ==> hit_outcome_ok(
                        o,
                        old(self).cache@,
                        old(self).cache.fresh_ttl_ms,
                        old(self).cache.stale_extension_ms,
                        now_ms,
                        has_plan_token(*req),
                    ))
                    &&& ((o.cache_status != CacheStatus::Miss && (match req.overrides {
                        Some(ov) => match ov.plan_token {
                            Some(t) => crate::stickiness::valid_session_token(
                                old(self).stickiness.secret@,
                                t@,
                                now_ms,
                            ),
                            None => false,
                        },
                        None => false,
                    })) ==> opt_view(o.route_reason) == Some("policy_lock"@))
                    &&& (o.cache_status == CacheStatus::Miss ==> stored_blueprint_ok(
                        o,
                        final (self).cache@,
                        now_ms,
                        old(self).policy.doc.defaults.stickiness,
                    ))
                    &&& assoc_find(final (self).metrics.total_requests@, req.alias@) == Some(
                        bumped(assoc_find(old(self).metrics.total_requests@, req.alias@)),
                    )
                    &&& (o.cache_status == CacheStatus::Miss ==> assoc_find(
                        final (self).metrics.model_share@,
                        o.plan.upstream.model_id@,
                    ) == Some(
                        bumped(
                            assoc_find(
                                old(self).metrics.model_share@,
                                o.plan.upstream.model_id@,
                            ),
                        ),
                    ) && final (self).metrics.cache_hits == old(self).metrics.cache_hits)
                    &&& (o.cache_status != CacheStatus::Miss ==> assoc_find(
                        final (self).metrics.cache_hits@,
                        req.alias@,
                    ) == Some(bumped(assoc_find(old(self).metrics.cache_hits@, req.alias@)))
                        && final (self).metrics.model_share == old(self).metrics.model_share)
                },
                Err(e) => {
                    &&& (code_of(e) == ErrorCode::AliasUnknown || code_of(e)
                        == ErrorCode::PolicyDeny || code_of(e) == ErrorCode::PlanningFailed)
                    &&& (code_of(e) == ErrorCode::AliasUnknown <==> assoc_find(
                        old(self).policy.alias_map@,
                        req.alias@,
                    ) is None)
                    &&& (code_of(e) == ErrorCode::PolicyDeny <==> (assoc_find(
                        old(self).policy.alias_map@,
                        req.alias@,
                    ) is Some && overlay_denied(*req, old(self).policy.doc, old(self).overlays@)))
                    &&& (code_of(e) == ErrorCode::PlanningFailed ==> (assoc_find(
                        old(self).policy.alias_map@,
                        req.alias@,
                    ) matches Some(found_alias) && !overlay_denied(
                        *req,
                        old(self).policy.doc,
                        old(self).overlays@,
                    ) && no_candidate_passes(
                        *req,
                        found_alias,
                        old(self).catalog.models@,
                        old(self).health@,
                        old(self).policy.doc.defaults,
                    )))
                    &&& final (self).cache == old(self).cache
                    &&& final (self).metrics == old(self).metrics
                },
            },
            assoc_find(old(self).policy.alias_map@, req.alias@) is None ==> (r matches Err(e)
                && code_of(e) == ErrorCode::AliasUnknown),
            (assoc_find(old(self).policy.alias_map@, req.alias@) matches Some(found_alias)
                && !overlay_denied(*req, old(self).policy.doc, old(self).overlays@)
                && !no_candidate_passes(
                *req,
                found_alias,
                old(self).catalog.models@,
                old(self).health@,
                old(self).policy.doc.defaults,
            )) ==> r is Ok,
    {
        let alias = match assoc_get(&self.policy.alias_map, req.alias.as_str()) {
            Some(a) => a,
            None => {
                return Err(RouterError::UnknownAlias(req.alias.clone()));
            },
        };
        proof {
            crate::assoc::lemma_assoc_find_member(self.policy.alias_map@, req.alias@);
            let wi = choose|i: int|
                0 <= i < self.policy.alias_map@.len() && (#[trigger] self.policy.alias_map@[i]).1
                    == *alias && self.policy.alias_map@[i].0@ == req.alias@;
            assert forall|k: int| 0 <= k < alias.candidates@.len() implies (
            #[trigger] alias.candidates@[k]) < self.catalog.models@.len() by {
                assert(self.policy.alias_map@[wi].1.candidates@[k]
                    < self.catalog.models@.len());
            }
        }
        let caps_mask = caps_mask_of(req);
        let json_mode = json_mode_of(req);
        let in_tokens = in_tokens_of(req);
        let out_tokens = out_tokens_of(req, &self.policy.doc.defaults);
        let region_mask = region_mask_of(req);
        let boost = has_teacher_boost(req);
        let cache_ctx = cache_ctx_of(req);
        let scpi = scpi_flag_of(req);
        let sticky_claims: Option<StickinessClaims> = match &req.overrides {
            Some(ov) => match &ov.plan_token {
                Some(token) => match self.stickiness.verify(token.as_str(), now_ms) {
                    Ok(claims) => Some(claims),
                    Err(_) => None,
                },
                None => None,
            },
            None => None,
        };
        let plan_token_model: u32 = match &sticky_claims {
            Some(claims) => match assoc_get(&self.catalog.index, claims.model_id.as_str()) {
                Some(idx) => {
                    if *idx > (u32::MAX as usize) {
                        0
                    } else {
                        *idx as u32
                    }
                },
                None => 0,
            },
            None => 0,
        };
        let content_used = determine_content_usage(req);
        let freeze_key = freeze_key_from_request(req, self.policy.doc.revision.as_str());
        let prompt_overlays = match resolve_overlay(
            req,
            &self.policy.doc,
            &self.overlays,
            self.policy.doc.defaults.max_overlay_bytes,
        ) {
            Ok(po) => po,
            Err(e) => {
                return Err(e);
            },
        };
        let overlay_hash: u64 = match &prompt_overlays.overlay_fingerprint {
            Some(fp) => hash_string(fp.as_str()),
            None => hash_string("overlay:none"),
        };
        let summary: Option<&String> = match &req.conversation {
            Some(c) => match &c.summary {
                Some(s) => Some(s),
                None => None,
            },
            None => None,
        };
        let escalation = determine_escalation(
            &self.policy.doc.escalations,
            in_tokens,
            boost,
            summary,
            scpi,
        );
        let forced_tier = escalation.0;
        let mut base_reason = escalation.1;
        if let Some(sel) = &canonical {
            if base_reason.is_none() {
                base_reason = Some(String::from_str("canonical:").concat(sel.model_id.as_str()));
            }
        }
        let chash: u64 = match &canonical {
            Some(sel) => canonical_hash(sel),
            None => 0,
        };
        let key = CacheKey::derive(
            self.policy.doc.revision.as_str(),
            hash_string(req.alias.as_str()),
            caps_mask as u64,
            json_mode,
            crate::bucket_tokens(in_tokens),
            crate::bucket_tokens(out_tokens),
            region_mask,
            boost,
            plan_token_model,
            overlay_hash,
            req.privacy_mode,
            req.api,
            hash_string(freeze_key.as_str()),
            chash,
        );
        let cached: Option<(RoutePlan, CacheStatus, Option<String>)> = match self.cache.get(
            key,
            now_ms,
        ) {
            Some((stored, status, reason)) => Some(
                (dup_route_plan(stored), status, dup_opt_string(reason)),
            ),
            None => None,
        };
        if let Some((mut response_plan, status, cached_reason)) = cached {
            proof {
                crate::cache::lemma_cache_find_member(self.cache@, key.0);
            }
            let issued = match attach_stickiness(
                &self.stickiness,
                &self.policy.doc.defaults.stickiness,
                req,
                &mut response_plan,
                match &sticky_claims {
                    Some(c) => Some(c),
                    None => None,
                },
                now_ms,
            ) {
                Ok(i) => i,
                Err(e) => {
                    return Err(e);
                },
            };
            let effective_reason: Option<String> = if sticky_claims.is_some() {
                Some(String::from_str("policy_lock"))
            } else {
                cached_reason
            };
            bump_counter(&mut self.metrics.total_requests, req.alias.as_str());
            bump_counter(&mut self.metrics.cache_hits, req.alias.as_str());
            let outcome = PlanOutcome {
                plan: response_plan,
                cache_status: status,
                policy_revision: self.policy.doc.revision.clone(),
                catalog_revision: self.catalog.revision.clone(),
                route_reason: effective_reason,
            };
            proof {
                let wi = choose|i: int|
                    0 <= i < self.cache@.len() && (#[trigger] self.cache@[i]).1 == cache_find(
                        self.cache@,
                        key.0,
                    ).unwrap() && self.cache@[i].0 == key.0;
                assert(outcome.cache_status == status_of(
                    self.cache@[wi].1,
                    self.cache.fresh_ttl_ms,
                    self.cache.stale_extension_ms,
                    now_ms,
                ));
                assert(hit_outcome_ok(
                    outcome,
                    self.cache@,
                    self.cache.fresh_ttl_ms,
                    self.cache.stale_extension_ms,
                    now_ms,
                    has_plan_token(*req),
                ));
            }
            return Ok(outcome);
        }
        let forced_tag: Option<String> = match &forced_tier {
            Some(t) => Some(String::from_str("tier:").concat(t.as_str())),
            None => None,
        };
        let budget_micro: Option<u64> = match &req.budget {
            Some(b) => Some(b.amount_micro),
            None => None,
        };
        let p95_cap: Option<u32> = match &req.targets {
            Some(t) => t.p95_latency_ms,
            None => None,
        };
        let mut candidates = score_candidates(
            alias,
            &self.catalog,
            &self.health,
            &self.policy.doc.weights,
            &self.policy.doc.defaults,
            caps_mask,
            in_tokens,
            out_tokens,
            region_mask,
            boost,
            match &forced_tag {
                Some(t) => Some(t),
                None => None,
            },
            match &canonical {
                Some(sel) => Some(sel),
                None => None,
            },
            cache_ctx,
            budget_micro,
            p95_cap,
        );
        let ghost cands_first = candidates@;
        if candidates.len() == 0 && forced_tag.is_some() {
            base_reason = None;
            candidates = score_candidates(
                alias,
                &self.catalog,
                &self.health,
                &self.policy.doc.weights,
                &self.policy.doc.defaults,
                caps_mask,
                in_tokens,
                out_tokens,
                region_mask,
                boost,
                None,
                match &canonical {
                    Some(sel) => Some(sel),
                    None => None,
                },
                cache_ctx,
                budget_micro,
                p95_cap,
            );
        }
        let best_idx = match choose_primary(
            &candidates,
            &self.catalog,
            match &sticky_claims {
                Some(c) => Some((&c.alias, &c.model_id)),
                None => None,
            },
            req.alias.as_str(),
        ) {
            Some(i) => i,
            None => {
                proof {
                    assert(candidates@.len() == 0);
                    assert(tier_view(None) is None);
                    assert(no_candidate_passes(
                        *req,
                        *alias,
                        self.catalog.models@,
                        self.health@,
                        self.policy.doc.defaults,
                    )) by {
                        if forced_tag is Some && cands_first.len() > 0 {
                            assert(false);
                        }
                    }
                }
                return Err(
                    RouterError::Planning(String::from_str("no candidates after scoring")),
                );
            },
        };
        let best = candidates[best_idx];
        proof {
            assert(best.model_idx < self.catalog.models@.len());
        }
        let sticky_locked: bool = match &sticky_claims {
            Some(c) => str_eq(c.alias.as_str(), req.alias.as_str()) && str_eq(
                c.model_id.as_str(),
                self.catalog.models[best.model_idx].id.as_str(),
            ),
            None => false,
        };
        if sticky_locked {
            base_reason = Some(String::from_str("policy_lock"));
        }
        let picks = build_fallbacks(
            &candidates,
            &self.catalog,
            self.catalog.models[best.model_idx].id.as_str(),
        );
        let fallbacks = fallbacks_of(&picks, &self.catalog);
        let cache_ttl: u32 = if self.cache_ttl_ms > (u32::MAX as u64) {
            u32::MAX
        } else {
            self.cache_ttl_ms as u32
        };
        let plan_blueprint = materialize_plan(
            req,
            &self.policy.doc,
            prompt_overlays,
            best,
            &self.catalog.models[best.model_idx],
            fallbacks,
            out_tokens,
            content_used,
            cache_ttl,
            freeze_key,
            self.catalog.revision.as_str(),
            &canonical,
        );
        let mut response_plan = dup_route_plan(&plan_blueprint);
        let issued = match attach_stickiness(
            &self.stickiness,
            &self.policy.doc.defaults.stickiness,
            req,
            &mut response_plan,
            match &sticky_claims {
                Some(c) => Some(c),
                None => None,
            },
            now_ms,
        ) {
            Ok(i) => i,
            Err(e) => {
                return Err(e);
            },
        };
        let valid_until: Option<u64> = match &issued {
            Some(claims) => Some(claims.expires_at_ms),
            None => None,
        };
        let reason_for_cache = dup_opt_string(&base_reason);
        proof {
            assert(plan_blueprint.policy_rev@ == self.policy.doc.revision@);
            assert(model_listed(self.catalog.models@, plan_blueprint.upstream.model_id@));
        }
        let ghost gblueprint = plan_blueprint;
        let ghost greason_cache = reason_for_cache;
        let ghost cache_before = self.cache@;
        self.cache.insert(key, plan_blueprint, now_ms, valid_until, reason_for_cache);
        proof {
            assert forall|i: int| 0 <= i < self.cache@.len() implies entry_ok(
                (#[trigger] self.cache@[i]).1,
                self.policy.doc.revision@,
                self.catalog.models@,
            ) by {
                if self.cache@[i].0 == key.0 {
                    crate::cache::lemma_cache_find_key_unique(self.cache@, key.0, i);
                } else {
                    let i0 = choose|i0: int|
                        0 <= i0 < cache_before.len() && self.cache@[i] == #[trigger] cache_before[i0];
                    assert(entry_ok(
                        cache_before[i0].1,
                        self.policy.doc.revision@,
                        self.catalog.models@,
                    ));
                }
            }
        }
        bump_counter(
            &mut self.metrics.model_share,
            response_plan.upstream.model_id.as_str(),
        );
        bump_counter(&mut self.metrics.total_requests, req.alias.as_str());
        let outcome = PlanOutcome {
            plan: response_plan,
            cache_status: CacheStatus::Miss,
            policy_revision: self.policy.doc.revision.clone(),
            catalog_revision: self.catalog.revision.clone(),
            route_reason: base_reason,
        };
        proof {
            let models = self.catalog.models@;
            let health = self.health@;
            let pol = self.policy.doc;
            let esc = escalation_spec(
                pol.escalations,
                in_tokens_spec(*req),
                boost_spec(*req),
                summary_view(*req),
                scpi_flag_spec(*req),
            );
            let forced = forced_tag_spec(esc.0);
            assert(match forced_tag {
                Some(t) => forced == Some(t@),
                None => forced is None,
            });
            let gb = best_idx as int;
            assert(candidates@[gb] == best);
            if !has_plan_token(*req) {
                assert(best_idx == 0);
                if forced_tag is Some && cands_first.len() == 0 {
                    assert(outcome.route_reason is None);
                } else {
                    assert(opt_view(outcome.route_reason) == stage_reason(esc.1, canonical));
                }
            }
            if forced_tag is Some && cands_first.len() == 0 {
                assert(no_candidate_passes_tier(*req, *alias, models, health, pol.defaults, forced));
                assert(ranked_for(
                    *req,
                    canonical,
                    *alias,
                    models,
                    health,
                    pol.weights,
                    pol.defaults,
                    None,
                    candidates@,
                ));
            } else {
                assert(candidates@ == cands_first);
                assert(ranked_for(
                    *req,
                    canonical,
                    *alias,
                    models,
                    health,
                    pol.weights,
                    pol.defaults,
                    forced,
                    candidates@,
                ));
                assert(candidates@.len() > 0);
            }
            assert(candidates@[gb].model_idx < models.len());
            assert(miss_selection_ok(*req, canonical, pol, *alias, models, health, outcome));
            assert(cache_find(self.cache@, key.0) matches Some(e) && e.plan == gblueprint
                && e.inserted_at_ms == now_ms && e.route_reason == greason_cache);
            assert(stored_blueprint_ok(
                outcome,
                self.cache@,
                now_ms,
                pol.defaults.stickiness,
            ));
        }
        Ok(outcome)
    }

    /// A snapshot of the counters: the saturated total of requests, the
    /// cache-hit ratio in parts per million, and the share each model took,
    /// mirrored entry for entry.
    pub fn stats(&self) -> (r: RouterStats)
        ensures
            r.policy_revision@ == self.policy.doc.revision@,
            r.catalog_revision@ == self.catalog.revision@,
            r.total_requests == sat_sum(self.metrics.total_requests@),
            r.cache_hit_ratio_ppm == hit_ratio_ppm_spec(
                sat_sum(self.metrics.cache_hits@),
                sat_sum(self.metrics.total_requests@),
            ),
            r.model_share@.len() == self.metrics.model_share@.len(),
            forall|i: int|
                0 <= i < r.model_share@.len() ==> (#[trigger] r.model_share@[i]).0@
                    == self.metrics.model_share@[i].0@ && r.model_share@[i].1
                    == self.metrics.model_share@[i].1,
            r.error_rate_ppm == 0,
    {
        let total = total_counts(&self.metrics.total_requests);
        let hits = total_counts(&self.metrics.cache_hits);
        let ratio_ppm: u32 = if total == 0 {
            0
        } else {
            let wide: u128 = (hits as u128) * 1000000 / (total as u128);
            if wide > 1000000 {
                1000000
            } else {
                wide as u32
            }
        };
        let mut share: Vec<(String, u64)> = Vec::new();
        let mut i: usize = 0;
        while i < self.metrics.model_share.len()
            invariant
                i <= self.metrics.model_share@.len(),
                share@.len() == i,
                forall|j: int|
                    0 <= j < i ==> (#[trigger] share@[j]).0@ == self.metrics.model_share@[j].0@
                        && share@[j].1 == self.metrics.model_share@[j].1,
            decreases self.metrics.model_share@.len() - i,
        {
            share.push(
                (self.metrics.model_share[i].0.clone(), self.metrics.model_share[i].1),
            );
            i = i + 1;
        }
        RouterStats {
            policy_revision: self.policy.doc.revision.clone(),
            catalog_revision: self.catalog.revision.clone(),
            total_requests: total,
            cache_hit_ratio_ppm: ratio_ppm,
            model_share: share,
            error_rate_ppm: 0,
        }
    }
}

} // verus!
