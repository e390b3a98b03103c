//! Wire and internal record shapes: requests, plans, feedback, policy and
//! catalog documents.  Quantities that the routing engine reasons about are
//! held as plain integers: money in micro-units, rates in parts per million,
//! weights in thousandths.

use vstd::prelude::*;

verus! {

#[derive(Clone, Copy, Debug, PartialEq, Eq, Structural)]
pub enum PrivacyMode {
    FeaturesOnly,
    Summary,
    Full,
}

#[derive(Clone, Copy, Debug, PartialEq, Eq, Structural)]
pub enum ApiKind {
    Responses,
    Chat,
}

#[derive(Clone, Copy, Debug, PartialEq, Eq, Structural)]
pub enum ContentLevel {
    NoContent,
    Summary,
    Full,
}

#[derive(Clone, Copy, Debug, PartialEq, Eq, Structural)]
pub enum UpstreamMode {
    Responses,
    Chat,
}

#[derive(Clone, Copy, Debug, PartialEq, Eq, Structural)]
pub enum CacheStatus {
    Miss,
    Hit,
    Stale,
}

#[derive(Clone, Debug)]
pub struct TraceCtx {
    pub traceparent: Option<String>,
    pub tracestate: Option<String>,
}

#[derive(Clone, Debug)]
pub struct ContentAttestation {
    pub included: ContentLevel,
}

#[derive(Clone, Debug)]
pub struct Budget {
    pub amount_micro: u64,
    pub currency: String,
}

#[derive(Clone, Debug)]
pub struct Estimates {
    pub prompt_tokens: Option<u32>,
    pub max_output_tokens: Option<u32>,
    pub tokenizer_id: Option<String>,
}

#[derive(Clone, Debug)]
pub struct Targets {
    pub p95_latency_ms: Option<u32>,
    pub min_tokens_per_sec: Option<u32>,
    pub reliability_tier: Option<String>,
}

#[derive(Clone, Debug)]
pub struct Conversation {
    pub turns: Option<u16>,
    pub system_fingerprint: Option<String>,
    pub history_fingerprint: Option<String>,
    pub summary: Option<String>,
}

#[derive(Clone, Debug)]
pub struct OrgCtx {
    pub tenant: Option<String>,
    pub project: Option<String>,
    pub role: Option<String>,
}

#[derive(Clone, Debug)]
pub struct Geo {
    pub region: Option<String>,
}

#[derive(Clone, Debug)]
pub struct ToolHint {
    pub name: String,
    pub json_schema_hash: Option<String>,
}

/// The request parameters the engine inspects.
#[derive(Clone, Debug)]
pub struct RequestParams {
    pub json_mode: Option<bool>,
}

/// The recognized keys of the request's override bag.
#[derive(Clone, Debug)]
pub struct RequestOverrides {
    pub plan_token: Option<String>,
    pub teacher_boost: Option<bool>,
    pub scpi_error_present: Option<bool>,
    pub freeze_key: Option<String>,
    pub canonical_summary: Option<String>,
    pub summary: Option<String>,
}

#[derive(Clone, Debug)]
pub struct RouteRequest {
    pub schema_version: String,
    pub request_id: String,
    pub trace: Option<TraceCtx>,
    pub alias: String,
    pub api: ApiKind,
    pub privacy_mode: PrivacyMode,
    pub content_attestation: Option<ContentAttestation>,
    pub caps: Vec<String>,
    pub stream: bool,
    pub params: Option<RequestParams>,
    pub targets: Option<Targets>,
    pub budget: Option<Budget>,
    pub estimates: Option<Estimates>,
    pub conversation: Option<Conversation>,
    pub org: Option<OrgCtx>,
    pub geo: Option<Geo>,
    pub tools: Option<Vec<ToolHint>>,
    pub overrides: Option<RequestOverrides>,
}

#[derive(Clone, Debug)]
pub struct HeaderEntry {
    pub name: String,
    pub value: String,
}

#[derive(Clone, Debug)]
pub struct Limits {
    pub max_input_tokens: Option<u32>,
    pub max_output_tokens: Option<u32>,
    pub timeout_ms: Option<u32>,
}

#[derive(Clone, Debug)]
pub struct PromptOverlays {
    pub system_overlay: Option<String>,
    pub overlay_fingerprint: Option<String>,
    pub overlay_size_bytes: Option<u32>,
    pub max_overlay_bytes: Option<u32>,
}

#[derive(Clone, Debug)]
pub struct Hints {
    pub tier: Option<String>,
    pub est_cost_micro: Option<u64>,
    pub currency: Option<String>,
    pub est_latency_ms: Option<u32>,
    pub provider: Option<String>,
}

#[derive(Clone, Debug)]
pub struct CanonicalContext {
    pub ids: Vec<String>,
    pub model: Option<String>,
    pub score_micro: Option<u32>,
}

#[derive(Clone, Debug)]
pub struct Fallback {
    pub base_url: String,
    pub mode: UpstreamMode,
    pub model_id: String,
    pub reason: Option<String>,
    pub penalty_milli: Option<u32>,
}

#[derive(Clone, Debug)]
pub struct CacheHints {
    pub ttl_ms: Option<u32>,
    pub etag: Option<String>,
    pub valid_until: Option<String>,
    pub freeze_key: Option<String>,
}

#[derive(Clone, Debug)]
pub struct Stickiness {
    pub plan_token: Option<String>,
    pub max_turns: Option<u8>,
    pub expires_at: Option<String>,
}

#[derive(Clone, Debug)]
pub struct PolicyInfo {
    pub revision: Option<String>,
    pub id: Option<String>,
    pub explain: Option<String>,
}

#[derive(Clone, Copy, Debug, PartialEq, Eq, Structural)]
pub struct GovernanceBudgets {
    pub total: Option<u32>,
    pub l3_max: Option<u32>,
}

#[derive(Clone, Debug)]
pub struct GovernanceApprovals {
    pub require_for_levels: Vec<String>,
}

#[derive(Clone, Debug)]
pub struct GovernanceEcho {
    pub budgets: GovernanceBudgets,
    pub approvals: GovernanceApprovals,
}

#[derive(Clone, Debug)]
pub struct Upstream {
    pub base_url: String,
    pub mode: UpstreamMode,
    pub model_id: String,
    pub auth_env: Option<String>,
    pub headers: Vec<HeaderEntry>,
}

#[derive(Clone, Debug)]
pub struct RoutePlan {
    pub schema_version: String,
    pub route_id: String,
    pub upstream: Upstream,
    pub limits: Limits,
    pub prompt_overlays: PromptOverlays,
    pub hints: Hints,
    pub fallbacks: Vec<Fallback>,
    pub cache: CacheHints,
    pub stickiness: Stickiness,
    pub policy: PolicyInfo,
    pub policy_rev: String,
    pub content_used: ContentLevel,
    pub governance_echo: GovernanceEcho,
    pub canonical: Option<CanonicalContext>,
}

#[derive(Clone, Debug)]
pub struct FeedbackUsage {
    pub prompt_tokens: u32,
    pub completion_tokens: u32,
    pub cached_tokens: u32,
    pub reasoning_tokens: u32,
}

#[derive(Clone, Debug)]
pub struct RouteFeedback {
    pub route_id: String,
    pub model_id: String,
    pub success: bool,
    pub duration_ms: u32,
    pub usage: Option<FeedbackUsage>,
    pub status_code: u16,
    pub actual_cost_micro: Option<u64>,
    pub currency: Option<String>,
    pub upstream_error_code: Option<String>,
    pub rl_applied: Option<bool>,
    pub cache_hit: Option<bool>,
}

#[derive(Clone, Debug)]
pub struct CatalogModelCost {
    pub currency: String,
    pub input_per_million_micro: u64,
    pub output_per_million_micro: u64,
    pub cached_per_million_micro: Option<u64>,
}

#[derive(Clone, Debug)]
pub struct CatalogModelLimits {
    pub tps: Option<u32>,
    pub rpm: Option<u32>,
}

#[derive(Clone, Debug)]
pub struct CatalogModelCapabilities {
    pub modalities: Vec<String>,
    pub context_tokens: u32,
    pub tools: bool,
    pub json_mode: bool,
    pub prompt_cache: bool,
    pub structured_output: bool,
}

#[derive(Clone, Debug)]
pub struct CatalogModelSloRecent {
    pub p50_ms: Option<u32>,
    pub p95_ms: Option<u32>,
    pub error_rate_ppm: Option<u32>,
    pub tokens_per_sec: Option<u32>,
}

#[derive(Clone, Debug)]
pub struct CatalogModelSlos {
    pub target_p95_ms: u32,
    pub recent: Option<CatalogModelSloRecent>,
}

/// The metadata keys the engine reads from a catalog model.
#[derive(Clone, Debug)]
pub struct ModelMetadata {
    pub base_url: Option<String>,
    pub mode: Option<String>,
    pub auth_env: Option<String>,
    pub headers: Vec<HeaderEntry>,
}

#[derive(Clone, Debug)]
pub struct CatalogModel {
    pub id: String,
    pub provider: String,
    pub region: Vec<String>,
    pub aliases: Vec<String>,
    pub capabilities: CatalogModelCapabilities,
    pub limits: Option<CatalogModelLimits>,
    pub cost: CatalogModelCost,
    pub slos: CatalogModelSlos,
    pub policy_tags: Vec<String>,
    pub status: Option<String>,
    pub metadata: ModelMetadata,
}

#[derive(Clone, Debug)]
pub struct CatalogDocument {
    pub revision: String,
    pub models: Vec<CatalogModel>,
}

#[derive(Clone, Debug)]
pub struct RouterStats {
    pub policy_revision: String,
    pub catalog_revision: String,
    pub total_requests: u64,
    pub cache_hit_ratio_ppm: u32,
    pub model_share: Vec<(String, u64)>,
    pub error_rate_ppm: u32,
}

#[derive(Clone, Debug)]
pub struct PolicyAliasRule {
    pub candidates: Vec<String>,
    pub require_caps: Vec<String>,
    pub allowed_regions: Vec<String>,
}

/// Scoring weights in thousandths.
#[derive(Clone, Copy, Debug)]
pub struct PolicyWeights {
    pub cost_milli: u32,
    pub latency_milli: u32,
    pub health_milli: u32,
    pub context_milli: u32,
    pub tier_bonus_milli: u32,
}

#[derive(Clone, Copy, Debug)]
pub struct PolicyStickiness {
    pub window_ms: u64,
    pub max_turns: u8,
}

#[derive(Clone, Copy, Debug)]
pub struct PolicyDefaults {
    pub cost_norm_micro: u64,
    pub latency_ms: u32,
    pub timeout_ms: u32,
    pub max_output_tokens: u32,
    pub max_overlay_bytes: u32,
    pub stickiness: PolicyStickiness,
}

#[derive(Clone, Debug)]
pub struct PolicyEscalations {
    pub token_len_over: Option<u32>,
    pub uncertainty_regex: Option<String>,
    pub scpi_error_present: Option<bool>,
    pub teacher_boost_tier: Option<String>,
    pub default_tier: Option<String>,
    pub fallback_tier: Option<String>,
}

#[derive(Clone, Debug)]
pub struct PolicyTier {
    pub id: String,
    pub description: Option<String>,
}

#[derive(Clone, Debug)]
pub struct AliasEntry {
    pub alias: String,
    pub rule: PolicyAliasRule,
}

#[derive(Clone, Debug)]
pub struct TierEntry {
    pub key: String,
    pub tier: PolicyTier,
}

#[derive(Clone, Debug)]
pub struct PolicyDocument {
    pub id: String,
    pub revision: String,
    pub schema_version: String,
    pub weights: PolicyWeights,
    pub defaults: PolicyDefaults,
    pub governance: GovernanceEcho,
    pub escalations: PolicyEscalations,
    pub tiers: Vec<TierEntry>,
    pub aliases: Vec<AliasEntry>,
    pub overlay_map: Vec<(String, Vec<(String, String)>)>,
    pub overlay_defaults: Vec<(String, String)>,
}

/// A named overlay body, as loaded from the overlay directory.
#[derive(Clone, Debug)]
pub struct OverlayEntry {
    pub id: String,
    pub content: String,
}

} // verus!
