//! The API surface in front of the engine: request validation and schema
//! defaulting, response header assembly, catalog validators, and the
//! capability summary.  The HTTP frame around these lives outside the
//! library; every decision is made here.

use vstd::prelude::*;

verus! {

use vstd::string::StrSliceExecFns;
use vstd::string::StringExecFns;
use crate::engine::PlanOutcome;
use crate::errors::{code_of, ApiError, ErrorCode, RouterError, with_context};
use crate::stickiness::opt_view;
use crate::text::{dec_str, str_eq, u64_to_dec};
use crate::types::{CacheStatus, ContentLevel, HeaderEntry, PolicyDocument, RouteRequest};

/// The schema versions this service accepts.
pub open spec fn schema_supported(s: Seq<char>) -> bool {
    s == "1.0"@ || s == "1.1"@
}

/// The list sent back with an unsupported-schema error.
pub fn supported_schemas() -> (r: Vec<String>)
    ensures
        r@.len() == 2,
        r@[0]@ == "1.0"@,
        r@[1]@ == "1.1"@,
{
    let mut out: Vec<String> = Vec::new();
    out.push(String::from_str("1.0"));
    out.push(String::from_str("1.1"));
    out
}

/// Validate a plan request and default its schema: an empty schema version
/// becomes 1.1; an unsupported one is refused with the supported list; an
/// empty request id is refused.  Exactly the requests with a supported (or
/// defaulted) schema and a non-empty request id pass.
pub fn validate_request(req: &mut RouteRequest, policy_rev: &str) -> (r: Result<(), ApiError>)
    ensures
        final (req).schema_version@ == if old(req).schema_version@.len() == 0 {
            "1.1"@
        } else {
            old(req).schema_version@
        },
        final (req).request_id == old(req).request_id,
        final (req).alias == old(req).alias,
        final (req).overrides == old(req).overrides,
        final (req).estimates == old(req).estimates,
        final (req).conversation == old(req).conversation,
        r is Ok <==> (schema_supported(final (req).schema_version@) && old(
            req,
        ).request_id@.len() > 0),
        r matches Err(e) ==> {
            &&& (code_of(e.inner) == ErrorCode::UnsupportedSchema <==> !schema_supported(
                final (req).schema_version@,
            ))
            &&& (code_of(e.inner) == ErrorCode::UnsupportedSchema || code_of(e.inner)
                == ErrorCode::InvalidRequest)
            &&& opt_view(e.context.policy_rev) == Some(policy_rev@)
            &&& (code_of(e.inner) == ErrorCode::UnsupportedSchema ==> (e.inner matches
                RouterError::UnsupportedSchema { supported, .. } && supported@.len() == 2
                && supported@[0]@ == "1.0"@ && supported@[1]@ == "1.1"@))
        },
{
    if req.schema_version.as_str().unicode_len() == 0 {
        req.schema_version = String::from_str("1.1");
    }
    let supported = str_eq(req.schema_version.as_str(), "1.0") || str_eq(
        req.schema_version.as_str(),
        "1.1",
    );
    if !supported {
        proof {
            reveal_strlit("1.1");
        }
        return Err(
            with_context(
                RouterError::UnsupportedSchema {
                    provided: req.schema_version.clone(),
                    supported: supported_schemas(),
                },
                Some(req.request_id.clone()),
                Some(policy_rev.to_owned()),
            ),
        );
    }
    if req.request_id.as_str().unicode_len() == 0 {
        return Err(
            with_context(
                RouterError::InvalidRequest(String::from_str("request_id is required")),
                Some(String::from_str("unknown")),
                Some(policy_rev.to_owned()),
            ),
        );
    }
    Ok(())
}

/// The wire value of a cache status.
pub open spec fn cache_status_spec(status: CacheStatus) -> Seq<char> {
    match status {
        CacheStatus::Hit => "hit"@,
        CacheStatus::Miss => "miss"@,
        CacheStatus::Stale => "stale"@,
    }
}

pub fn cache_status_value(status: CacheStatus) -> (r: &'static str)
    ensures
        r@ == cache_status_spec(status),
{
    match status {
        CacheStatus::Hit => "hit",
        CacheStatus::Miss => "miss",
        CacheStatus::Stale => "stale",
    }
}

/// The wire value of a content level.
pub open spec fn content_level_spec(level: ContentLevel) -> Seq<char> {
    match level {
        ContentLevel::NoContent => "none"@,
        ContentLevel::Summary => "summary"@,
        ContentLevel::Full => "full"@,
    }
}

pub fn content_level_str(level: ContentLevel) -> (r: &'static str)
    ensures
        r@ == content_level_spec(level),
{
    match level {
        ContentLevel::NoContent => "none",
        ContentLevel::Summary => "summary",
        ContentLevel::Full => "full",
    }
}

/// The name-value pairs of a header list.
pub open spec fn header_views(s: Seq<HeaderEntry>) -> Seq<(Seq<char>, Seq<char>)> {
    s.map(|i: int, h: HeaderEntry| (h.name@, h.value@))
}

/// One optional header as a sequence fragment.
pub open spec fn opt_header(name: Seq<char>, value: Option<Seq<char>>) -> Seq<
    (Seq<char>, Seq<char>),
> {
    match value {
        Some(v) => seq![(name, v)],
        None => Seq::empty(),
    }
}

/// The headers of a successful plan response, in order: the schema, the
/// latency, both revisions, the cache status, the resolved model, the route
/// id, the policy revision and the request id; then the optional tier,
/// provider and reason; the content level; and the trace pass-through.
pub open spec fn plan_headers_spec(
    outcome: PlanOutcome,
    request_id: Seq<char>,
    elapsed_ms: u64,
    traceparent: Option<Seq<char>>,
    tracestate: Option<Seq<char>>,
) -> Seq<(Seq<char>, Seq<char>)> {
    seq![
        ("Router-Schema"@, outcome.plan.schema_version@),
        ("Router-Latency"@, dec_str(elapsed_ms as nat) + "ms"@),
        ("Config-Revision"@, outcome.policy_revision@),
        ("Catalog-Revision"@, outcome.catalog_revision@),
        ("X-Route-Cache"@, cache_status_spec(outcome.cache_status)),
        ("X-Resolved-Model"@, outcome.plan.upstream.model_id@),
        ("X-Route-Id"@, outcome.plan.route_id@),
        ("X-Policy-Rev"@, outcome.plan.policy_rev@),
        ("X-Request-Id"@, request_id),
    ] + opt_header("X-Route-Tier"@, opt_view(outcome.plan.hints.tier)) + opt_header(
        "X-Route-Provider"@,
        opt_view(outcome.plan.hints.provider),
    ) + opt_header("X-Route-Why"@, opt_view(outcome.route_reason)) + seq![
        ("X-Content-Used"@, content_level_spec(outcome.plan.content_used)),
    ] + opt_header("traceparent"@, traceparent) + opt_header("tracestate"@, tracestate)
}

fn push_header(out: &mut Vec<HeaderEntry>, name: &str, value: String)
    ensures
        final (out)@.len() == old(out)@.len() + 1,
        header_views(final (out)@) == header_views(old(out)@).push((name@, value@)),
{
    let ghost gname = name@;
    let ghost gvalue = value@;
    out.push(HeaderEntry { name: String::from_str(name), value });
    proof {
        assert(header_views(out@) =~= header_views(old(out)@).push((gname, gvalue)));
    }
}

/// Assemble the response headers for a plan outcome.
pub fn plan_response_headers(
    outcome: &PlanOutcome,
    request_id: &str,
    elapsed_ms: u64,
    traceparent: Option<&String>,
    tracestate: Option<&String>,
) -> (r: Vec<HeaderEntry>)
    ensures
        header_views(r@) == plan_headers_spec(
            *outcome,
            request_id@,
            elapsed_ms,
            match traceparent {
                Some(v) => Some(v@),
                None => None,
            },
            match tracestate {
                Some(v) => Some(v@),
                None => None,
            },
        ),
{
    let mut out: Vec<HeaderEntry> = Vec::new();
    push_header(&mut out, "Router-Schema", outcome.plan.schema_version.clone());
    push_header(&mut out, "Router-Latency", u64_to_dec(elapsed_ms).concat("ms"));
    push_header(&mut out, "Config-Revision", outcome.policy_revision.clone());
    push_header(&mut out, "Catalog-Revision", outcome.catalog_revision.clone());
    push_header(&mut out, "X-Route-Cache", String::from_str(cache_status_value(outcome.cache_status)));
    push_header(&mut out, "X-Resolved-Model", outcome.plan.upstream.model_id.clone());
    push_header(&mut out, "X-Route-Id", outcome.plan.route_id.clone());
    push_header(&mut out, "X-Policy-Rev", outcome.plan.policy_rev.clone());
    push_header(&mut out, "X-Request-Id", String::from_str(request_id));
    if let Some(tier) = &outcome.plan.hints.tier {
        push_header(&mut out, "X-Route-Tier", tier.clone());
    }
    if let Some(provider) = &outcome.plan.hints.provider {
        push_header(&mut out, "X-Route-Provider", provider.clone());
    }
    if let Some(reason) = &outcome.route_reason {
        push_header(&mut out, "X-Route-Why", reason.clone());
    }
    push_header(
        &mut out,
        "X-Content-Used",
        String::from_str(content_level_str(outcome.plan.content_used)),
    );
    if let Some(parent) = traceparent {
        push_header(&mut out, "traceparent", parent.clone());
    }
    if let Some(state) = tracestate {
        push_header(&mut out, "tracestate", state.clone());
    }
    proof {
        assert(header_views(out@) =~= plan_headers_spec(
            *outcome,
            request_id@,
            elapsed_ms,
            match traceparent {
                Some(v) => Some(v@),
                None => None,
            },
            match tracestate {
                Some(v) => Some(v@),
                None => None,
            },
        ));
    }
    out
}

/// The strong validator of a catalog revision.
pub open spec fn strong_etag_spec(revision: Seq<char>) -> Seq<char> {
    "\""@ + revision + "\""@
}

/// The weak validator of a catalog revision.
pub open spec fn weak_etag_spec(revision: Seq<char>) -> Seq<char> {
    "W/\""@ + revision + "\""@
}

pub fn catalog_etag_strong(revision: &str) -> (r: String)
    ensures
        r@ == strong_etag_spec(revision@),
{
    let mut out = String::from_str("\"");
    out.append(revision);
    out.append("\"");
    proof {
        assert(out@ =~= strong_etag_spec(revision@));
    }
    out
}

pub fn catalog_etag_weak(revision: &str) -> (r: String)
    ensures
        r@ == weak_etag_spec(revision@),
{
    let mut out = String::from_str("W/\"");
    out.append(revision);
    out.append("\"");
    proof {
        assert(out@ =~= weak_etag_spec(revision@));
    }
    out
}

/// Whether an `If-None-Match` value revalidates this revision: it must equal
/// the strong or the weak validator.
pub fn etag_matches(if_none_match: &str, revision: &str) -> (r: bool)
    ensures
        r == (if_none_match@ == strong_etag_spec(revision@) || if_none_match@ == weak_etag_spec(
            revision@,
        )),
{
    let strong = catalog_etag_strong(revision);
    let weak = catalog_etag_weak(revision);
    str_eq(if_none_match, strong.as_str()) || str_eq(if_none_match, weak.as_str())
}

/// What the service advertises: schemas, privacy modes, stickiness caps and
/// feature toggles.
#[derive(Clone, Debug)]
pub struct CapabilitiesInfo {
    pub schema_version: String,
    pub privacy_modes: Vec<String>,
    pub stickiness_supported: bool,
    pub stickiness_max_turns: u8,
    pub stickiness_window_ms: u64,
    pub batch_supported: bool,
    pub prefetch_supported: bool,
    pub provider_headers: bool,
}

/// Summarize the service's capabilities under a policy: stickiness is
/// supported exactly when both its knobs are positive.
pub fn capabilities_summary(policy: &PolicyDocument) -> (r: CapabilitiesInfo)
    ensures
        r.schema_version@ == "1.1"@,
        r.privacy_modes@.len() == 3,
        r.privacy_modes@[0]@ == "features_only"@,
        r.privacy_modes@[1]@ == "summary"@,
        r.privacy_modes@[2]@ == "full"@,
        r.stickiness_supported == (policy.defaults.stickiness.max_turns > 0
            && policy.defaults.stickiness.window_ms > 0),
        r.stickiness_max_turns == policy.defaults.stickiness.max_turns,
        r.stickiness_window_ms == policy.defaults.stickiness.window_ms,
        !r.batch_supported,
        !r.prefetch_supported,
        r.provider_headers,
{
    let mut privacy_modes: Vec<String> = Vec::new();
    privacy_modes.push(String::from_str("features_only"));
    privacy_modes.push(String::from_str("summary"));
    privacy_modes.push(String::from_str("full"));
    CapabilitiesInfo {
        schema_version: String::from_str("1.1"),
        privacy_modes,
        stickiness_supported: policy.defaults.stickiness.max_turns > 0
            && policy.defaults.stickiness.window_ms > 0,
        stickiness_max_turns: policy.defaults.stickiness.max_turns,
        stickiness_window_ms: policy.defaults.stickiness.window_ms,
        batch_supported: false,
        prefetch_supported: false,
        provider_headers: true,
    }
}

} // verus!
