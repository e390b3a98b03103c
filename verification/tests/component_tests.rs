use router::api::{
    cache_status_value, capabilities_summary, catalog_etag_strong, catalog_etag_weak,
    content_level_str, etag_matches, plan_response_headers, supported_schemas, validate_request,
};
use router::bucket_tokens;
use router::cache::{CacheKey, PlanCache};
use router::embedding::{CanonicalSelection, CanonicalTask, EmbeddingIndex};
use router::errors::{error_body, with_context, ErrorCode, RouterError};
use router::fingerprint::hash_string;
use router::stickiness::StickinessManager;
use router::text::{eq_ignore_case, str_eq, trim_chars, u64_to_dec};
use router::types::{ApiKind, CacheStatus, ContentLevel, PrivacyMode, RoutePlan};

fn sample_plan(model_id: &str, rev: &str) -> RoutePlan {
    RoutePlan {
        schema_version: "1.1".to_string(),
        route_id: "route-1".to_string(),
        upstream: router::types::Upstream {
            base_url: "https://example.com".to_string(),
            mode: router::types::UpstreamMode::Responses,
            model_id: model_id.to_string(),
            auth_env: None,
            headers: vec![],
        },
        limits: router::types::Limits {
            max_input_tokens: Some(32768),
            max_output_tokens: Some(1024),
            timeout_ms: Some(30_000),
        },
        prompt_overlays: router::types::PromptOverlays {
            system_overlay: None,
            overlay_fingerprint: None,
            overlay_size_bytes: Some(0),
            max_overlay_bytes: Some(4096),
        },
        hints: router::types::Hints {
            tier: Some("T2".to_string()),
            est_cost_micro: Some(255),
            currency: Some("USD".to_string()),
            est_latency_ms: Some(3000),
            provider: Some("acme".to_string()),
        },
        fallbacks: vec![],
        cache: router::types::CacheHints {
            ttl_ms: Some(60),
            etag: None,
            valid_until: None,
            freeze_key: None,
        },
        stickiness: router::types::Stickiness {
            plan_token: None,
            max_turns: None,
            expires_at: None,
        },
        policy: router::types::PolicyInfo { revision: None, id: None, explain: None },
        policy_rev: rev.to_string(),
        content_used: ContentLevel::NoContent,
        governance_echo: router::types::GovernanceEcho {
            budgets: router::types::GovernanceBudgets { total: None, l3_max: None },
            approvals: router::types::GovernanceApprovals { require_for_levels: vec![] },
        },
        canonical: None,
    }
}

#[test]
fn token_round_trip_returns_issued_claims() {
    let manager = StickinessManager::new(b"secret".to_vec());
    let (token, claims) = manager
        .issue(Some("tenant"), None, "edu-general", "m-cheap", 4, 200, 1_000)
        .expect("issue");
    assert_eq!(claims.turn, 0);
    assert_eq!(claims.max_turns, 4);
    assert_eq!(claims.expires_at_ms, 1_200);
    let verified = manager.verify(&token, 1_100).expect("verify");
    assert_eq!(verified.turn, 0);
    assert_eq!(verified.alias, "edu-general");
    assert_eq!(verified.model_id, "m-cheap");
    assert_eq!(verified.tenant.as_deref(), Some("tenant"));
    assert_eq!(verified.expires_at_ms, 1_200);
}

#[test]
fn progressed_token_carries_next_turn() {
    let manager = StickinessManager::new(b"secret".to_vec());
    let (_, claims) = manager
        .issue(None, None, "edu-general", "m-cheap", 4, 200, 1_000)
        .expect("issue");
    let (token2, next) = manager.progress_turn(&claims, 200, 1_050).expect("progress");
    assert_eq!(next.turn, 1);
    assert_eq!(next.expires_at_ms, 1_250);
    let verified = manager.verify(&token2, 1_100).expect("verify");
    assert_eq!(verified.turn, 1);
}

#[test]
fn expired_token_is_refused() {
    let manager = StickinessManager::new(b"secret".to_vec());
    let (token, _) = manager
        .issue(None, None, "edu-general", "m-cheap", 4, 200, 1_000)
        .expect("issue");
    let refused = manager.verify(&token, 1_300);
    assert!(refused.is_err());
}

#[test]
fn tampered_token_is_refused() {
    let manager = StickinessManager::new(b"secret".to_vec());
    let (token, _) = manager
        .issue(None, None, "edu-general", "m-cheap", 4, 200, 1_000)
        .expect("issue");
    let mut tampered = token.clone();
    let replacement = if tampered.ends_with('A') { 'B' } else { 'A' };
    tampered.pop();
    tampered.push(replacement);
    assert!(manager.verify(&tampered, 1_100).is_err());
    // A token signed under another secret is refused too.
    let other = StickinessManager::new(b"other-secret".to_vec());
    assert!(other.verify(&token, 1_100).is_err());
}

#[test]
fn cache_status_progresses_monotonically() {
    let mut cache = PlanCache::new(10, 60, 60);
    let key = CacheKey(42);
    assert!(cache.get(key, 0).is_none());
    cache.insert(key, sample_plan("m", "rev"), 0, None, Some("why".to_string()));
    let (_, status, reason) = cache.get(key, 10).expect("hit");
    assert_eq!(status, CacheStatus::Hit);
    assert_eq!(reason.as_deref(), Some("why"));
    let (_, status, _) = cache.get(key, 100).expect("stale");
    assert_eq!(status, CacheStatus::Stale);
    assert!(cache.get(key, 200).is_none());
    cache.insert(key, sample_plan("m", "rev"), 300, None, None);
    let (_, status, _) = cache.get(key, 310).expect("hit again");
    assert_eq!(status, CacheStatus::Hit);
    cache.clear();
    assert!(cache.get(key, 310).is_none());
}

#[test]
fn cache_valid_until_forces_stale() {
    let mut cache = PlanCache::new(10, 60, 60);
    let key = CacheKey(7);
    cache.insert(key, sample_plan("m", "rev"), 0, Some(30), None);
    let (_, status, _) = cache.get(key, 10).expect("present");
    assert_eq!(status, CacheStatus::Hit);
    let (_, status, _) = cache.get(key, 40).expect("present");
    assert_eq!(status, CacheStatus::Stale);
}

#[test]
fn fingerprint_ignores_request_id_and_tracks_alias() {
    let a = CacheKey::derive(
        "pol-1",
        hash_string("edu-general"),
        1,
        false,
        bucket_tokens(512),
        bucket_tokens(1024),
        31,
        false,
        0,
        hash_string("overlay:none"),
        PrivacyMode::FeaturesOnly,
        ApiKind::Responses,
        hash_string("frz_pol-1"),
        0,
    );
    let b = CacheKey::derive(
        "pol-1",
        hash_string("edu-general"),
        1,
        false,
        bucket_tokens(512),
        bucket_tokens(1024),
        31,
        false,
        0,
        hash_string("overlay:none"),
        PrivacyMode::FeaturesOnly,
        ApiKind::Responses,
        hash_string("frz_pol-1"),
        0,
    );
    assert_eq!(a, b);
    let c = CacheKey::derive(
        "pol-1",
        hash_string("other-alias"),
        1,
        false,
        bucket_tokens(512),
        bucket_tokens(1024),
        31,
        false,
        0,
        hash_string("overlay:none"),
        PrivacyMode::FeaturesOnly,
        ApiKind::Responses,
        hash_string("frz_pol-1"),
        0,
    );
    assert_ne!(a, c);
}

#[test]
fn token_buckets_are_dyadic() {
    assert_eq!(bucket_tokens(0), 0);
    assert_eq!(bucket_tokens(256), 0);
    assert_eq!(bucket_tokens(257), 1);
    assert_eq!(bucket_tokens(512), 1);
    assert_eq!(bucket_tokens(1024), 2);
    assert_eq!(bucket_tokens(2048), 3);
    assert_eq!(bucket_tokens(4096), 4);
    assert_eq!(bucket_tokens(8192), 5);
    assert_eq!(bucket_tokens(16384), 6);
    assert_eq!(bucket_tokens(16385), 7);
    assert_eq!(bucket_tokens(u32::MAX), 7);
}

#[test]
fn error_envelope_maps_codes_and_hints() {
    let err = with_context(
        RouterError::BudgetExceeded("over".to_string()),
        Some("r9".to_string()),
        None,
    );
    assert_eq!(err.status_code(), 402);
    let body = error_body(&err);
    assert_eq!(body.schema_version, "1.1");
    assert_eq!(body.code, "BUDGET_EXCEEDED");
    assert_eq!(body.retry_hint_ms, 120_000);
    assert_eq!(body.request_id, "r9");
    assert_eq!(body.policy_rev, "unknown");
    assert!(body.supported.is_none());
    assert_eq!(ErrorCode::CatalogUnavailable.status(), 503);
    assert_eq!(ErrorCode::CatalogUnavailable.retry_hint_ms(), 60_000);
    assert_eq!(ErrorCode::UpstreamUnavailable.as_str(), "UPSTREAM_UNAVAILABLE");
}

#[test]
fn schema_validation_defaults_and_refuses() {
    let mut req = router::types::RouteRequest {
        schema_version: String::new(),
        request_id: "r1".to_string(),
        trace: None,
        alias: "a".to_string(),
        api: ApiKind::Responses,
        privacy_mode: PrivacyMode::FeaturesOnly,
        content_attestation: None,
        caps: vec![],
        stream: false,
        params: None,
        targets: None,
        budget: None,
        estimates: None,
        conversation: None,
        org: None,
        geo: None,
        tools: None,
        overrides: None,
    };
    assert!(validate_request(&mut req, "pol-1").is_ok());
    assert_eq!(req.schema_version, "1.1");

    req.schema_version = "2.0".to_string();
    let err = validate_request(&mut req, "pol-1").expect_err("unsupported");
    assert_eq!(err.status_code(), 409);
    let body = error_body(&err);
    assert_eq!(body.code, "UNSUPPORTED_SCHEMA");
    let supported = body.supported.expect("supported list");
    assert!(supported.iter().any(|s| s == "1.1"));
    assert_eq!(body.policy_rev, "pol-1");

    req.schema_version = "1.0".to_string();
    req.request_id = String::new();
    let err = validate_request(&mut req, "pol-1").expect_err("missing id");
    assert_eq!(err.status_code(), 400);
    assert_eq!(error_body(&err).code, "INVALID_REQUEST");
}

#[test]
fn etag_round_trip_matches_strong_and_weak() {
    let strong = catalog_etag_strong("cat-7");
    let weak = catalog_etag_weak("cat-7");
    assert_eq!(strong, "\"cat-7\"");
    assert_eq!(weak, "W/\"cat-7\"");
    assert!(etag_matches(&strong, "cat-7"));
    assert!(etag_matches(&weak, "cat-7"));
    assert!(!etag_matches("\"cat-8\"", "cat-7"));
    assert!(!etag_matches("", "cat-7"));
}

#[test]
fn plan_headers_carry_resolution() {
    let outcome = router::engine::PlanOutcome {
        plan: sample_plan("m-cheap", "pol-1"),
        cache_status: CacheStatus::Miss,
        policy_revision: "pol-1".to_string(),
        catalog_revision: "cat-1".to_string(),
        route_reason: Some("complexity".to_string()),
    };
    let headers = plan_response_headers(&outcome, "r1", 12, None, None);
    let find = |name: &str| {
        headers
            .iter()
            .find(|h| h.name == name)
            .map(|h| h.value.clone())
    };
    assert_eq!(find("Router-Schema").as_deref(), Some("1.1"));
    assert_eq!(find("Router-Latency").as_deref(), Some("12ms"));
    assert_eq!(find("X-Route-Cache").as_deref(), Some("miss"));
    assert_eq!(find("X-Resolved-Model").as_deref(), Some("m-cheap"));
    assert_eq!(find("X-Policy-Rev").as_deref(), Some("pol-1"));
    assert_eq!(find("X-Request-Id").as_deref(), Some("r1"));
    assert_eq!(find("X-Route-Why").as_deref(), Some("complexity"));
    assert_eq!(find("X-Content-Used").as_deref(), Some("none"));
    assert_eq!(find("X-Route-Tier").as_deref(), Some("T2"));
    assert_eq!(find("X-Route-Provider").as_deref(), Some("acme"));
}

#[test]
fn capabilities_follow_policy_knobs() {
    let mut pol = router::types::PolicyDocument {
        id: "p".to_string(),
        revision: "r".to_string(),
        schema_version: "1.1".to_string(),
        weights: router::types::PolicyWeights {
            cost_milli: 1,
            latency_milli: 1,
            health_milli: 1,
            context_milli: 1,
            tier_bonus_milli: 0,
        },
        defaults: router::types::PolicyDefaults {
            cost_norm_micro: 1,
            latency_ms: 1,
            timeout_ms: 1,
            max_output_tokens: 1,
            max_overlay_bytes: 1,
            stickiness: router::types::PolicyStickiness { window_ms: 200, max_turns: 4 },
        },
        governance: router::types::GovernanceEcho {
            budgets: router::types::GovernanceBudgets { total: None, l3_max: None },
            approvals: router::types::GovernanceApprovals { require_for_levels: vec![] },
        },
        escalations: router::types::PolicyEscalations {
            token_len_over: None,
            uncertainty_regex: None,
            scpi_error_present: None,
            teacher_boost_tier: None,
            default_tier: None,
            fallback_tier: None,
        },
        tiers: vec![],
        aliases: vec![],
        overlay_map: vec![],
        overlay_defaults: vec![],
    };
    let caps = capabilities_summary(&pol);
    assert!(caps.stickiness_supported);
    assert_eq!(caps.stickiness_max_turns, 4);
    assert_eq!(caps.stickiness_window_ms, 200);
    assert_eq!(caps.schema_version, "1.1");
    pol.defaults.stickiness.max_turns = 0;
    let caps = capabilities_summary(&pol);
    assert!(!caps.stickiness_supported);
    assert_eq!(supported_schemas().len(), 2);
}

#[test]
fn text_helpers_fold_and_trim() {
    assert!(eq_ignore_case("Tier:T1", "tier:t1"));
    assert!(!eq_ignore_case("tier:T1", "tier:T2"));
    assert!(str_eq("abc", "abc"));
    assert!(!str_eq("abc", "abd"));
    assert_eq!(trim_chars("  hello\n"), "hello");
    assert_eq!(trim_chars("   "), "");
    assert_eq!(u64_to_dec(0), "0");
    assert_eq!(u64_to_dec(90210), "90210");
    assert_eq!(cache_status_value(CacheStatus::Stale), "stale");
    assert_eq!(content_level_str(ContentLevel::Full), "full");
}

#[test]
fn embedding_select_prefers_similar_task() {
    let tasks = vec![
        CanonicalTask {
            id: "t1".to_string(),
            preferred_model: "m-premium".to_string(),
            weight_milli: 1000,
            embedding: vec![1_000_000, 0],
        },
        CanonicalTask {
            id: "t2".to_string(),
            preferred_model: "m-cheap".to_string(),
            weight_milli: 1000,
            embedding: vec![0, 1_000_000],
        },
    ];
    let index = EmbeddingIndex::new(tasks, 1).expect("index");
    let query = vec![1_000_000i64, 0];
    let sel = index.select(&query).expect("selection");
    assert_eq!(sel.model_id, "m-premium");
    assert_eq!(sel.canonical_ids, vec!["t1".to_string()]);
    assert_eq!(sel.score_micro, 1_000_000);
    // An orthogonal query scores zero and yields nothing.
    let nothing = index.select(&vec![0, -1_000_000]);
    assert!(nothing.is_none());
}

#[test]
fn embedding_index_validates_inputs() {
    assert!(EmbeddingIndex::new(vec![], 3).is_err());
    let oversized = vec![CanonicalTask {
        id: "t".to_string(),
        preferred_model: "m".to_string(),
        weight_milli: 1000,
        embedding: vec![3_000_000],
    }];
    assert!(EmbeddingIndex::new(oversized, 3).is_err());
}

#[test]
fn canonical_hash_depends_on_votes() {
    let a = CanonicalSelection {
        model_id: "m".to_string(),
        canonical_ids: vec!["t1".to_string()],
        score_micro: 500_000,
    };
    let b = CanonicalSelection {
        model_id: "m".to_string(),
        canonical_ids: vec!["t2".to_string()],
        score_micro: 500_000,
    };
    assert_ne!(
        router::embedding::canonical_hash(&a),
        router::embedding::canonical_hash(&b)
    );
}

#[test]
fn estimates_are_exact() {
    let m = router::compile::CompiledModel {
        id: "m".to_string(),
        provider: "p".to_string(),
        base_url: "u".to_string(),
        mode: router::types::UpstreamMode::Responses,
        auth_env: None,
        headers: vec![],
        capabilities: 1,
        regions: 1,
        context_tokens: 32768,
        input_price: 100_000,
        output_price: 200_000,
        cached_price: 50_000,
        target_latency_ms: 2_000,
        base_latency_ms: 800,
        status: router::compile::ModelStatus::Healthy,
        policy_tags: vec![],
    };
    // No cache: 512 * 0.1 + 1024 * 0.2 = 51 + 204 micro.
    assert_eq!(router::score::estimate_cost_micro(&m, 512, 1024, false), 255);
    // With cache: cached = round(512 * 0.4) = 205; 205*0.05 + 307*0.1 + 1024*0.2.
    assert_eq!(
        router::score::estimate_cost_micro(&m, 512, 1024, true),
        10 + 30 + 204
    );
    let stats = router::health::HealthStats {
        p50_ms: 700,
        p95_ms: 2_100,
        err_rate_ppm: 10_000,
        tokens_per_sec: 300,
        last_update_ms: 0,
    };
    // gen = 1536 * 1000 / 300 = 5120; base = 800; capped at 3000.
    assert_eq!(router::score::estimate_latency(&m, &stats, 512, 1024), 3_000);
}

#[test]
fn ewma_stays_bounded_over_many_feedbacks() {
    let mut store = router::health::HealthStore::new();
    for i in 0..200u32 {
        let fb = router::types::RouteFeedback {
            route_id: "r".to_string(),
            model_id: "m".to_string(),
            success: i % 2 == 0,
            duration_ms: (i % 7) * 10_000,
            usage: Some(router::types::FeedbackUsage {
                prompt_tokens: i,
                completion_tokens: 2 * i,
                cached_tokens: 0,
                reasoning_tokens: 0,
            }),
            status_code: 200,
            actual_cost_micro: None,
            currency: None,
            upstream_error_code: None,
            rl_applied: None,
            cache_hit: None,
        };
        store.update(&fb, u64::from(i));
        let stats = store.snapshot("m");
        assert!(stats.err_rate_ppm <= 1_000_000);
        assert!(stats.tokens_per_sec >= 1);
    }
}

#[test]
fn summary_extraction_trims_and_falls_back() {
    let mut req = router::types::RouteRequest {
        schema_version: "1.1".to_string(),
        request_id: "r".to_string(),
        trace: None,
        alias: "a".to_string(),
        api: ApiKind::Responses,
        privacy_mode: PrivacyMode::FeaturesOnly,
        content_attestation: None,
        caps: vec![],
        stream: false,
        params: None,
        targets: None,
        budget: None,
        estimates: None,
        conversation: None,
        org: None,
        geo: None,
        tools: None,
        overrides: None,
    };
    assert!(router::embedding::extract_summary(&req).is_none());
    req.conversation = Some(router::types::Conversation {
        turns: None,
        system_fingerprint: None,
        history_fingerprint: None,
        summary: Some("  spaced out  ".to_string()),
    });
    assert_eq!(
        router::embedding::extract_summary(&req).as_deref(),
        Some("spaced out")
    );
    req.conversation = None;
    req.overrides = Some(router::types::RequestOverrides {
        plan_token: None,
        teacher_boost: None,
        scpi_error_present: None,
        freeze_key: None,
        canonical_summary: Some("canon".to_string()),
        summary: Some("plain".to_string()),
    });
    assert_eq!(
        router::embedding::extract_summary(&req).as_deref(),
        Some("canon")
    );
}
