use router::engine::RouterEngine;
use router::errors::RouterError;
use router::types::{
    AliasEntry, Budget, CatalogDocument, CatalogModel, CatalogModelCapabilities, CatalogModelCost,
    CatalogModelSlos, ContentLevel, Conversation, Estimates, GovernanceApprovals,
    GovernanceBudgets, GovernanceEcho, Geo, ModelMetadata, PolicyAliasRule, PolicyDefaults,
    PolicyDocument, PolicyEscalations, PolicyStickiness, PolicyWeights, RequestOverrides,
    RouteRequest, CacheStatus,
};

fn model(id: &str, tier: &str, input_price: u64, output_price: u64) -> CatalogModel {
    CatalogModel {
        id: id.to_string(),
        provider: "acme".to_string(),
        region: vec![],
        aliases: vec![],
        capabilities: CatalogModelCapabilities {
            modalities: vec!["text".to_string()],
            context_tokens: 32768,
            tools: true,
            json_mode: true,
            prompt_cache: true,
            structured_output: false,
        },
        limits: None,
        cost: CatalogModelCost {
            currency: "USD".to_string(),
            input_per_million_micro: input_price,
            output_per_million_micro: output_price,
            cached_per_million_micro: None,
        },
        slos: CatalogModelSlos { target_p95_ms: 2000, recent: None },
        policy_tags: vec![tier.to_string()],
        status: None,
        metadata: ModelMetadata {
            base_url: Some(format!("https://{}.example.com", id)),
            mode: None,
            auth_env: None,
            headers: vec![],
        },
    }
}

fn catalog_doc() -> CatalogDocument {
    CatalogDocument {
        revision: "cat-1".to_string(),
        models: vec![
            model("m-cheap", "tier:T2", 100_000, 200_000),
            model("m-premium", "tier:T1", 300_000_000, 900_000_000),
            model("m-fallback", "tier:T3", 2_000_000, 4_000_000),
        ],
    }
}

fn policy_doc() -> PolicyDocument {
    PolicyDocument {
        id: "pol".to_string(),
        revision: "pol-1".to_string(),
        schema_version: "1.1".to_string(),
        weights: PolicyWeights {
            cost_milli: 400,
            latency_milli: 300,
            health_milli: 200,
            context_milli: 100,
            tier_bonus_milli: 50,
        },
        defaults: PolicyDefaults {
            cost_norm_micro: 2_000_000,
            latency_ms: 2_000,
            timeout_ms: 30_000,
            max_output_tokens: 1024,
            max_overlay_bytes: 4096,
            stickiness: PolicyStickiness { window_ms: 200, max_turns: 4 },
        },
        governance: GovernanceEcho {
            budgets: GovernanceBudgets { total: Some(10), l3_max: Some(2) },
            approvals: GovernanceApprovals { require_for_levels: vec![] },
        },
        escalations: PolicyEscalations {
            token_len_over: Some(8000),
            uncertainty_regex: Some("unsure|uncertain".to_string()),
            scpi_error_present: Some(true),
            teacher_boost_tier: Some("T1".to_string()),
            default_tier: None,
            fallback_tier: Some("T3".to_string()),
        },
        tiers: vec![],
        aliases: vec![AliasEntry {
            alias: "edu-general".to_string(),
            rule: PolicyAliasRule {
                candidates: vec![
                    "m-cheap".to_string(),
                    "m-premium".to_string(),
                    "m-fallback".to_string(),
                ],
                require_caps: vec![],
                allowed_regions: vec![],
            },
        }],
        overlay_map: vec![],
        overlay_defaults: vec![],
    }
}

fn engine() -> RouterEngine {
    RouterEngine::bootstrap(
        policy_doc(),
        catalog_doc(),
        vec![],
        b"test-secret-key".to_vec(),
        60,
        60,
        500_000,
        500_000,
    )
    .expect("bootstrap")
}

fn base_request(request_id: &str) -> RouteRequest {
    RouteRequest {
        schema_version: "1.1".to_string(),
        request_id: request_id.to_string(),
        trace: None,
        alias: "edu-general".to_string(),
        api: router::types::ApiKind::Responses,
        privacy_mode: router::types::PrivacyMode::FeaturesOnly,
        content_attestation: None,
        caps: vec![],
        stream: false,
        params: None,
        targets: None,
        budget: None,
        estimates: None,
        conversation: None,
        org: None,
        geo: None,
        tools: None,
        overrides: None,
    }
}

fn with_overrides(request_id: &str, overrides: RequestOverrides) -> RouteRequest {
    let mut req = base_request(request_id);
    req.overrides = Some(overrides);
    req
}

fn no_overrides() -> RequestOverrides {
    RequestOverrides {
        plan_token: None,
        teacher_boost: None,
        scpi_error_present: None,
        freeze_key: None,
        canonical_summary: None,
        summary: None,
    }
}

#[test]
fn baseline_miss_selects_cheap_model() {
    let mut eng = engine();
    let outcome = eng.plan(&base_request("r1"), None, 1_000).expect("plan");
    assert_eq!(outcome.cache_status, CacheStatus::Miss);
    assert_eq!(outcome.plan.upstream.model_id, "m-cheap");
    assert_eq!(outcome.plan.content_used, ContentLevel::NoContent);
    assert_eq!(outcome.policy_revision, "pol-1");
    assert_eq!(outcome.catalog_revision, "cat-1");
    assert_eq!(outcome.plan.policy_rev, "pol-1");
    let token = outcome.plan.stickiness.plan_token.expect("token issued");
    assert!(!token.is_empty());
    assert_eq!(outcome.plan.stickiness.max_turns, Some(4));
    assert_eq!(
        outcome.plan.stickiness.expires_at.as_deref(),
        Some("1970-01-01T00:00:01.200+00:00")
    );
    assert!(!outcome.plan.fallbacks.is_empty());
}

#[test]
fn cache_hit_via_sticky_token() {
    let mut eng = engine();
    let first = eng.plan(&base_request("r1"), None, 1_000).expect("plan");
    assert_eq!(first.cache_status, CacheStatus::Miss);
    let token = first.plan.stickiness.plan_token.clone().expect("token");

    let mut ov = no_overrides();
    ov.plan_token = Some(token);
    let second = eng
        .plan(&with_overrides("r2", ov), None, 1_020)
        .expect("plan");
    assert_eq!(second.cache_status, CacheStatus::Hit);
    assert_eq!(second.plan.upstream.model_id, first.plan.upstream.model_id);
    assert_eq!(second.route_reason.as_deref(), Some("policy_lock"));
}

#[test]
fn stale_after_fresh_ttl() {
    let mut eng = engine();
    let first = eng.plan(&base_request("r1"), None, 1_000).expect("plan");
    assert_eq!(first.cache_status, CacheStatus::Miss);
    let second = eng.plan(&base_request("r2"), None, 1_080).expect("plan");
    assert_eq!(second.cache_status, CacheStatus::Stale);
}

#[test]
fn reload_forces_miss() {
    let mut eng = engine();
    let first = eng.plan(&base_request("r1"), None, 1_000).expect("plan");
    assert_eq!(first.cache_status, CacheStatus::Miss);
    eng.reload_policy(policy_doc()).expect("reload");
    let second = eng.plan(&base_request("r2"), None, 1_010).expect("plan");
    assert_eq!(second.cache_status, CacheStatus::Miss);
}

#[test]
fn escalation_by_length_picks_fallback_tier() {
    let mut eng = engine();
    let mut req = base_request("r-long");
    req.estimates = Some(Estimates {
        prompt_tokens: Some(9000),
        max_output_tokens: None,
        tokenizer_id: None,
    });
    let outcome = eng.plan(&req, None, 1_000).expect("plan");
    assert_eq!(outcome.route_reason.as_deref(), Some("complexity"));
    assert_eq!(outcome.plan.upstream.model_id, "m-fallback");
    assert_eq!(outcome.plan.hints.tier.as_deref(), Some("T3"));
}

#[test]
fn escalation_by_uncertainty() {
    let mut eng = engine();
    let mut req = base_request("r-unsure");
    req.conversation = Some(Conversation {
        turns: None,
        system_fingerprint: None,
        history_fingerprint: None,
        summary: Some("I am unsure what happened".to_string()),
    });
    let outcome = eng.plan(&req, None, 1_000).expect("plan");
    assert_eq!(outcome.route_reason.as_deref(), Some("uncertainty"));
}

#[test]
fn escalation_by_teacher_boost_wins() {
    let mut eng = engine();
    let mut ov = no_overrides();
    ov.teacher_boost = Some(true);
    ov.scpi_error_present = Some(true);
    let mut req = with_overrides("r-boost", ov);
    req.estimates = Some(Estimates {
        prompt_tokens: Some(9000),
        max_output_tokens: None,
        tokenizer_id: None,
    });
    let outcome = eng.plan(&req, None, 1_000).expect("plan");
    assert_eq!(outcome.route_reason.as_deref(), Some("teacher_boost"));
    assert_eq!(outcome.plan.upstream.model_id, "m-premium");
}

#[test]
fn unknown_alias_is_refused() {
    let mut eng = engine();
    let mut req = base_request("r-missing");
    req.alias = "missing".to_string();
    let err = eng.plan(&req, None, 1_000).expect_err("should fail");
    match &err {
        RouterError::UnknownAlias(alias) => assert_eq!(alias, "missing"),
        other => panic!("unexpected error {:?}", other),
    }
    let api_err = router::errors::with_context(
        err,
        Some("r-missing".to_string()),
        Some(eng.policy_revision()),
    );
    assert_eq!(api_err.status_code(), 404);
    let body = router::errors::error_body(&api_err);
    assert_eq!(body.code, "ALIAS_UNKNOWN");
    assert_eq!(body.policy_rev, "pol-1");
    assert_eq!(body.retry_hint_ms, 0);
    assert!(body.message.contains("alias"));
}

#[test]
fn budget_filter_prefers_affordable_model() {
    let mut eng = engine();
    let mut req = base_request("r-budget");
    req.budget = Some(Budget { amount_micro: 1, currency: "USD".to_string() });
    let err = eng.plan(&req, None, 1_000);
    match err {
        Ok(outcome) => {
            assert!(outcome.plan.hints.est_cost_micro.unwrap() <= 1);
        }
        Err(RouterError::Planning(_)) => {}
        Err(other) => panic!("unexpected error {:?}", other),
    }
}

#[test]
fn region_filter_respects_geo() {
    let mut eng = engine();
    let mut req = base_request("r-geo");
    req.geo = Some(Geo { region: Some("eu".to_string()) });
    // All fixture models are global, so a regional request still routes.
    let outcome = eng.plan(&req, None, 1_000).expect("plan");
    assert_eq!(outcome.plan.upstream.model_id, "m-cheap");
}

#[test]
fn stickiness_rotation_respects_turn_limit() {
    let mut eng = engine();
    let first = eng.plan(&base_request("s0"), None, 1_000).expect("plan");
    let mut last_token = first.plan.stickiness.plan_token.expect("token");
    for turn in 0..3u32 {
        let mut ov = no_overrides();
        ov.plan_token = Some(last_token.clone());
        let outcome = eng
            .plan(
                &with_overrides(&format!("s{}", turn + 1), ov),
                None,
                1_010 + u64::from(turn),
            )
            .expect("plan");
        let next_token = outcome.plan.stickiness.plan_token.expect("token");
        if turn < 2 {
            assert_ne!(last_token, next_token);
        }
        last_token = next_token;
    }
}

#[test]
fn feedback_updates_health_exactly() {
    let mut eng = engine();
    let fb = router::types::RouteFeedback {
        route_id: "r".to_string(),
        model_id: "m-cheap".to_string(),
        success: false,
        duration_ms: 100,
        usage: None,
        status_code: 500,
        actual_cost_micro: None,
        currency: None,
        upstream_error_code: None,
        rl_applied: None,
        cache_hit: None,
    };
    eng.record_feedback(&fb, 5_000);
    let stats = eng.health().snapshot("m-cheap");
    // p50: 700 + (100 - 700) / 5 = 580
    assert_eq!(stats.p50_ms, 580);
    // err: 10_000 + (1_000_000 - 10_000) / 10 = 109_000 ppm
    assert_eq!(stats.err_rate_ppm, 109_000);
    assert_eq!(stats.last_update_ms, 5_000);
    assert!(stats.err_rate_ppm <= 1_000_000);
    assert!(stats.tokens_per_sec >= 1);
}

#[test]
fn stats_reports_revisions_and_counts() {
    let mut eng = engine();
    eng.plan(&base_request("r1"), None, 1_000).expect("plan");
    eng.plan(&base_request("r2"), None, 1_001).expect("plan");
    let stats = eng.stats();
    assert_eq!(stats.policy_revision, "pol-1");
    assert_eq!(stats.catalog_revision, "cat-1");
    assert_eq!(stats.total_requests, 2);
    assert_eq!(stats.error_rate_ppm, 0);
}

#[test]
fn offline_models_are_never_selected() {
    let mut cat = catalog_doc();
    cat.models[0].status = Some("offline".to_string());
    let mut eng = RouterEngine::bootstrap(
        policy_doc(),
        cat,
        vec![],
        b"test-secret-key".to_vec(),
        60,
        60,
        500_000,
        500_000,
    )
    .expect("bootstrap");
    let outcome = eng.plan(&base_request("r1"), None, 1_000).expect("plan");
    assert_ne!(outcome.plan.upstream.model_id, "m-cheap");
}

#[test]
fn missing_base_url_fails_bootstrap() {
    let mut cat = catalog_doc();
    cat.models[1].metadata.base_url = None;
    let result = RouterEngine::bootstrap(
        policy_doc(),
        cat,
        vec![],
        b"k".to_vec(),
        60,
        60,
        500_000,
        500_000,
    );
    assert!(result.is_err());
}

#[test]
fn overlay_fingerprint_and_deny() {
    let mut pol = policy_doc();
    pol.overlay_defaults = vec![("default".to_string(), "ov1".to_string())];
    let mut eng = RouterEngine::bootstrap(
        pol,
        catalog_doc(),
        vec![("ov1".to_string(), "hello".to_string())],
        b"k".to_vec(),
        60,
        60,
        500_000,
        500_000,
    )
    .expect("bootstrap");
    let outcome = eng.plan(&base_request("r1"), None, 1_000).expect("plan");
    let fp = outcome
        .plan
        .prompt_overlays
        .overlay_fingerprint
        .expect("fingerprint");
    assert_eq!(
        fp,
        "sha256:2cf24dba5fb0a30e26e83b2ac5b9e29e1b161e5c1fa7425e73043362938b9824"
    );
    assert_eq!(outcome.plan.prompt_overlays.overlay_size_bytes, Some(5));

    let mut pol2 = policy_doc();
    pol2.defaults.max_overlay_bytes = 2;
    pol2.overlay_defaults = vec![("default".to_string(), "ov1".to_string())];
    let mut eng2 = RouterEngine::bootstrap(
        pol2,
        catalog_doc(),
        vec![("ov1".to_string(), "hello".to_string())],
        b"k".to_vec(),
        60,
        60,
        500_000,
        500_000,
    )
    .expect("bootstrap");
    let err = eng2.plan(&base_request("r1"), None, 1_000).expect_err("deny");
    match err {
        RouterError::PolicyDeny(_) => {}
        other => panic!("unexpected error {:?}", other),
    }
}

#[test]
fn missing_overlay_is_recorded_not_fatal() {
    let mut pol = policy_doc();
    pol.overlay_defaults = vec![("default".to_string(), "ghost".to_string())];
    let mut eng = RouterEngine::bootstrap(
        pol,
        catalog_doc(),
        vec![],
        b"k".to_vec(),
        60,
        60,
        500_000,
        500_000,
    )
    .expect("bootstrap");
    let outcome = eng.plan(&base_request("r1"), None, 1_000).expect("plan");
    assert_eq!(
        outcome.plan.prompt_overlays.overlay_fingerprint.as_deref(),
        Some("missing:ghost")
    );
}

#[test]
fn rate_limit_refuses_after_burst() {
    let mut eng = RouterEngine::bootstrap(
        policy_doc(),
        catalog_doc(),
        vec![],
        b"k".to_vec(),
        60,
        60,
        2_000,
        1_000,
    )
    .expect("bootstrap");
    assert!(eng.check_rate_limit("1.2.3.4", 0).is_ok());
    assert!(eng.check_rate_limit("1.2.3.4", 0).is_ok());
    let refused = eng.check_rate_limit("1.2.3.4", 0);
    assert!(refused.is_err());
    // One second later a full token has been refilled.
    assert!(eng.check_rate_limit("1.2.3.4", 1_000).is_ok());
}

#[test]
fn scpi_flag_escalates_when_policy_arms_it() {
    let mut eng = engine();
    let mut ov = no_overrides();
    ov.scpi_error_present = Some(true);
    let outcome = eng
        .plan(&with_overrides("r-scpi", ov), None, 1_000)
        .expect("plan");
    assert_eq!(outcome.route_reason.as_deref(), Some("policy_lock"));
}

#[test]
fn caps_filter_excludes_models_without_vision() {
    let mut eng = engine();
    let mut req = base_request("r-vision");
    req.caps = vec!["vision".to_string()];
    // No fixture model advertises vision, so planning fails.
    let err = eng.plan(&req, None, 1_000).expect_err("no survivor");
    match err {
        RouterError::Planning(_) => {}
        other => panic!("unexpected error {:?}", other),
    }
}

#[test]
fn freeze_key_override_changes_fingerprint() {
    let mut eng = engine();
    let first = eng.plan(&base_request("r1"), None, 1_000).expect("plan");
    assert_eq!(first.cache_status, CacheStatus::Miss);
    let mut ov = no_overrides();
    ov.freeze_key = Some("rotated".to_string());
    let second = eng
        .plan(&with_overrides("r2", ov), None, 1_010)
        .expect("plan");
    // A rotated freeze key invalidates the shared entry: this is a miss.
    assert_eq!(second.cache_status, CacheStatus::Miss);
    let third = eng.plan(&base_request("r3"), None, 1_020).expect("plan");
    assert_eq!(third.cache_status, CacheStatus::Hit);
}

#[test]
fn exhausted_turns_issue_a_fresh_session() {
    let manager = router::stickiness::StickinessManager::new(b"secret".to_vec());
    let (_, mut claims) = manager
        .issue(None, None, "edu-general", "m-cheap", 2, 200, 1_000)
        .expect("issue");
    let (_, next) = manager.progress_turn(&claims, 200, 1_010).expect("progress");
    claims = next;
    assert_eq!(claims.turn, 1);
    // With max_turns = 2 the engine would now issue anew rather than progress:
    // turn + 1 is no longer below the cap.
    assert!(claims.turn + 1 >= claims.max_turns);
}

#[test]
fn duplicate_candidates_yield_distinct_fallbacks() {
    let mut pol = policy_doc();
    pol.aliases[0].rule.candidates = vec![
        "m-cheap".to_string(),
        "m-cheap".to_string(),
        "m-premium".to_string(),
        "m-fallback".to_string(),
    ];
    let mut eng = RouterEngine::bootstrap(
        pol,
        catalog_doc(),
        vec![],
        b"k".to_vec(),
        60,
        60,
        500_000,
        500_000,
    )
    .expect("bootstrap");
    let outcome = eng.plan(&base_request("r1"), None, 1_000).expect("plan");
    let ids: Vec<&str> = outcome
        .plan
        .fallbacks
        .iter()
        .map(|f| f.model_id.as_str())
        .collect();
    for a in 0..ids.len() {
        for b in (a + 1)..ids.len() {
            assert_ne!(ids[a], ids[b]);
        }
        assert_ne!(ids[a], outcome.plan.upstream.model_id.as_str());
    }
}

#[test]
fn errors_leave_cache_and_metrics_untouched() {
    let mut eng = engine();
    let mut req = base_request("r-missing");
    req.alias = "missing".to_string();
    eng.plan(&req, None, 1_000).expect_err("unknown alias");
    let stats = eng.stats();
    assert_eq!(stats.total_requests, 0);
    assert!(stats.model_share.is_empty());
}

#[test]
fn stats_counts_follow_outcomes() {
    let mut eng = engine();
    let first = eng.plan(&base_request("r1"), None, 1_000).expect("plan");
    let second = eng.plan(&base_request("r2"), None, 1_010).expect("plan");
    assert_eq!(first.cache_status, CacheStatus::Miss);
    assert_eq!(second.cache_status, CacheStatus::Hit);
    let stats = eng.stats();
    assert_eq!(stats.total_requests, 2);
    // One fresh plan: one share entry for the chosen model.
    assert_eq!(stats.model_share.len(), 1);
    assert_eq!(stats.model_share[0].0, "m-cheap");
    assert_eq!(stats.model_share[0].1, 1);
    // One hit out of two requests: half a unit in parts per million.
    assert_eq!(stats.cache_hit_ratio_ppm, 500_000);
}
