use gateway::auth::AuthError;
use gateway::auth::JwtAuth;
use gateway::config::default_strategy;
use gateway::config::validate_rules;
use gateway::config::RouteRule;
use gateway::config::Settings;
use gateway::load_balancer::ip_hash::IpHashBalancer;
use gateway::load_balancer::weighted_random::WeightedRandomBalancer;
use gateway::load_balancer::weighted_random::WeightedUpstream;
use gateway::metrics::should_record;
use gateway::metrics::status_label;
use gateway::proxy::auth_header_additions;
use gateway::proxy::balancer_key;
use gateway::proxy::build_outbound_url;
use gateway::proxy::check_whitelist;
use gateway::proxy::find_best_match;
use gateway::proxy::forward_header_indices;
use gateway::proxy::needs_default_content_type;
use gateway::proxy::no_route_body;
use gateway::proxy::proxy_error_body;
use gateway::proxy::reconstruct_forward_path;
use gateway::proxy::strip_proxy_prefix;
use gateway::proxy::BalancerRegistry;
use gateway::proxy::ProxyErrorKind;
use gateway::rate_limit::effective_qps;
use gateway::rate_limit::init_rate_limits;
use gateway::rate_limit::rate_limit_decision;
use gateway::rate_limit::RateLimitDecision;

fn rule(
    prefix: &[&str],
    upstream: &[&str],
    strategy: &str,
    whitelist: Option<&[&str]>,
) -> RouteRule {
    RouteRule {
        prefix: prefix.iter().map(|s| s.to_string()).collect(),
        upstream: upstream.iter().map(|s| s.to_string()).collect(),
        strategy: strategy.to_string(),
        whitelist: whitelist.map(|ws| ws.iter().map(|s| s.to_string()).collect()),
    }
}

fn make_token(secret: &[u8], sub: &str, exp: u64, tenant: &str) -> String {
    let mut claims = serde_json::Map::new();
    claims.insert("sub".to_string(), serde_json::Value::String(sub.to_string()));
    claims.insert("exp".to_string(), serde_json::Value::Number(serde_json::Number::from(exp)));
    claims.insert("tenant_id".to_string(), serde_json::Value::String(tenant.to_string()));
    jsonwebtoken::encode(
        &jsonwebtoken::Header::new(jsonwebtoken::Algorithm::HS256),
        &serde_json::Value::Object(claims),
        &jsonwebtoken::EncodingKey::from_secret(secret),
    )
    .unwrap()
}

fn now_secs() -> u64 {
    std::time::SystemTime::now()
        .duration_since(std::time::SystemTime::UNIX_EPOCH)
        .unwrap()
        .as_secs()
}

#[test]
fn literal_prefix_proxying_strips_and_keeps_query() {
    let rules = vec![rule(&["/user"], &["http://u:1"], "robin", None)];
    let match_path = strip_proxy_prefix("/user/profile");
    let best = find_best_match(&rules, match_path.as_str()).unwrap();
    let forward = reconstruct_forward_path(match_path.as_str(), &best.prefix);
    assert_eq!(forward, "/profile");
    let url = build_outbound_url(&best.upstream[0], &forward, Some("k=1"));
    assert_eq!(url, "http://u:1/profile?k=1");
}

#[test]
fn proxy_prefix_is_stripped_once_when_present() {
    assert_eq!(strip_proxy_prefix("/proxy/user/1"), "/user/1");
    assert_eq!(strip_proxy_prefix("/user/1"), "/user/1");
}

#[test]
fn round_robin_cycles_through_registry() {
    let mut registry = BalancerRegistry::new();
    let upstreams = vec!["http://a:1".to_string(), "http://b:2".to_string()];
    let mut picked = vec![];
    for _ in 0..4 {
        picked.push(registry.select_for("round_robin", &upstreams, None).unwrap());
    }
    assert_eq!(picked, vec!["http://a:1", "http://b:2", "http://a:1", "http://b:2"]);
}

#[test]
fn unrouted_path_gets_exact_error_body() {
    let rules = vec![rule(&["/user"], &["http://u:1"], "robin", None)];
    assert!(find_best_match(&rules, "/nope").is_none());
    assert_eq!(
        no_route_body("/nope"),
        "{\"error\":\"No upstream configured for path: /nope\"}"
    );
}

#[test]
fn proxy_error_bodies_name_the_failing_leg() {
    assert_eq!(
        proxy_error_body(ProxyErrorKind::Upstream, "connect refused"),
        "{\"error\":\"Proxy error: connect refused\"}"
    );
    assert_eq!(
        proxy_error_body(ProxyErrorKind::RequestBody, "broken pipe"),
        "{\"error\":\"Body read error: broken pipe\"}"
    );
    assert_eq!(
        proxy_error_body(ProxyErrorKind::ResponseBody, "reset"),
        "{\"error\":\"Response body error: reset\"}"
    );
}

#[test]
fn global_rate_limit_rejects_second_request_in_same_second() {
    let limits = init_rate_limits(&Settings {
        gateway_bind: "0.0.0.0:8080".to_string(),
        jwt_decoding_key: "secret".to_string(),
        upstream_default: "http://u:1".to_string(),
        global_qps: 1,
        client_qps: 10,
        request_timeout_secs: None,
    });
    let first = gateway::rate_limit::check_request(&limits, "10.0.0.1");
    assert_eq!(first, RateLimitDecision::Allow);
    let second = gateway::rate_limit::check_request(&limits, "10.0.0.1");
    assert_eq!(second, RateLimitDecision::RejectGlobal);
    assert_eq!(second.status(), 429);
    assert_eq!(second.body(), "Too Many Requests (global)");
}

#[test]
fn rate_limit_decision_orders_global_before_client() {
    assert_eq!(rate_limit_decision(false, false), RateLimitDecision::RejectGlobal);
    assert_eq!(rate_limit_decision(false, true), RateLimitDecision::RejectGlobal);
    assert_eq!(rate_limit_decision(true, false), RateLimitDecision::RejectClient);
    assert_eq!(rate_limit_decision(true, true), RateLimitDecision::Allow);
    assert_eq!(RateLimitDecision::RejectClient.body(), "Too Many Requests (client)");
}

#[test]
fn effective_qps_never_drops_to_zero() {
    assert_eq!(effective_qps(0), 1);
    assert_eq!(effective_qps(1), 1);
    assert_eq!(effective_qps(250), 250);
}

#[test]
fn whitelisted_path_bypasses_auth() {
    let rules = vec![rule(
        &["/public"],
        &["http://u:1"],
        "robin",
        Some(&["/public/**"]),
    )];
    assert!(check_whitelist(&rules, "/public/docs/x"));
    let verified = JwtAuth::verify(true, None, "secret").unwrap();
    assert_eq!(verified.0.sub, "");
    assert_eq!(verified.0.exp, 0);
    assert_eq!(verified.0.tenant_id, "");
}

#[test]
fn unwhitelisted_path_without_header_is_rejected() {
    let rules = vec![rule(
        &["/public"],
        &["http://u:1"],
        "robin",
        Some(&["/public/**"]),
    )];
    assert!(!check_whitelist(&rules, "/private"));
    let err = JwtAuth::verify(false, None, "secret").unwrap_err();
    assert_eq!(err, AuthError::MissingHeader);
    assert_eq!(err.status(), 401);
    assert_eq!(err.message(), "Missing authorization header");
}

#[test]
fn expired_token_is_rejected_unless_bypassed() {
    let secret = b"topsecret";
    let token = make_token(secret, "alice", 1, "t1");
    let header = format!("Bearer {}", token);
    let err = JwtAuth::verify(false, Some(&header), "topsecret").unwrap_err();
    assert_eq!(err, AuthError::DecodeError);
    assert_eq!(err.message(), "Token decode error");
    let bypassed = JwtAuth::verify(true, Some(&header), "topsecret").unwrap();
    assert_eq!(bypassed.0.sub, "");
}

#[test]
fn valid_token_yields_its_claims() {
    let secret = b"topsecret";
    let token = make_token(secret, "alice", now_secs() + 3600, "t1");
    let header = format!("Bearer {}  ", token);
    let verified = JwtAuth::verify(false, Some(&header), "topsecret").unwrap();
    assert_eq!(verified.0.sub, "alice");
    assert_eq!(verified.0.tenant_id, "t1");
    assert!(verified.0.exp > now_secs());
}

#[test]
fn token_with_wrong_scheme_or_bad_signature_is_rejected() {
    let err = JwtAuth::verify(false, Some("Basic abc"), "secret").unwrap_err();
    assert_eq!(err, AuthError::InvalidToken);
    assert_eq!(err.message(), "Invalid token");

    let token = make_token(b"othersecret", "alice", now_secs() + 3600, "t1");
    let header = format!("Bearer {}", token);
    let err = JwtAuth::verify(false, Some(&header), "secret").unwrap_err();
    assert_eq!(err, AuthError::DecodeError);
}

#[test]
fn claims_become_uid_and_tenant_headers() {
    let claims = gateway::auth::Claims {
        sub: "alice".to_string(),
        exp: 0,
        tenant_id: "t1".to_string(),
    };
    let headers = auth_header_additions(&claims);
    assert_eq!(headers.len(), 2);
    assert_eq!(headers[0], ("uid".to_string(), "alice".to_string()));
    assert_eq!(headers[1], ("tenant_id".to_string(), "t1".to_string()));

    let empty = gateway::auth::Claims {
        sub: String::new(),
        exp: 0,
        tenant_id: String::new(),
    };
    assert!(auth_header_additions(&empty).is_empty());
}

#[test]
fn host_header_is_dropped_on_the_way_out() {
    let names = vec![
        "accept".to_string(),
        "host".to_string(),
        "content-length".to_string(),
    ];
    assert_eq!(forward_header_indices(&names), vec![0, 2]);
    assert!(needs_default_content_type(&names));
    let with_ct = vec!["content-type".to_string()];
    assert!(!needs_default_content_type(&with_ct));
}

#[test]
fn metrics_endpoint_is_never_counted() {
    assert!(!should_record("/metrics"));
    assert!(should_record("/user/profile"));
    assert!(should_record("/"));
    assert_eq!(status_label(200), "200");
    assert_eq!(status_label(502), "502");
}

#[test]
fn ip_hash_pick_is_deterministic_per_address() {
    let balancer = IpHashBalancer::new(vec![
        "http://a:1".to_string(),
        "http://b:2".to_string(),
        "http://c:3".to_string(),
    ]);
    let first = balancer.select(Some("10.0.0.1"));
    let second = balancer.select(Some("10.0.0.1"));
    assert_eq!(first, second);
    assert!(first.is_some());
    assert_eq!(balancer.select(None), balancer.select(Some("127.0.0.1")));
}

#[test]
fn weighted_frequencies_follow_the_weights() {
    let balancer = WeightedRandomBalancer::new(vec![
        WeightedUpstream { url: "one".to_string(), weight: 1 },
        WeightedUpstream { url: "two".to_string(), weight: 2 },
        WeightedUpstream { url: "three".to_string(), weight: 3 },
    ]);
    let trials = 10000usize;
    let mut counts = std::collections::HashMap::new();
    for _ in 0..trials {
        *counts.entry(balancer.select(None).unwrap()).or_insert(0usize) += 1;
    }
    let expected = [("one", 1.0 / 6.0), ("two", 2.0 / 6.0), ("three", 3.0 / 6.0)];
    for (url, share) in expected {
        let freq = counts[url] as f64 / trials as f64;
        assert!((freq - share).abs() <= 0.03, "{}: {} vs {}", url, freq, share);
    }
}

#[test]
fn zero_weight_entries_are_never_picked() {
    let balancer = WeightedRandomBalancer::new(vec![
        WeightedUpstream { url: "dead".to_string(), weight: 0 },
        WeightedUpstream { url: "live".to_string(), weight: 5 },
    ]);
    for _ in 0..200 {
        assert_eq!(balancer.select(None).unwrap(), "live");
    }
    let all_zero = WeightedRandomBalancer::new(vec![WeightedUpstream {
        url: "dead".to_string(),
        weight: 0,
    }]);
    assert!(all_zero.select(None).is_none());
}

#[test]
fn validation_errors_name_the_offence() {
    let no_prefix = rule(&[], &["http://u:1"], "round_robin", None);
    assert_eq!(no_prefix.validate().unwrap_err(), "prefix must not be empty");

    let blank_upstream = rule(&["/a"], &["  "], "round_robin", None);
    assert_eq!(blank_upstream.validate().unwrap_err(), "upstream[0] must not be blank");

    let bad_strategy = rule(&["/a"], &["http://u:1"], "unknown", None);
    assert_eq!(
        bad_strategy.validate().unwrap_err(),
        "unsupported load balancing strategy: unknown"
    );

    let rules = vec![
        rule(&["/a"], &["http://u:1"], "round_robin", None),
        rule(&["/b"], &[], "ip_hash", None),
    ];
    assert_eq!(
        validate_rules(&rules).unwrap_err(),
        "route rule #2 is invalid: upstream must not be empty"
    );
    let good = vec![rule(&["/a"], &["http://u:1"], "weighted_random", None)];
    assert!(validate_rules(&good).is_ok());
}

#[test]
fn higher_scoring_rule_wins_and_first_wins_ties() {
    let rules = vec![
        rule(&["/api"], &["http://short:1"], "robin", None),
        rule(&["/api/user"], &["http://long:1"], "robin", None),
        rule(&["/api/user"], &["http://late:1"], "robin", None),
    ];
    let best = find_best_match(&rules, "/api/user/7").unwrap();
    assert_eq!(best.upstream[0], "http://long:1");

    let wildcard = vec![
        rule(&["/api"], &["http://plain:1"], "robin", None),
        rule(&["/a*"], &["http://starry:1"], "robin", None),
    ];
    let best = find_best_match(&wildcard, "/api").unwrap();
    assert_eq!(best.upstream[0], "http://starry:1");
}

#[test]
fn registry_keys_are_strategy_and_upstreams() {
    let upstreams = vec!["http://a:1".to_string(), "http://b:2".to_string()];
    assert_eq!(balancer_key("round_robin", &upstreams), "round_robin:http://a:1,http://b:2");
    assert_eq!(balancer_key("ip_hash", &vec![]), "ip_hash:");
}

#[test]
fn registry_separates_balancers_per_key() {
    let mut registry = BalancerRegistry::new();
    let a = vec!["http://a:1".to_string(), "http://b:2".to_string()];
    let b = vec!["http://c:3".to_string()];
    assert_eq!(registry.select_for("round_robin", &a, None).unwrap(), "http://a:1");
    assert_eq!(registry.select_for("round_robin", &b, None).unwrap(), "http://c:3");
    assert_eq!(registry.select_for("round_robin", &a, None).unwrap(), "http://b:2");
}

#[test]
fn default_settings_values() {
    assert_eq!(default_strategy(), "round_robin");
    let settings = Settings {
        gateway_bind: "0.0.0.0:8080".to_string(),
        jwt_decoding_key: "secret".to_string(),
        upstream_default: "http://u:1".to_string(),
        global_qps: 100,
        client_qps: 10,
        request_timeout_secs: None,
    };
    assert_eq!(settings.request_timeout(), 10);
    let with_timeout = Settings { request_timeout_secs: Some(3), ..settings };
    assert_eq!(with_timeout.request_timeout(), 3);
}

#[test]
fn rule_variables_are_extracted_for_the_matching_prefix() {
    let r = rule(&["/api/user/{id:[0-9]+}"], &["http://a:1"], "round_robin", None);
    assert!(r.matches("/api/user/42"));
    assert!(!r.matches("/api/user/abc"));
    let vars = r.extract_variables("/api/user/42");
    assert_eq!(vars, vec![("id".to_string(), "42".to_string())]);
}

#[test]
fn literal_match_stops_at_segment_boundaries() {
    let r = rule(&["/user"], &["http://u:1"], "robin", None);
    assert!(r.matches("/user"));
    assert!(r.matches("/user/profile"));
    assert!(!r.matches("/username"));
}

#[test]
fn pattern_cache_is_transparent() {
    let mut cache = gateway::path_matcher::PatternCache::new();
    let cached = cache.get_or_compile("/api/user/{id:[0-9]+}").unwrap();
    assert!(cached.matches("/api/user/42"));
    let fresh = gateway::path_matcher::RoutePattern::from_pattern("/api/user/{id:[0-9]+}").unwrap();
    for path in ["/api/user/42", "/api/user/abc", "/api/user/42/x"] {
        let again = cache.get_or_compile("/api/user/{id:[0-9]+}").unwrap();
        assert_eq!(again.matches(path), fresh.matches(path));
        assert_eq!(again.match_path(path), fresh.match_path(path));
    }
    assert!(cache.get_or_compile("/bad/{id:[}").is_err());
}

#[test]
fn empty_upstream_sets_pick_nothing() {
    let empty_ring = IpHashBalancer::new(vec![]);
    assert!(empty_ring.select(Some("10.0.0.1")).is_none());
    assert!(empty_ring.select(None).is_none());

    let mut registry = BalancerRegistry::new();
    assert!(registry.select_for("round_robin", &vec![], None).is_none());
}

#[test]
fn config_missing_is_an_internal_error() {
    let err = AuthError::ConfigMissing;
    assert_eq!(err.status(), 500);
    assert_eq!(err.message(), "Config missing");
}

#[test]
fn plan_route_answers_routed_and_unrouted_paths() {
    let rules = vec![
        rule(&["/user"], &["http://u:1"], "robin", None),
        rule(&["/api/user/{id:[0-9]+}"], &["http://a:1", "http://b:2"], "round_robin", None),
    ];
    let plan = gateway::proxy::plan_route(&rules, "/proxy/user/profile").unwrap();
    assert_eq!(plan.rule_index, 0);
    assert_eq!(plan.match_path, "/user/profile");
    assert_eq!(plan.forward_path, "/profile");
    assert!(plan.variables.is_empty());

    let plan = gateway::proxy::plan_route(&rules, "/api/user/42").unwrap();
    assert_eq!(plan.rule_index, 1);
    assert_eq!(plan.forward_path, "/api/user/42");
    assert_eq!(plan.variables, vec![("id".to_string(), "42".to_string())]);

    let err = gateway::proxy::plan_route(&rules, "/nope").unwrap_err();
    assert_eq!(err, "{\"error\":\"No upstream configured for path: /nope\"}");
}

#[test]
fn unknown_strategy_tags_fall_back_to_round_robin() {
    let mut registry = BalancerRegistry::new();
    let upstreams = vec!["http://a:1".to_string(), "http://b:2".to_string()];
    let first = registry.select_for("whatever", &upstreams, None).unwrap();
    let second = registry.select_for("whatever", &upstreams, None).unwrap();
    assert_eq!(first, "http://a:1");
    assert_eq!(second, "http://b:2");
    // the legacy short tags are no strategy of their own either
    let third = registry.select_for("random", &upstreams, None).unwrap();
    let fourth = registry.select_for("random", &upstreams, None).unwrap();
    assert_eq!((third, fourth), ("http://a:1".to_string(), "http://b:2".to_string()));
}

#[test]
fn only_the_three_strategy_tags_validate() {
    for tag in ["round_robin", "weighted_random", "ip_hash"] {
        assert!(rule(&["/a"], &["http://u:1"], tag, None).validate().is_ok());
    }
    for tag in ["robin", "random", "iphash", ""] {
        assert!(rule(&["/a"], &["http://u:1"], tag, None).validate().is_err());
    }
}

#[test]
fn ip_hash_strategy_is_stable_through_the_registry() {
    let mut registry = BalancerRegistry::new();
    let upstreams = vec![
        "http://a:1".to_string(),
        "http://b:2".to_string(),
        "http://c:3".to_string(),
    ];
    let first = registry.select_for("ip_hash", &upstreams, Some("10.0.0.1")).unwrap();
    let second = registry.select_for("ip_hash", &upstreams, Some("10.0.0.1")).unwrap();
    assert_eq!(first, second);
}
