use gateway::config::RouteRule;

fn rule(prefix: &[&str], upstream: &[&str], strategy: &str) -> RouteRule {
    RouteRule {
        prefix: prefix.iter().map(|s| s.to_string()).collect(),
        upstream: upstream.iter().map(|s| s.to_string()).collect(),
        strategy: strategy.to_string(),
        whitelist: None,
    }
}

#[test]
fn test_route_rule_matching() {
    let routes = vec![
        rule(&["/user", "/users"], &["http://localhost:30000"], "robin"),
        rule(
            &["/api/user/{id}"],
            &["http://localhost:30001", "http://localhost:30002"],
            "random",
        ),
    ];

    let test_cases = vec![
        ("/user", true, "30000"),
        ("/users", true, "30000"),
        ("/api/user/123", true, "30001 or 30002"),
    ];

    for (path, _should_match, expected_upstream) in test_cases {
        let mut matched = false;
        for route in &routes {
            if route.matches(path) {
                if route.upstream.len() == 1 {
                    assert_eq!(
                        route.upstream[0],
                        format!("http://localhost:{}", expected_upstream)
                    );
                }
                matched = true;
                break;
            }
        }
        assert!(matched, "path {} should match some route", path);
    }
}

#[test]
fn test_route_rule_validation() {
    let valid_route = rule(&["/user"], &["http://localhost:30000"], "round_robin");
    assert!(valid_route.validate().is_ok());

    let invalid_prefix = rule(&[], &["http://localhost:30000"], "robin");
    assert!(invalid_prefix.validate().is_err());

    let invalid_upstream = rule(&["/user"], &[], "robin");
    assert!(invalid_upstream.validate().is_err());

    let invalid_strategy = rule(&["/user"], &["http://localhost:30000"], "unknown");
    assert!(invalid_strategy.validate().is_err());
}
