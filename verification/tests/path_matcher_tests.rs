use gateway::path_matcher::RoutePattern;

fn lookup<'a>(vars: &'a [(String, String)], key: &str) -> Option<&'a str> {
    vars.iter().find(|(k, _)| k == key).map(|(_, v)| v.as_str())
}

#[test]
fn test_basic_star_question() {
    let p = RoutePattern::from_pattern("/api/te?t").unwrap();
    assert!(p.match_path("/api/test").is_some());
    assert!(p.match_path("/api/text").is_some());
    assert!(p.match_path("/api/teest").is_none());
}

#[test]
fn test_star_segment() {
    let p = RoutePattern::from_pattern("/api/*").unwrap();
    assert!(p.match_path("/api/a").is_some());
    assert!(p.match_path("/api/abc").is_some());
    assert!(p.match_path("/api/a/b").is_none());
}

#[test]
fn test_double_star() {
    let p = RoutePattern::from_pattern("/api/**").unwrap();
    assert!(p.match_path("/api/a").is_some());
    assert!(p.match_path("/api/a/b").is_some());
    assert!(p.match_path("/api/").is_some());
}

#[test]
fn test_path_variable() {
    let p = RoutePattern::from_pattern("/user/{id}").unwrap();
    let m = p.match_path("/user/123").unwrap();
    assert_eq!(lookup(&m, "id").unwrap(), "123");
}

#[test]
fn test_path_variable_with_regex() {
    let p = RoutePattern::from_pattern("/user/{id:[0-9]+}").unwrap();
    assert!(p.match_path("/user/123").is_some());
    assert!(p.match_path("/user/abc").is_none());
}

#[test]
fn test_complex() {
    let p = RoutePattern::from_pattern("/order/{oid:[A-Z0-9]+}/item/{iid}").unwrap();
    let m = p.match_path("/order/ABC123/item/100").unwrap();
    assert_eq!(lookup(&m, "oid").unwrap(), "ABC123");
    assert_eq!(lookup(&m, "iid").unwrap(), "100");
}

#[test]
fn test_cache_performance() {
    let _p1 = RoutePattern::from_pattern("/api/user/{id}").unwrap();
    let _p2 = RoutePattern::from_pattern("/api/user/{id}").unwrap();
}

#[test]
fn test_traditional_prefix_matching() {
    let test_cases = vec![
        ("/user", "/user", true),
        ("/user", "/user/profile", false),
        ("/user", "/api/user", false),
    ];

    for (pattern, path, expected) in test_cases {
        let p = RoutePattern::from_pattern(pattern).unwrap();
        assert_eq!(p.matches(path), expected, "Pattern: {}, Path: {}", pattern, path);
    }
}

#[test]
fn test_prefix_matching_with_wildcard() {
    let test_cases = vec![
        ("/user/*", "/user/profile", true),
        ("/user/*", "/user/settings", true),
        ("/user/*", "/user", false),
        ("/user/*", "/user/profile/edit", false),
    ];

    for (pattern, path, expected) in test_cases {
        let p = RoutePattern::from_pattern(pattern).unwrap();
        assert_eq!(p.matches(path), expected, "Pattern: {}, Path: {}", pattern, path);
    }
}

#[test]
fn test_prefix_matching_with_double_wildcard() {
    let test_cases = vec![
        ("/user/**", "/user", false),
        ("/user/**", "/user/profile", true),
        ("/user/**", "/user/profile/edit", true),
        ("/user/**", "/api/user", false),
    ];

    for (pattern, path, expected) in test_cases {
        let p = RoutePattern::from_pattern(pattern).unwrap();
        assert_eq!(p.matches(path), expected, "Pattern: {}, Path: {}", pattern, path);
    }
}

#[test]
fn test_path_variable_matching() {
    let test_cases = vec![
        ("/api/user/{id}", "/api/user/123", true),
        ("/api/user/{id}", "/api/user/abc", true),
        ("/api/user/{id}", "/api/user/123/profile", false),
    ];

    for (pattern, path, expected) in test_cases {
        let p = RoutePattern::from_pattern(pattern).unwrap();
        assert_eq!(p.matches(path), expected, "Pattern: {}, Path: {}", pattern, path);
    }
}

#[test]
fn test_regex_constraint_matching() {
    let test_cases = vec![
        ("/api/user/{id:[0-9]+}", "/api/user/123", true),
        ("/api/user/{id:[0-9]+}", "/api/user/abc", false),
    ];

    for (pattern, path, expected) in test_cases {
        let p = RoutePattern::from_pattern(pattern).unwrap();
        assert_eq!(p.matches(path), expected, "Pattern: {}, Path: {}", pattern, path);
    }
}

#[test]
fn test_multi_wildcard_matching() {
    let test_cases = vec![
        ("/static/**", "/static/css/style.css", true),
        ("/static/**", "/static/js/app.js", true),
        ("/static/**", "/static", false),
        ("/static/**", "/api/static", false),
    ];

    for (pattern, path, expected) in test_cases {
        let p = RoutePattern::from_pattern(pattern).unwrap();
        assert_eq!(p.matches(path), expected, "Pattern: {}, Path: {}", pattern, path);
    }
}

#[test]
fn test_single_char_wildcard_matching() {
    let test_cases = vec![
        ("/files/?.txt", "/files/a.txt", true),
        ("/files/?.txt", "/files/1.txt", true),
        ("/files/?.txt", "/files/ab.txt", false),
        ("/files/?.txt", "/files/a.pdf", false),
    ];

    for (pattern, path, expected) in test_cases {
        let p = RoutePattern::from_pattern(pattern).unwrap();
        assert_eq!(p.matches(path), expected, "Pattern: {}, Path: {}", pattern, path);
    }
}

#[test]
fn test_complex_pattern_matching() {
    let test_cases = vec![
        ("/api/v{version}/user/{id:[0-9]+}/posts/**", "/api/v1/user/123/posts", false),
        ("/api/v{version}/user/{id:[0-9]+}/posts/**", "/api/v2/user/456/posts/789", true),
        ("/api/v{version}/user/{id:[0-9]+}/posts/**", "/api/v1/user/abc/posts/123", false),
    ];

    for (pattern, path, expected) in test_cases {
        let p = RoutePattern::from_pattern(pattern).unwrap();
        assert_eq!(p.matches(path), expected, "Pattern: {}, Path: {}", pattern, path);
    }
}

#[test]
fn test_variable_extraction() {
    let p = RoutePattern::from_pattern("/api/user/{id}").unwrap();
    let variables = p.match_path("/api/user/123").unwrap();
    assert_eq!(lookup(&variables, "id").unwrap(), "123");

    let p = RoutePattern::from_pattern("/api/v{version}/user/{id:[0-9]+}/posts/**").unwrap();
    let variables = p.match_path("/api/v1/user/123/posts/456").unwrap();
    assert_eq!(lookup(&variables, "version").unwrap(), "1");
    assert_eq!(lookup(&variables, "id").unwrap(), "123");
}
