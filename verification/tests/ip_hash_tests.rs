use gateway::load_balancer::ip_hash::IpHashBalancer;

#[test]
fn test_consistent_hashing() {
    let balancer = IpHashBalancer::new(vec![
        "http://localhost:30000".to_string(),
        "http://localhost:30001".to_string(),
        "http://localhost:30002".to_string(),
    ]);

    let ip1 = "192.168.1.1";
    let result1 = balancer.select(Some(ip1));
    let result2 = balancer.select(Some(ip1));
    assert_eq!(result1, result2);

    let ip2 = "192.168.1.2";
    let result3 = balancer.select(Some(ip2));
    assert!(result3.is_some());
}

#[test]
fn ip_hash_test_dynamic_update() {
    let mut balancer = IpHashBalancer::new(vec!["http://localhost:30000".to_string()]);

    let ip = "192.168.1.1";
    let _original = balancer.select(Some(ip));

    balancer.update_upstreams(vec![
        "http://localhost:30001".to_string(),
        "http://localhost:30002".to_string(),
    ]);

    let updated = balancer.select(Some(ip));
    assert!(updated.is_some());
}
