use gateway::load_balancer::weighted_random::WeightedRandomBalancer;
use gateway::load_balancer::weighted_random::WeightedUpstream;

#[test]
fn test_basic_selection() {
    let balancer = WeightedRandomBalancer::new(vec![
        WeightedUpstream { url: "http://localhost:30000".to_string(), weight: 1 },
        WeightedUpstream { url: "http://localhost:30001".to_string(), weight: 2 },
        WeightedUpstream { url: "http://localhost:30002".to_string(), weight: 3 },
    ]);

    let mut counts = std::collections::HashMap::new();
    for _ in 0..6000 {
        let url = balancer.select(None).unwrap();
        *counts.entry(url).or_insert(0) += 1;
    }

    println!("{:?}", counts);
    assert!(counts["http://localhost:30000"] < counts["http://localhost:30001"]);
    assert!(counts["http://localhost:30001"] < counts["http://localhost:30002"]);
}

#[test]
fn weighted_random_test_dynamic_update() {
    let mut balancer = WeightedRandomBalancer::new(vec![WeightedUpstream {
        url: "http://localhost:30000".to_string(),
        weight: 1,
    }]);

    assert_eq!(balancer.select(None).unwrap(), "http://localhost:30000");

    balancer.update(vec![
        WeightedUpstream { url: "http://localhost:30001".to_string(), weight: 1 },
        WeightedUpstream { url: "http://localhost:30002".to_string(), weight: 2 },
    ]);

    let mut urls = vec![];
    for _ in 0..10 {
        urls.push(balancer.select(None).unwrap());
    }
    assert!(urls.iter().any(|u| u == "http://localhost:30002"));
}
