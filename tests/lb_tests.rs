use gateway::backend::{Backend, BackendConfig};
use gateway::ipfilter::IpAddress;
use gateway::loadbalancer::LoadBalancer;
use gateway::strategies::{LoadBalancingStrategy, RoundRobinStrategy, WeightedStrategy};
use std::collections::HashMap;

fn create_test_configs(count: usize) -> Vec<BackendConfig> {
    (0..count).map(|i| BackendConfig { url: format!("http://backend-{}", i), weight: 1 }).collect()
}

fn create_test_backends(count: usize) -> Vec<Backend> {
    create_test_configs(count).into_iter().map(Backend::new).collect()
}

fn create_weighted_backends() -> Vec<Backend> {
    vec![
        Backend::new(BackendConfig { url: "http://backend-0".to_string(), weight: 1 }),
        Backend::new(BackendConfig { url: "http://backend-1".to_string(), weight: 2 }),
        Backend::new(BackendConfig { url: "http://backend-2".to_string(), weight: 3 }),
    ]
}

fn v4(a: u8, b: u8, c: u8, d: u8) -> IpAddress {
    IpAddress::V4(u32::from_be_bytes([a, b, c, d]))
}

#[test]
fn test_load_balancer_creation() {
    let lb = LoadBalancer::new(create_test_configs(3), LoadBalancingStrategy::RoundRobin(RoundRobinStrategy::new()));
    assert_eq!(lb.total_count(), 3);
    assert_eq!(lb.healthy_count(), 3);
    assert!(lb.has_healthy_backend());
}

#[test]
fn test_select_backend() {
    let mut lb = LoadBalancer::new(create_test_configs(3), LoadBalancingStrategy::RoundRobin(RoundRobinStrategy::new()));
    let backend = lb.select_backend(None);
    assert!(backend.is_some());
    assert_eq!(lb.backends()[backend.unwrap()].url(), "http://backend-0");
}

#[test]
fn test_round_robin_distribution() {
    let mut lb = LoadBalancer::new(create_test_configs(3), LoadBalancingStrategy::RoundRobin(RoundRobinStrategy::new()));
    let b1 = lb.select_backend(None).unwrap();
    let b2 = lb.select_backend(None).unwrap();
    let b3 = lb.select_backend(None).unwrap();
    let b4 = lb.select_backend(None).unwrap();
    assert_eq!(lb.backends()[b1].url(), "http://backend-0");
    assert_eq!(lb.backends()[b2].url(), "http://backend-1");
    assert_eq!(lb.backends()[b3].url(), "http://backend-2");
    assert_eq!(lb.backends()[b4].url(), "http://backend-0");
}

#[test]
fn test_weighted_distribution() {
    let configs = vec![
        BackendConfig { url: "http://backend-0".to_string(), weight: 1 },
        BackendConfig { url: "http://backend-1".to_string(), weight: 2 },
    ];
    let mut lb = LoadBalancer::new(configs, LoadBalancingStrategy::Weighted(WeightedStrategy::new()));
    let mut counts: HashMap<String, i32> = HashMap::new();
    for _ in 0..30 {
        let i = lb.select_backend(None).unwrap();
        *counts.entry(lb.backends()[i].url().to_string()).or_insert(0) += 1;
    }
    assert_eq!(counts.get("http://backend-0"), Some(&10));
    assert_eq!(counts.get("http://backend-1"), Some(&20));
}

#[test]
fn test_unhealthy_backends() {
    let mut lb = LoadBalancer::new(create_test_configs(3), LoadBalancingStrategy::RoundRobin(RoundRobinStrategy::new()));
    lb.set_backend_health(1, false);
    assert_eq!(lb.healthy_count(), 2);
    assert!(lb.has_healthy_backend());
    for _ in 0..10 {
        let i = lb.select_backend(None).unwrap();
        assert_ne!(lb.backends()[i].url(), "http://backend-1");
    }
}

#[test]
fn test_all_unhealthy() {
    let mut lb = LoadBalancer::new(create_test_configs(2), LoadBalancingStrategy::RoundRobin(RoundRobinStrategy::new()));
    for i in 0..lb.total_count() {
        lb.set_backend_health(i, false);
    }
    assert_eq!(lb.healthy_count(), 0);
    assert!(!lb.has_healthy_backend());
    let backend = lb.select_backend(None);
    assert!(backend.is_none());
}

#[test]
fn mod_test_least_connections() {
    let mut lb = LoadBalancer::new(create_test_configs(3), LoadBalancingStrategy::LeastConnections);
    lb.increment_connections(0);
    lb.increment_connections(0);
    let i = lb.select_backend(None).unwrap();
    assert!(lb.backends()[i].url() != "http://backend-0");
}

#[test]
fn test_round_robin() {
    let backends = create_test_backends(3);
    let mut strategy = LoadBalancingStrategy::RoundRobin(RoundRobinStrategy::new());
    let selected = strategy.select(&backends, None).unwrap();
    assert_eq!(backends[selected].url(), "http://backend-0");
    let selected = strategy.select(&backends, None).unwrap();
    assert_eq!(backends[selected].url(), "http://backend-1");
    let selected = strategy.select(&backends, None).unwrap();
    assert_eq!(backends[selected].url(), "http://backend-2");
    let selected = strategy.select(&backends, None).unwrap();
    assert_eq!(backends[selected].url(), "http://backend-0");
}

#[test]
fn test_round_robin_with_unhealthy() {
    let mut backends = create_test_backends(3);
    backends[1].mark_unhealthy();
    let mut strategy = LoadBalancingStrategy::RoundRobin(RoundRobinStrategy::new());
    let selected1 = strategy.select(&backends, None).unwrap();
    let selected2 = strategy.select(&backends, None).unwrap();
    let selected3 = strategy.select(&backends, None).unwrap();
    assert!(backends[selected1].url() != "http://backend-1");
    assert!(backends[selected2].url() != "http://backend-1");
    assert!(backends[selected3].url() != "http://backend-1");
}

#[test]
fn strategies_test_least_connections() {
    let mut backends = create_test_backends(3);
    let mut strategy = LoadBalancingStrategy::LeastConnections;
    let selected = strategy.select(&backends, None).unwrap();
    assert_eq!(backends[selected].url(), "http://backend-0");
    backends[0].increment_connections();
    backends[0].increment_connections();
    backends[1].increment_connections();
    let selected = strategy.select(&backends, None).unwrap();
    assert_eq!(backends[selected].url(), "http://backend-2");
    backends[2].increment_connections();
    let selected = strategy.select(&backends, None).unwrap();
    assert_eq!(backends[selected].url(), "http://backend-1");
}

#[test]
fn test_weighted_strategy() {
    let backends = create_weighted_backends();
    let mut strategy = LoadBalancingStrategy::Weighted(WeightedStrategy::new());
    let mut selections: HashMap<String, i32> = HashMap::new();
    for _ in 0..60 {
        let selected = strategy.select(&backends, None).unwrap();
        *selections.entry(backends[selected].url().to_string()).or_insert(0) += 1;
    }
    let count0 = selections.get("http://backend-0").unwrap_or(&0);
    let count1 = selections.get("http://backend-1").unwrap_or(&0);
    let count2 = selections.get("http://backend-2").unwrap_or(&0);
    assert_eq!(*count0, 10);
    assert_eq!(*count1, 20);
    assert_eq!(*count2, 30);
}

#[test]
fn test_ip_hash() {
    let backends = create_test_backends(3);
    let mut strategy = LoadBalancingStrategy::IpHash;
    let ip1 = v4(192, 168, 1, 1);
    let ip2 = v4(192, 168, 1, 2);
    let selected1 = strategy.select(&backends, Some(ip1)).unwrap();
    let selected2 = strategy.select(&backends, Some(ip1)).unwrap();
    assert_eq!(backends[selected1].url(), backends[selected2].url());
    let selected3 = strategy.select(&backends, Some(ip2)).unwrap();
    let url = backends[selected3].url();
    assert!(url == "http://backend-0" || url == "http://backend-1" || url == "http://backend-2");
}

#[test]
fn test_ip_hash_ipv6() {
    let backends = create_test_backends(3);
    let mut strategy = LoadBalancingStrategy::IpHash;
    let ip1 = IpAddress::V6(0x2001_0db8_0000_0000_0000_0000_0000_0001);
    let ip2 = IpAddress::V6(0x2001_0db8_0000_0000_0000_0000_0000_0002);
    let selected1 = strategy.select(&backends, Some(ip1)).unwrap();
    let selected2 = strategy.select(&backends, Some(ip1)).unwrap();
    assert_eq!(backends[selected1].url(), backends[selected2].url());
    let selected3 = strategy.select(&backends, Some(ip2)).unwrap();
    let url = backends[selected3].url();
    assert!(url == "http://backend-0" || url == "http://backend-1" || url == "http://backend-2");
}

#[test]
fn ip_hash_exact_positions() {
    let backends = create_test_backends(3);
    let mut strategy = LoadBalancingStrategy::IpHash;
    // 192.168.1.1 is 3232235777, which is 2 modulo 3
    assert_eq!(strategy.select(&backends, Some(v4(192, 168, 1, 1))), Some(2));
    // the leading 64 bits of 2001:db8:: are 0x20010db800000000, which is 2 modulo 3
    assert_eq!(strategy.select(&backends, Some(IpAddress::V6(0x2001_0db8_0000_0000_0000_0000_0000_0001))), Some(2));
    assert_eq!(strategy.select(&backends, None), None);
}

#[test]
fn test_no_healthy_backends() {
    let mut backends = create_test_backends(2);
    backends[0].mark_unhealthy();
    backends[1].mark_unhealthy();
    let mut strategy = LoadBalancingStrategy::RoundRobin(RoundRobinStrategy::new());
    let selected = strategy.select(&backends, None);
    assert!(selected.is_none());
}

#[test]
fn test_empty_backends() {
    let backends: Vec<Backend> = vec![];
    let mut strategy = LoadBalancingStrategy::RoundRobin(RoundRobinStrategy::new());
    let selected = strategy.select(&backends, None);
    assert!(selected.is_none());
}

#[test]
fn weighted_all_zero_falls_back_to_round_robin() {
    let backends = vec![
        Backend::new(BackendConfig { url: "a".to_string(), weight: 0 }),
        Backend::new(BackendConfig { url: "b".to_string(), weight: 0 }),
    ];
    let mut strategy = LoadBalancingStrategy::Weighted(WeightedStrategy::new());
    assert_eq!(strategy.select(&backends, None), Some(0));
    assert_eq!(strategy.select(&backends, None), Some(1));
    assert_eq!(strategy.select(&backends, None), Some(0));
}

#[test]
fn weighted_cycle_is_exact_with_unhealthy_member() {
    let mut backends = create_weighted_backends();
    backends[1].mark_unhealthy();
    let mut strategy = LoadBalancingStrategy::Weighted(WeightedStrategy::new());
    let mut picks = vec![0; 3];
    for _ in 0..8 {
        picks[strategy.select(&backends, None).unwrap()] += 1;
    }
    assert_eq!(picks, vec![2, 0, 6]);
}
