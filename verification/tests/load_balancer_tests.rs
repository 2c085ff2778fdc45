use velo_hub::models::{Backend, LoadBalancingStrategy, Provider, ProviderType};
use velo_hub::router::load_balancer::LoadBalancer;

fn create_test_backend(id: &str, priority: i32, weight: i32) -> Backend {
    let provider = Provider {
        id: id.to_string(),
        name: format!("Provider {}", id),
        provider_type: ProviderType::OpenAI,
        endpoint: "https://api.example.com".to_string(),
        api_key: "test-key".to_string(),
        priority,
        weight,
        enabled: true,
        proxy: None,
        created_at: 0,
        updated_at: 0,
    };
    Backend::new(provider)
}

#[test]
fn test_empty_backends() {
    let mut lb = LoadBalancer::default();
    let result = lb.select_backend(vec![]);
    assert!(result.is_none());
}

#[test]
fn test_single_backend() {
    let mut lb = LoadBalancer::default();
    let backend = create_test_backend("1", 0, 1);
    let result = lb.select_backend(vec![backend.clone()]);
    assert!(result.is_some());
    assert_eq!(result.unwrap().provider.id, "1");
}

#[test]
fn test_priority_based_selection() {
    let mut lb = LoadBalancer::new(LoadBalancingStrategy::PriorityBased);
    let backends = vec![
        create_test_backend("low", 0, 1),
        create_test_backend("high", 10, 1),
        create_test_backend("medium", 5, 1),
    ];
    for _ in 0..10 {
        let result = lb.select_backend(backends.clone());
        assert!(result.is_some());
        assert_eq!(result.unwrap().provider.id, "high");
    }
}

#[test]
fn test_weighted_random_distribution() {
    let mut lb = LoadBalancer::new(LoadBalancingStrategy::PriorityBased);
    let backends = vec![create_test_backend("heavy", 0, 80), create_test_backend("light", 0, 20)];
    let mut heavy_count = 0;
    let mut _light_count = 0;
    let iterations = 1000;
    for _ in 0..iterations {
        let result = lb.select_backend(backends.clone());
        assert!(result.is_some());
        match result.unwrap().provider.id.as_str() {
            "heavy" => heavy_count += 1,
            "light" => _light_count += 1,
            _ => panic!("Unexpected backend selected"),
        }
    }
    let heavy_ratio = heavy_count as f64 / iterations as f64;
    assert!(heavy_ratio > 0.7 && heavy_ratio < 0.9, "Heavy ratio: {}", heavy_ratio);
}

#[test]
fn test_weighted_round_robin() {
    let mut lb = LoadBalancer::new(LoadBalancingStrategy::WeightedRoundRobin);
    let backends = vec![create_test_backend("a", 0, 2), create_test_backend("b", 0, 1)];
    let mut selections = Vec::new();
    for _ in 0..9 {
        let result = lb.select_backend(backends.clone());
        assert!(result.is_some());
        selections.push(result.unwrap().provider.id);
    }
    let a_count = selections.iter().filter(|&id| id == "a").count();
    let b_count = selections.iter().filter(|&id| id == "b").count();
    assert_eq!(a_count, 6);
    assert_eq!(b_count, 3);
}

#[test]
fn test_priority_groups_with_weights() {
    let mut lb = LoadBalancer::new(LoadBalancingStrategy::PriorityBased);
    let backends = vec![
        create_test_backend("high1", 10, 3),
        create_test_backend("high2", 10, 1),
        create_test_backend("low", 0, 10),
    ];
    for _ in 0..20 {
        let result = lb.select_backend(backends.clone());
        assert!(result.is_some());
        let id = result.unwrap().provider.id;
        assert!(id == "high1" || id == "high2");
    }
}

#[test]
fn test_zero_and_negative_weights() {
    let mut lb = LoadBalancer::new(LoadBalancingStrategy::PriorityBased);
    let backends = vec![create_test_backend("zero", 0, 0), create_test_backend("negative", 0, -5)];
    let result = lb.select_backend(backends);
    assert!(result.is_some());
}

#[test]
fn test_strategy_change() {
    let mut lb = LoadBalancer::new(LoadBalancingStrategy::PriorityBased);
    assert!(matches!(lb.strategy(), LoadBalancingStrategy::PriorityBased));

    lb.set_strategy(LoadBalancingStrategy::WeightedRoundRobin);
    assert!(matches!(lb.strategy(), LoadBalancingStrategy::WeightedRoundRobin));
}

#[test]
fn test_reset_state() {
    let mut lb = LoadBalancer::new(LoadBalancingStrategy::WeightedRoundRobin);
    let backends = vec![create_test_backend("a", 0, 1), create_test_backend("b", 0, 1)];
    for _ in 0..5 {
        lb.select_backend(backends.clone());
    }
    lb.reset_state();
    let result = lb.select_backend(backends);
    assert!(result.is_some());
}

#[test]
fn round_robin_order_is_heaviest_first() {
    let mut lb = LoadBalancer::new(LoadBalancingStrategy::WeightedRoundRobin);
    let backends = vec![create_test_backend("b", 0, 1), create_test_backend("a", 0, 2)];
    let order: Vec<String> = (0..6).map(|_| lb.select_backend(backends.clone()).unwrap().provider.id).collect();
    assert_eq!(order, vec!["a", "a", "b", "a", "a", "b"]);
}

#[test]
fn round_robin_restarts_after_reset() {
    let mut lb = LoadBalancer::new(LoadBalancingStrategy::WeightedRoundRobin);
    let backends = vec![create_test_backend("a", 0, 1), create_test_backend("b", 0, 1)];
    assert_eq!(lb.select_backend(backends.clone()).unwrap().provider.id, "a");
    lb.reset_state();
    assert_eq!(lb.select_backend(backends.clone()).unwrap().provider.id, "a");
    assert_eq!(lb.select_backend(backends).unwrap().provider.id, "b");
}

#[test]
fn least_latency_falls_back_to_priority() {
    let mut lb = LoadBalancer::new(LoadBalancingStrategy::LeastLatency);
    let backends = vec![create_test_backend("low", 1, 5), create_test_backend("high", 2, 1)];
    assert_eq!(lb.select_backend(backends).unwrap().provider.id, "high");
}

#[test]
fn priority_pick_by_weight_position() {
    let backends = || {
        vec![
            create_test_backend("low", 0, 5),
            create_test_backend("a", 1, 2),
            create_test_backend("b", 1, 1),
            create_test_backend("c", 1, 0),
        ]
    };
    let at = |pos: i32| LoadBalancer::select_priority_at(backends(), pos).map(|b| b.provider.id);
    assert_eq!(at(0), Some("a".to_string()));
    assert_eq!(at(1), Some("a".to_string()));
    assert_eq!(at(2), Some("b".to_string()));
    // A weight below 1 counts as 1.
    assert_eq!(at(3), Some("c".to_string()));
    assert_eq!(at(4), None);
    assert_eq!(at(-1), None);
    assert_eq!(LoadBalancer::select_priority_at(vec![], 0).map(|b| b.provider.id), None);
}
