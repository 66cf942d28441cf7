use madrpc::load_balancer::LoadBalancer;
use madrpc::node::{CircuitBreakerConfig, CircuitBreakerState, DisableReason, HealthCheckStatus, Node};
use std::time::SystemTime;

#[test]
fn test_node_creation() {
    let node = Node::new("localhost:9001".to_string());
    assert_eq!(node.addr, "localhost:9001");
    assert!(node.enabled);
    assert!(node.disable_reason.is_none());
    assert_eq!(node.consecutive_failures, 0);
    assert!(node.last_health_check.is_none());
    assert!(node.last_health_check_status.is_none());
    assert_eq!(node.circuit_state, CircuitBreakerState::Closed);
    assert!(node.circuit_opened_at.is_none());
}

#[test]
fn test_disable_reason_equality() {
    assert_eq!(DisableReason::Manual, DisableReason::Manual);
    assert_eq!(DisableReason::HealthCheck, DisableReason::HealthCheck);
    assert_ne!(DisableReason::Manual, DisableReason::HealthCheck);
}

#[test]
fn test_health_status_equality() {
    assert_eq!(HealthCheckStatus::Healthy, HealthCheckStatus::Healthy);
    assert_eq!(
        HealthCheckStatus::Unhealthy("error".to_string()),
        HealthCheckStatus::Unhealthy("error".to_string())
    );
    assert_ne!(
        HealthCheckStatus::Healthy,
        HealthCheckStatus::Unhealthy("error".to_string())
    );
}

#[test]
fn test_circuit_breaker_state_equality() {
    assert_eq!(CircuitBreakerState::Closed, CircuitBreakerState::Closed);
    assert_eq!(CircuitBreakerState::Open, CircuitBreakerState::Open);
    assert_eq!(CircuitBreakerState::HalfOpen, CircuitBreakerState::HalfOpen);
    assert_ne!(CircuitBreakerState::Closed, CircuitBreakerState::Open);
    assert_ne!(CircuitBreakerState::Open, CircuitBreakerState::HalfOpen);
}

#[test]
fn test_circuit_breaker_config_default() {
    let config = CircuitBreakerConfig::default();
    assert_eq!(config.failure_threshold, 5);
    assert_eq!(config.base_timeout_secs, 30);
    assert_eq!(config.max_timeout_secs, 300);
    assert_eq!(config.backoff_multiplier as f64, 2.0);
}

#[test]
fn test_circuit_breaker_calculate_timeout() {
    let config = CircuitBreakerConfig::default();
    assert_eq!(config.calculate_timeout(1).as_secs(), 30);
    assert_eq!(config.calculate_timeout(2).as_secs(), 60);
    assert_eq!(config.calculate_timeout(3).as_secs(), 120);
    assert_eq!(config.calculate_timeout(4).as_secs(), 240);
    assert_eq!(config.calculate_timeout(5).as_secs(), 300);
    assert_eq!(config.calculate_timeout(10).as_secs(), 300);
}

#[test]
fn test_node_transition_to_open_sets_timestamp() {
    let mut node = Node::new("node1".to_string());
    assert_eq!(node.circuit_state, CircuitBreakerState::Closed);
    assert!(node.circuit_opened_at.is_none());

    node.transition_circuit_state(CircuitBreakerState::Open);
    assert_eq!(node.circuit_state, CircuitBreakerState::Open);
    assert!(node.circuit_opened_at.is_some());
}

#[test]
fn test_node_transition_to_closed_clears_timestamp() {
    let mut node = Node::new("node1".to_string());
    node.transition_circuit_state(CircuitBreakerState::Open);
    assert!(node.circuit_opened_at.is_some());

    node.transition_circuit_state(CircuitBreakerState::Closed);
    assert_eq!(node.circuit_state, CircuitBreakerState::Closed);
    assert!(node.circuit_opened_at.is_none());
}

#[test]
fn test_node_transition_to_half_open_clears_timestamp() {
    let mut node = Node::new("node1".to_string());
    node.transition_circuit_state(CircuitBreakerState::Open);
    assert!(node.circuit_opened_at.is_some());

    node.transition_circuit_state(CircuitBreakerState::HalfOpen);
    assert_eq!(node.circuit_state, CircuitBreakerState::HalfOpen);
    assert!(node.circuit_opened_at.is_none());
}

#[test]
fn test_should_attempt_half_open_when_closed() {
    let node = Node::new("node1".to_string());
    let config = CircuitBreakerConfig::default();
    assert!(!node.should_attempt_half_open(&config));
}

#[test]
fn test_should_attempt_half_open_when_half_open() {
    let mut node = Node::new("node1".to_string());
    node.transition_circuit_state(CircuitBreakerState::HalfOpen);
    let config = CircuitBreakerConfig::default();
    assert!(!node.should_attempt_half_open(&config));
}

#[test]
fn test_should_attempt_half_open_before_timeout() {
    let mut node = Node::new("node1".to_string());
    node.consecutive_failures = 3;
    node.transition_circuit_state(CircuitBreakerState::Open);
    let config = CircuitBreakerConfig::default();
    assert!(!node.should_attempt_half_open(&config));
}

#[test]
fn test_should_attempt_half_open_after_timeout() {
    let mut node = Node::new("node1".to_string());
    node.consecutive_failures = 1;
    node.transition_circuit_state(CircuitBreakerState::Open);
    let past = SystemTime::now() - std::time::Duration::from_secs(31);
    node.circuit_opened_at = Some(past);
    let config = CircuitBreakerConfig::default();
    assert!(node.should_attempt_half_open(&config));
}

#[test]
fn test_circuit_breaker_exponential_backoff_calculation() {
    let config = CircuitBreakerConfig {
        failure_threshold: 3,
        base_timeout_secs: 10,
        max_timeout_secs: 60,
        backoff_multiplier: 2,
    };
    assert_eq!(config.calculate_timeout(1).as_secs(), 10);
    assert_eq!(config.calculate_timeout(2).as_secs(), 20);
    assert_eq!(config.calculate_timeout(3).as_secs(), 40);
    assert_eq!(config.calculate_timeout(4).as_secs(), 60);
    assert_eq!(config.calculate_timeout(10).as_secs(), 60);
}

#[test]
fn timeout_ms_with_zero_failures_divides_by_factor() {
    let config = CircuitBreakerConfig::default();
    assert_eq!(config.calculate_timeout_ms(0), 15_000);
}

#[test]
fn half_open_due_follows_elapsed_time() {
    let mut node = Node::new("n".to_string());
    node.consecutive_failures = 1;
    node.transition_circuit_state(CircuitBreakerState::Open);
    let config = CircuitBreakerConfig::default();
    assert!(!node.half_open_due(&config, Some(29_999)));
    assert!(node.half_open_due(&config, Some(30_000)));
    assert!(!node.half_open_due(&config, None));
}

// Load balancer

#[test]
fn test_load_balancer_creation() {
    let nodes = vec!["localhost:9001".to_string(), "localhost:9002".to_string()];
    let lb = LoadBalancer::new(nodes.clone());
    assert_eq!(lb.node_count(), 2);
}

#[test]
fn test_round_robin() {
    let nodes = vec!["node1".to_string(), "node2".to_string(), "node3".to_string()];
    let mut lb = LoadBalancer::new(nodes);

    assert_eq!(lb.next_node(), Some("node1".to_string()));
    assert_eq!(lb.next_node(), Some("node2".to_string()));
    assert_eq!(lb.next_node(), Some("node3".to_string()));
    assert_eq!(lb.next_node(), Some("node1".to_string()));
}

#[test]
fn test_empty_nodes_returns_none() {
    let mut lb = LoadBalancer::new(vec![]);
    assert_eq!(lb.next_node(), None);
}

#[test]
fn test_single_node() {
    let mut lb = LoadBalancer::new(vec!["only-node".to_string()]);
    assert_eq!(lb.next_node(), Some("only-node".to_string()));
    assert_eq!(lb.next_node(), Some("only-node".to_string()));
}

#[test]
fn test_add_node() {
    let mut lb = LoadBalancer::new(vec!["node1".to_string()]);
    lb.add_node("node2".to_string());
    assert_eq!(lb.node_count(), 2);
}

#[test]
fn test_add_duplicate_node() {
    let mut lb = LoadBalancer::new(vec!["node1".to_string()]);
    lb.add_node("node1".to_string());
    assert_eq!(lb.node_count(), 1);
}

#[test]
fn test_remove_node() {
    let mut lb = LoadBalancer::new(vec![
        "node1".to_string(),
        "node2".to_string(),
        "node3".to_string(),
    ]);
    lb.remove_node("node2");
    assert_eq!(lb.node_count(), 2);
    let mut nodes = lb.nodes();
    nodes.sort();
    assert_eq!(nodes, vec!["node1".to_string(), "node3".to_string()]);
}

#[test]
fn test_get_nodes() {
    let nodes = vec!["a".to_string(), "b".to_string()];
    let lb = LoadBalancer::new(nodes.clone());
    let mut result = lb.nodes();
    result.sort();
    assert_eq!(result, nodes);
}

#[test]
fn test_manual_disable_node() {
    let mut lb = LoadBalancer::new(vec!["node1".to_string(), "node2".to_string()]);
    assert!(lb.disable_node("node1"));

    assert_eq!(lb.disabled_nodes(), vec!["node1".to_string()]);
    assert_eq!(lb.enabled_nodes(), vec!["node2".to_string()]);

    assert_eq!(lb.next_node(), Some("node2".to_string()));
    assert_eq!(lb.next_node(), Some("node2".to_string()));
}

#[test]
fn test_manual_enable_node() {
    let mut lb = LoadBalancer::new(vec!["node1".to_string()]);
    lb.disable_node("node1");
    assert!(lb.enable_node("node1"));
    assert_eq!(lb.enabled_nodes(), vec!["node1".to_string()]);
}

#[test]
fn test_auto_disable_node() {
    let mut lb = LoadBalancer::new(vec!["node1".to_string()]);
    assert!(lb.auto_disable_node("node1"));

    let nodes = lb.all_nodes();
    let node1 = nodes.iter().find(|n| n.addr == "node1").unwrap();
    assert!(!node1.enabled);
    assert_eq!(node1.disable_reason, Some(DisableReason::HealthCheck));
}

#[test]
fn test_auto_disable_does_not_affect_manual() {
    let mut lb = LoadBalancer::new(vec!["node1".to_string()]);
    lb.disable_node("node1");

    assert!(!lb.auto_disable_node("node1"));

    let nodes = lb.all_nodes();
    let node1 = nodes.iter().find(|n| n.addr == "node1").unwrap();
    assert_eq!(node1.disable_reason, Some(DisableReason::Manual));
}

#[test]
fn test_auto_enable_node() {
    let mut lb = LoadBalancer::new(vec!["node1".to_string()]);
    lb.auto_disable_node("node1");
    assert!(lb.auto_enable_node("node1"));

    assert_eq!(lb.enabled_nodes(), vec!["node1".to_string()]);
}

#[test]
fn test_auto_enable_does_not_affect_manual() {
    let mut lb = LoadBalancer::new(vec!["node1".to_string()]);
    lb.disable_node("node1");

    assert!(!lb.auto_enable_node("node1"));
    assert_eq!(lb.enabled_nodes(), vec![] as Vec<String>);
}

#[test]
fn test_update_health_status_healthy() {
    let mut lb = LoadBalancer::new(vec!["node1".to_string()]);
    lb.update_health_status("node1", HealthCheckStatus::Healthy);

    let nodes = lb.all_nodes();
    let node1 = nodes.iter().find(|n| n.addr == "node1").unwrap();
    assert_eq!(node1.consecutive_failures, 0);
    assert_eq!(node1.last_health_check_status, Some(HealthCheckStatus::Healthy));
    assert!(node1.last_health_check.is_some());
}

#[test]
fn test_update_health_status_unhealthy() {
    let mut lb = LoadBalancer::new(vec!["node1".to_string()]);
    lb.update_health_status("node1", HealthCheckStatus::Unhealthy("error".to_string()));

    let nodes = lb.all_nodes();
    let node1 = nodes.iter().find(|n| n.addr == "node1").unwrap();
    assert_eq!(node1.consecutive_failures, 1);
    assert_eq!(
        node1.last_health_check_status,
        Some(HealthCheckStatus::Unhealthy("error".to_string()))
    );
}

#[test]
fn test_consecutive_failures() {
    let mut lb = LoadBalancer::new(vec!["node1".to_string()]);
    assert_eq!(lb.consecutive_failures("node1"), 0);

    lb.update_health_status("node1", HealthCheckStatus::Unhealthy("err".to_string()));
    assert_eq!(lb.consecutive_failures("node1"), 1);

    lb.update_health_status("node1", HealthCheckStatus::Unhealthy("err".to_string()));
    assert_eq!(lb.consecutive_failures("node1"), 2);

    lb.update_health_status("node1", HealthCheckStatus::Healthy);
    assert_eq!(lb.consecutive_failures("node1"), 0);
}

#[test]
fn test_all_nodes_disabled_returns_none() {
    let mut lb = LoadBalancer::new(vec!["node1".to_string(), "node2".to_string()]);
    lb.disable_node("node1");
    lb.disable_node("node2");
    assert_eq!(lb.next_node(), None);
}

#[test]
fn test_enabled_count() {
    let mut lb = LoadBalancer::new(vec![
        "node1".to_string(),
        "node2".to_string(),
        "node3".to_string(),
    ]);
    assert_eq!(lb.enabled_count(), 3);

    lb.disable_node("node1");
    assert_eq!(lb.enabled_count(), 2);

    lb.disable_node("node2");
    assert_eq!(lb.enabled_count(), 1);
}

#[test]
fn test_round_robin_index_wraps_at_usize_max() {
    let mut lb = LoadBalancer::new(vec!["node1".to_string()]);
    lb.round_robin_index = usize::MAX;
    assert_eq!(lb.next_node(), Some("node1".to_string()));
    assert_eq!(lb.round_robin_index, 0);
}

#[test]
fn test_round_robin_with_disabled_nodes() {
    let nodes = vec!["node1".to_string(), "node2".to_string(), "node3".to_string()];
    let mut lb = LoadBalancer::new(nodes);
    lb.disable_node("node2");
    assert_eq!(lb.next_node(), Some("node1".to_string()));
    assert_eq!(lb.next_node(), Some("node3".to_string()));
    assert_eq!(lb.next_node(), Some("node1".to_string()));
    assert_eq!(lb.next_node(), Some("node3".to_string()));
}

#[test]
fn test_round_robin_distributes_evenly() {
    let mut lb = LoadBalancer::new(vec![
        "node1".to_string(),
        "node2".to_string(),
        "node3".to_string(),
    ]);

    let mut counts = std::collections::HashMap::new();
    for _ in 0..300 {
        let node = lb.next_node().unwrap();
        *counts.entry(node).or_insert(0) += 1;
    }

    assert_eq!(counts["node1"], 100);
    assert_eq!(counts["node2"], 100);
    assert_eq!(counts["node3"], 100);
}

#[test]
fn test_circuit_breaker_initially_closed() {
    let lb = LoadBalancer::new(vec!["node1".to_string()]);
    assert_eq!(lb.circuit_state("node1"), Some(CircuitBreakerState::Closed));
}

#[test]
fn test_circuit_breaker_trips_after_threshold() {
    let mut lb = LoadBalancer::new(vec!["node1".to_string()]);
    for _ in 0..4 {
        lb.update_health_status("node1", HealthCheckStatus::Unhealthy("err".to_string()));
        assert_eq!(lb.circuit_state("node1"), Some(CircuitBreakerState::Closed));
    }
    lb.update_health_status("node1", HealthCheckStatus::Unhealthy("err".to_string()));
    assert_eq!(lb.circuit_state("node1"), Some(CircuitBreakerState::Open));
}

#[test]
fn test_circuit_breaker_custom_threshold() {
    let config = CircuitBreakerConfig {
        failure_threshold: 2,
        ..Default::default()
    };
    let mut lb = LoadBalancer::with_config(vec!["node1".to_string()], config);

    lb.update_health_status("node1", HealthCheckStatus::Unhealthy("err".to_string()));
    assert_eq!(lb.circuit_state("node1"), Some(CircuitBreakerState::Closed));

    lb.update_health_status("node1", HealthCheckStatus::Unhealthy("err".to_string()));
    assert_eq!(lb.circuit_state("node1"), Some(CircuitBreakerState::Open));
}

#[test]
fn test_circuit_breaker_opens_circuit_skipped() {
    let mut lb = LoadBalancer::new(vec![
        "node1".to_string(),
        "node2".to_string(),
        "node3".to_string(),
    ]);
    for _ in 0..5 {
        lb.update_health_status("node1", HealthCheckStatus::Unhealthy("err".to_string()));
    }
    assert_eq!(lb.next_node(), Some("node2".to_string()));
    assert_eq!(lb.next_node(), Some("node3".to_string()));
    assert_eq!(lb.next_node(), Some("node2".to_string()));
    assert_eq!(lb.next_node(), Some("node3".to_string()));
}

#[test]
fn test_circuit_breaker_all_open_returns_none() {
    let mut lb = LoadBalancer::new(vec![
        "node1".to_string(),
        "node2".to_string(),
        "node3".to_string(),
    ]);
    for addr in &["node1", "node2", "node3"] {
        for _ in 0..5 {
            lb.update_health_status(addr, HealthCheckStatus::Unhealthy("err".to_string()));
        }
    }
    assert_eq!(lb.next_node(), None);
}

#[test]
fn test_circuit_breaker_reset_on_success() {
    let mut lb = LoadBalancer::new(vec!["node1".to_string()]);
    for _ in 0..5 {
        lb.update_health_status("node1", HealthCheckStatus::Unhealthy("err".to_string()));
    }
    assert_eq!(lb.circuit_state("node1"), Some(CircuitBreakerState::Open));

    lb.update_health_status("node1", HealthCheckStatus::Healthy);
    assert_eq!(lb.consecutive_failures("node1"), 0);
    assert_eq!(lb.circuit_state("node1"), Some(CircuitBreakerState::Open));
}

#[test]
fn test_circuit_breaker_half_open_to_closed_on_success() {
    let mut lb = LoadBalancer::new(vec!["node1".to_string()]);
    for _ in 0..5 {
        lb.update_health_status("node1", HealthCheckStatus::Unhealthy("err".to_string()));
    }
    lb.with_node_state("node1", |node| {
        node.transition_circuit_state(CircuitBreakerState::HalfOpen);
    });
    assert_eq!(lb.circuit_state("node1"), Some(CircuitBreakerState::HalfOpen));

    lb.update_health_status("node1", HealthCheckStatus::Healthy);
    assert_eq!(lb.circuit_state("node1"), Some(CircuitBreakerState::Closed));
}

#[test]
fn test_circuit_breaker_half_open_to_open_on_failure() {
    let mut lb = LoadBalancer::new(vec!["node1".to_string()]);
    for _ in 0..5 {
        lb.update_health_status("node1", HealthCheckStatus::Unhealthy("err".to_string()));
    }
    lb.with_node_state("node1", |node| {
        node.transition_circuit_state(CircuitBreakerState::HalfOpen);
    });
    lb.update_health_status("node1", HealthCheckStatus::Unhealthy("err".to_string()));
    assert_eq!(lb.circuit_state("node1"), Some(CircuitBreakerState::Open));
}

#[test]
fn test_get_open_circuit_nodes() {
    let mut lb = LoadBalancer::new(vec![
        "node1".to_string(),
        "node2".to_string(),
        "node3".to_string(),
    ]);
    for addr in &["node1", "node2"] {
        for _ in 0..5 {
            lb.update_health_status(addr, HealthCheckStatus::Unhealthy("err".to_string()));
        }
    }
    let open_nodes = lb.open_circuit_nodes();
    assert_eq!(open_nodes.len(), 2);
    assert!(open_nodes.contains(&"node1".to_string()));
    assert!(open_nodes.contains(&"node2".to_string()));
    assert!(!open_nodes.contains(&"node3".to_string()));
}

#[test]
fn test_get_half_open_circuit_nodes() {
    let mut lb = LoadBalancer::new(vec![
        "node1".to_string(),
        "node2".to_string(),
        "node3".to_string(),
    ]);
    for addr in &["node1", "node2"] {
        for _ in 0..5 {
            lb.update_health_status(addr, HealthCheckStatus::Unhealthy("err".to_string()));
        }
    }
    lb.with_node_state("node2", |node| {
        node.transition_circuit_state(CircuitBreakerState::HalfOpen);
    });
    let half_open_nodes = lb.half_open_circuit_nodes();
    assert_eq!(half_open_nodes.len(), 1);
    assert_eq!(half_open_nodes[0], "node2".to_string());
}

#[test]
fn test_check_circuit_timeouts_transitions_to_half_open() {
    let config = CircuitBreakerConfig {
        failure_threshold: 2,
        base_timeout_secs: 1,
        max_timeout_secs: 10,
        backoff_multiplier: 2,
    };
    let mut lb = LoadBalancer::with_config(vec!["node1".to_string()], config);

    lb.update_health_status("node1", HealthCheckStatus::Unhealthy("err".to_string()));
    lb.update_health_status("node1", HealthCheckStatus::Unhealthy("err".to_string()));

    lb.with_node_state("node1", |node| {
        node.circuit_opened_at = Some(SystemTime::now() - std::time::Duration::from_secs(3));
    });

    let transitioned = lb.check_circuit_timeouts();
    assert!(transitioned);
    assert_eq!(lb.circuit_state("node1"), Some(CircuitBreakerState::HalfOpen));
}

#[test]
fn test_check_circuit_timeops_no_transition_before_timeout() {
    let mut lb = LoadBalancer::new(vec!["node1".to_string()]);
    for _ in 0..5 {
        lb.update_health_status("node1", HealthCheckStatus::Unhealthy("err".to_string()));
    }
    let transitioned = lb.check_circuit_timeouts();
    assert!(!transitioned);
    assert_eq!(lb.circuit_state("node1"), Some(CircuitBreakerState::Open));
}

#[test]
fn test_next_node_skips_open_but_allows_half_open() {
    let mut lb = LoadBalancer::new(vec![
        "node1".to_string(),
        "node2".to_string(),
        "node3".to_string(),
    ]);
    for _ in 0..5 {
        lb.update_health_status("node1", HealthCheckStatus::Unhealthy("err".to_string()));
    }
    lb.with_node_state("node2", |node| {
        node.transition_circuit_state(CircuitBreakerState::HalfOpen);
    });
    let nodes: Vec<_> = (0..10).map(|_| lb.next_node().unwrap()).collect();
    assert!(!nodes.contains(&"node1".to_string()));
    assert!(nodes.contains(&"node2".to_string()));
    assert!(nodes.contains(&"node3".to_string()));
}

#[test]
fn test_circuit_breaker_with_custom_config() {
    let config = CircuitBreakerConfig {
        failure_threshold: 3,
        base_timeout_secs: 10,
        max_timeout_secs: 60,
        backoff_multiplier: 2,
    };
    let mut lb = LoadBalancer::with_config(vec!["node1".to_string()], config.clone());
    for _ in 0..2 {
        lb.update_health_status("node1", HealthCheckStatus::Unhealthy("err".to_string()));
        assert_eq!(lb.circuit_state("node1"), Some(CircuitBreakerState::Closed));
    }
    lb.update_health_status("node1", HealthCheckStatus::Unhealthy("err".to_string()));
    assert_eq!(lb.circuit_state("node1"), Some(CircuitBreakerState::Open));
}

#[test]
fn disable_then_enable_puts_node_back_in_rotation() {
    let mut lb = LoadBalancer::new(vec!["a".to_string(), "b".to_string()]);
    assert!(lb.disable_node("a"));
    assert!(lb.enable_node("a"));
    assert_eq!(lb.enabled_nodes(), vec!["b".to_string(), "a".to_string()]);
    assert!(!lb.enable_node("missing"));
    assert!(!lb.disable_node("missing"));
}

#[test]
fn duplicate_addresses_at_creation_are_one_node() {
    let lb = LoadBalancer::new(vec!["a".to_string(), "a".to_string()]);
    assert_eq!(lb.node_count(), 1);
}

#[test]
fn zero_timeout_circuit_moves_to_half_open_at_once() {
    let config = CircuitBreakerConfig {
        failure_threshold: 1,
        base_timeout_secs: 0,
        max_timeout_secs: 0,
        backoff_multiplier: 2,
    };
    let mut lb = LoadBalancer::with_config(vec!["node1".to_string(), "node2".to_string()], config);
    lb.update_health_status("node1", HealthCheckStatus::Unhealthy("err".to_string()));
    assert_eq!(lb.circuit_state("node1"), Some(CircuitBreakerState::Open));

    assert!(lb.check_circuit_timeouts());
    assert_eq!(lb.circuit_state("node1"), Some(CircuitBreakerState::HalfOpen));
    assert_eq!(lb.circuit_state("node2"), Some(CircuitBreakerState::Closed));
    assert!(!lb.check_circuit_timeouts());
}

#[test]
fn node_state_changes_other_than_identity_are_applied() {
    let mut lb = LoadBalancer::new(vec!["node1".to_string()]);
    lb.with_node_state("node1", |node| {
        node.consecutive_failures = 7;
        node.enabled = false;
        node.addr = "elsewhere".to_string();
    });
    assert_eq!(lb.consecutive_failures("node1"), 7);
    assert_eq!(lb.enabled_count(), 1);
    assert_eq!(lb.nodes(), vec!["node1".to_string()]);
    lb.with_node_state("absent", |node| node.consecutive_failures = 9);
    assert_eq!(lb.consecutive_failures("node1"), 7);
}

#[test]
fn timeout_is_capped_for_every_failure_count() {
    let config = CircuitBreakerConfig::default();
    let max_ms = config.max_timeout_secs * 1000;
    assert_eq!(config.calculate_timeout_ms(u32::MAX), max_ms);
    assert_eq!(config.calculate_timeout_ms(1u32 << 31), max_ms);
    assert_eq!(config.calculate_timeout(u32::MAX).as_millis() as u64, max_ms);
}

#[test]
fn circuits_move_exactly_when_their_timeout_has_passed() {
    let config = CircuitBreakerConfig {
        failure_threshold: 2,
        base_timeout_secs: 1,
        max_timeout_secs: 10,
        backoff_multiplier: 2,
    };
    let mut lb = LoadBalancer::with_config(vec!["node1".to_string(), "node2".to_string()], config);
    for _ in 0..2 {
        lb.update_health_status("node1", HealthCheckStatus::Unhealthy("err".to_string()));
    }
    assert_eq!(lb.circuit_state("node1"), Some(CircuitBreakerState::Open));

    // Two failures: the timeout is 1 s * 2 = 2 s.
    assert!(!lb.check_circuit_timeouts_at(&vec![Some(1999), Some(5000)]));
    assert_eq!(lb.circuit_state("node1"), Some(CircuitBreakerState::Open));
    assert!(!lb.check_circuit_timeouts_at(&vec![None, None]));
    assert_eq!(lb.circuit_state("node1"), Some(CircuitBreakerState::Open));

    assert!(lb.check_circuit_timeouts_at(&vec![Some(3000), Some(3000)]));
    assert_eq!(lb.circuit_state("node1"), Some(CircuitBreakerState::HalfOpen));
    assert_eq!(lb.circuit_state("node2"), Some(CircuitBreakerState::Closed));
    assert_eq!(lb.half_open_circuit_nodes(), vec!["node1".to_string()]);
}

#[test]
fn zero_multiplier_timeout_without_failures() {
    let zero_base = CircuitBreakerConfig { failure_threshold: 1, base_timeout_secs: 0, max_timeout_secs: 10, backoff_multiplier: 0 };
    assert_eq!(zero_base.calculate_timeout_ms(0), 0);
    let some_base = CircuitBreakerConfig { failure_threshold: 1, base_timeout_secs: 5, max_timeout_secs: 10, backoff_multiplier: 0 };
    assert_eq!(some_base.calculate_timeout_ms(0), 10_000);
}
