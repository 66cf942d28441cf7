use madrpc::clock::MonotonicClock;
use madrpc::latency::{LatencyBuffer, LATENCY_BUFFER_SIZE};
use madrpc::registry::{MetricsConfig, MetricsRegistry};

#[test]
fn test_counter_increments() {
    let mut registry = MetricsRegistry::new();

    registry.increment_total();
    registry.increment_total();
    registry.increment_success();
    registry.increment_failure();

    let snapshot = registry.snapshot(false);
    assert_eq!(snapshot.total_requests, 2);
    assert_eq!(snapshot.successful_requests, 1);
    assert_eq!(snapshot.failed_requests, 1);
}

#[test]
fn test_active_connections() {
    let mut registry = MetricsRegistry::new();

    registry.increment_active_connections();
    registry.increment_active_connections();
    registry.increment_active_connections();

    assert_eq!(registry.snapshot(false).active_connections, 3);

    registry.decrement_active_connections();
    assert_eq!(registry.snapshot(false).active_connections, 2);
}

#[test]
fn test_method_tracking() {
    let mut registry = MetricsRegistry::new();

    registry.record_method_call("test_method", 100, true);
    registry.record_method_call("test_method", 200, true);
    registry.record_method_call("test_method", 50, false);

    let snapshot = registry.snapshot(false);
    assert_eq!(snapshot.total_requests, 3);
    assert_eq!(snapshot.successful_requests, 2);
    assert_eq!(snapshot.failed_requests, 1);

    let method_metrics = snapshot.methods.get("test_method").unwrap();
    assert_eq!(method_metrics.call_count, 3);
    assert_eq!(method_metrics.success_count, 2);
    assert_eq!(method_metrics.failure_count, 1);
    assert_eq!(method_metrics.avg_latency_us, 116);
}

#[test]
fn test_percentile_calculation() {
    let mut registry = MetricsRegistry::new();

    for i in 0..1000 {
        registry.record_method_call("percentile_test", i, true);
    }

    let snapshot = registry.snapshot(false);
    let method_metrics = snapshot.methods.get("percentile_test").unwrap();

    assert!(method_metrics.p50_latency_us >= 400 && method_metrics.p50_latency_us <= 600);
    assert!(method_metrics.p95_latency_us >= 900 && method_metrics.p95_latency_us <= 999);
    assert!(method_metrics.p99_latency_us >= 980 && method_metrics.p99_latency_us <= 999);
}

#[test]
fn test_node_request_tracking() {
    let mut registry = MetricsRegistry::new();

    registry.record_node_request("node1");
    registry.record_node_request("node1");
    registry.record_node_request("node2");

    let snapshot = registry.snapshot(true);
    assert!(snapshot.nodes.is_some());

    let nodes = snapshot.nodes.unwrap();
    assert_eq!(nodes.len(), 2);
    assert_eq!(nodes.get("node1").unwrap().request_count, 2);
    assert_eq!(nodes.get("node2").unwrap().request_count, 1);
}

#[test]
fn test_config_defaults() {
    let config = MetricsConfig::default();
    assert_eq!(config.max_methods, 1000);
    assert_eq!(config.max_nodes, 100);
    assert_eq!(config.method_ttl_secs, 3600);
    assert_eq!(config.node_ttl_secs, 3600);
}

#[test]
fn test_registry_with_custom_config() {
    let config = MetricsConfig {
        max_methods: 10,
        max_nodes: 5,
        method_ttl_secs: 60,
        node_ttl_secs: 60,
    };
    let mut registry = MetricsRegistry::with_config(config);

    for i in 0..15 {
        registry.record_method_call(&format!("method_{}", i), 100, true);
    }

    for _ in 0..990 {
        registry.record_method_call("method_0", 100, true);
    }

    let snapshot = registry.snapshot(false);
    assert!(snapshot.methods.len() <= 10);
}

#[test]
fn test_method_ttl_cleanup() {
    let config = MetricsConfig {
        max_methods: 1000,
        max_nodes: 100,
        method_ttl_secs: 0,
        node_ttl_secs: 3600,
    };
    let mut registry = MetricsRegistry::with_config(config);

    registry.record_method_call("old_method", 100, true);
    registry.record_method_call("another_old", 200, true);

    for _i in 0..1001 {
        registry.record_method_call("new_method", 100, true);
    }

    let snapshot = registry.snapshot(false);
    assert!(!snapshot.methods.contains_key("old_method"));
    assert!(!snapshot.methods.contains_key("another_old"));
    assert!(snapshot.methods.contains_key("new_method"));
}

#[test]
fn test_max_methods_enforcement() {
    let config = MetricsConfig {
        max_methods: 5,
        max_nodes: 100,
        method_ttl_secs: 3600,
        node_ttl_secs: 3600,
    };
    let mut registry = MetricsRegistry::with_config(config);

    for i in 0..10 {
        registry.record_method_call(&format!("method_{}", i), 100, true);
    }

    for _ in 0..995 {
        registry.record_method_call("method_0", 100, true);
    }

    let snapshot = registry.snapshot(false);
    assert!(snapshot.methods.len() <= 5);
}

#[test]
fn test_lru_eviction_preserves_recent() {
    let config = MetricsConfig {
        max_methods: 3,
        max_nodes: 100,
        method_ttl_secs: 3600,
        node_ttl_secs: 3600,
    };
    let mut registry = MetricsRegistry::with_config(config);

    registry.record_method_call("method_1", 100, true);
    registry.record_method_call("method_2", 100, true);
    registry.record_method_call("method_3", 100, true);
    registry.record_method_call("method_4", 100, true);
    registry.record_method_call("method_5", 100, true);

    for _ in 0..10 {
        registry.record_method_call("method_1", 100, true);
        registry.record_method_call("method_2", 100, true);
    }

    for _ in 0..994 {
        registry.record_method_call("method_1", 100, true);
    }

    let snapshot = registry.snapshot(false);
    assert!(snapshot.methods.len() <= 3);
    assert!(snapshot.methods.contains_key("method_1"));
    assert!(snapshot.methods.contains_key("method_2"));
}

#[test]
fn test_node_ttl_cleanup() {
    let config = MetricsConfig {
        max_methods: 1000,
        max_nodes: 100,
        method_ttl_secs: 3600,
        node_ttl_secs: 0,
    };
    let mut registry = MetricsRegistry::with_config(config);

    registry.record_node_request("old_node");
    registry.record_node_request("another_old");

    for i in 0..1001 {
        registry.record_node_request(&format!("node_{}", i));
    }

    let snapshot = registry.snapshot(true);
    let nodes = snapshot.nodes.unwrap();
    assert!(!nodes.contains_key("old_node"));
    assert!(!nodes.contains_key("another_old"));
}

#[test]
fn test_max_nodes_enforcement() {
    let config = MetricsConfig {
        max_methods: 1000,
        max_nodes: 3,
        method_ttl_secs: 3600,
        node_ttl_secs: 3600,
    };
    let mut registry = MetricsRegistry::with_config(config);

    for i in 0..5 {
        registry.record_node_request(&format!("node_{}", i));
    }

    for _ in 0..998 {
        registry.record_node_request("node_0");
    }

    let snapshot = registry.snapshot(true);
    let nodes = snapshot.nodes.unwrap();
    assert!(nodes.len() <= 3);
}

#[test]
fn test_cleanup_does_not_affect_counters() {
    let config = MetricsConfig {
        max_methods: 2,
        max_nodes: 100,
        method_ttl_secs: 3600,
        node_ttl_secs: 3600,
    };
    let mut registry = MetricsRegistry::with_config(config);

    for i in 0..2000 {
        registry.record_method_call(&format!("method_{}", i), 100, true);
    }

    let snapshot = registry.snapshot(false);
    assert_eq!(snapshot.total_requests, 2000);
    assert_eq!(snapshot.successful_requests, 2000);
}

#[test]
fn test_timestamp_fallback_counter_increments() {
    let mut clock = MonotonicClock::new();
    let initial = clock.fallback();

    for _ in 0..10 {
        let _ = clock.next_fallback();
    }

    assert_eq!(clock.fallback(), initial + 10);
}

#[test]
fn test_method_entry_uses_valid_timestamp() {
    let mut registry = MetricsRegistry::new();

    registry.record_method_call("test_method", 100, true);

    let snapshot = registry.snapshot(false);
    assert!(snapshot.methods.contains_key("test_method"));

    let method_metrics = snapshot.methods.get("test_method").unwrap();
    assert_eq!(method_metrics.call_count, 1);
}

#[test]
fn test_node_entry_uses_valid_timestamp() {
    let mut registry = MetricsRegistry::new();

    registry.record_node_request("test_node");

    let snapshot = registry.snapshot(true);
    assert!(snapshot.nodes.is_some());

    let nodes = snapshot.nodes.unwrap();
    assert!(nodes.contains_key("test_node"));

    let node_metrics = nodes.get("test_node").unwrap();
    assert_eq!(node_metrics.request_count, 1);
}

#[test]
fn test_cleanup_stale_entries_handles_edge_cases() {
    let config = MetricsConfig {
        method_ttl_secs: 1,
        node_ttl_secs: 1,
        max_methods: 1000,
        max_nodes: 100,
    };

    let mut registry = MetricsRegistry::with_config(config);

    registry.record_method_call("test_method_1", 100, true);
    registry.record_method_call("test_method_2", 200, true);

    registry.record_node_request("test_node_1");
    registry.record_node_request("test_node_2");

    let snapshot = registry.snapshot(true);
    assert_eq!(snapshot.methods.len(), 2);
    assert!(snapshot.nodes.is_some());
    assert_eq!(snapshot.nodes.unwrap().len(), 2);

    for i in 0..1001 {
        registry.record_method_call(&format!("new_method_{}", i), 100, true);
    }

    let snapshot = registry.snapshot(false);
    assert!(snapshot.methods.len() > 0);
}

#[test]
fn test_latency_buffer_count_capping() {
    let mut buffer = LatencyBuffer::new();

    for i in 0..LATENCY_BUFFER_SIZE * 2 {
        buffer.record(i as u64);
    }

    let count = buffer.count();
    assert_eq!(
        count, LATENCY_BUFFER_SIZE as u64,
        "count should be capped at LATENCY_BUFFER_SIZE"
    );
}

#[test]
fn test_latency_buffer_count_increments() {
    let mut buffer = LatencyBuffer::new();

    for i in 0..500 {
        buffer.record(i as u64);
    }

    let count = buffer.count();
    assert_eq!(count, 500, "count should increment until reaching buffer size");
}

#[test]
fn registry_uptime_is_readable() {
    let registry = MetricsRegistry::new();
    let snapshot = registry.snapshot(false);
    assert!(snapshot.uptime_ms < 60_000);
}

#[test]
fn registry_snapshot_at_reports_given_uptime() {
    let mut registry = MetricsRegistry::new();
    registry.record_method_call("m", 10, true);
    let snapshot = registry.snapshot_at(true, 1234);
    assert_eq!(snapshot.uptime_ms, 1234);
    assert_eq!(snapshot.methods.len(), 1);
    assert_eq!(snapshot.nodes.unwrap().len(), 0);
}

#[test]
fn registry_decrement_below_zero_wraps() {
    let mut registry = MetricsRegistry::new();
    registry.decrement_active_connections();
    assert_eq!(registry.snapshot(false).active_connections, u64::MAX);
}

#[test]
fn latency_percentiles_of_known_samples() {
    let mut buffer = LatencyBuffer::new();
    for v in [10u64, 20, 30, 40] {
        buffer.record(v);
    }
    let (avg, p50, p95, p99) = buffer.calculate_percentiles();
    assert_eq!(avg, 25);
    assert_eq!(p50, 30);
    assert_eq!(p95, 40);
    assert_eq!(p99, 40);
}

#[test]
fn latency_percentiles_ignore_zero_samples() {
    let buffer = LatencyBuffer::new();
    assert_eq!(buffer.calculate_percentiles(), (0, 0, 0, 0));
}

#[test]
fn monotonic_clock_strictly_increases() {
    let mut clock = MonotonicClock::new();
    let a = madrpc::clock::get_monotonic_timestamp(&mut clock);
    let b = madrpc::clock::get_monotonic_timestamp(&mut clock);
    let c = clock.advance(None);
    assert!(a < b);
    assert!(b < c);
}

#[test]
fn monotonic_clock_never_goes_back() {
    let mut clock = MonotonicClock::new();
    let a = clock.advance(Some(5000));
    let b = clock.advance(Some(1000));
    assert_eq!(a, 5000);
    assert_eq!(b, 5001);
}
