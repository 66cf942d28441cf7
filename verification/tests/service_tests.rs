use madrpc::admission::{admit_request, route_of, rpc_reply, unauthorized_body, Admission, Route};
use madrpc::auth::AuthConfig;
use madrpc::builtin::{MethodMetrics, NodeMetrics, ServerBase, ServerType};
use madrpc::cli::{
    format_duration_ms, format_latency_below_second, last_request_text, sort_by_count_desc, uptime_text,
    validate_http_url, FetchOutcome,
    TopApp,
};
use madrpc::client::{
    body_read_error, build_call_request, classify_rpc_error, exhausted_error, http_status_error,
    invalid_http_request_error, request_failed_error, response_outcome, retry_decision, unparsable_response_error,
    CallDecision, RequestCounter,
};
use madrpc::collector::{MetricsCollector, MetricsReply, NodeMetricsCollector, OrchestratorMetricsCollector};
use madrpc::error::MadrpcError;
use madrpc::health::{health_check_url, health_status_result, HealthCheckConfig, HealthCheckUpdate, HealthChecker};
use madrpc::load_balancer::LoadBalancer;
use madrpc::node::{DisableReason, HealthCheckStatus, Node};
use madrpc::orchestrator::{is_retryable_static, next_backoff_ms, node_base_url, ForwardOutcome, Orchestrator, RetryConfig};
use madrpc::pool::{AcquireStep, PoolConfig, PoolState};
use madrpc::protocol::{JsonRpcError, JsonRpcResponse};
use madrpc::rate_limit::{cleanup_due, BucketTable, RateLimitResult};
use madrpc::registry::MetricsRegistry;
use serde_json::Value;
use std::time::{Duration, Instant};

#[test]
fn test_orchestrator_metrics_collector() {
    let mut collector = OrchestratorMetricsCollector::new();

    assert!(collector.is_metrics_request("_metrics"));
    assert!(collector.is_metrics_request("_info"));
    assert!(!collector.is_metrics_request("other"));

    let snapshot = collector.snapshot();
    assert_eq!(snapshot.total_requests, 0);
    assert!(snapshot.nodes.is_some());

    collector.record_node_request("node1");
    collector.record_node_request("node1");
    collector.record_node_request("node2");

    let snapshot = collector.snapshot();
    assert_eq!(snapshot.nodes.as_ref().unwrap().len(), 2);
    assert_eq!(snapshot.nodes.as_ref().unwrap().get("node1").unwrap().request_count, 2);
}

#[test]
fn node_metrics_collector_replies() {
    let mut collector = NodeMetricsCollector::new();
    assert!(collector.is_metrics_request("_metrics"));
    assert!(!collector.is_metrics_request("other"));
    assert!(collector.snapshot().nodes.is_none());
    match collector.metrics_reply("_info") {
        MetricsReply::Info(info) => assert_eq!(info.server_type, ServerType::Node),
        other => panic!("unexpected {:?}", other),
    }
    collector.record_call("compute", Instant::now(), true);
    match collector.metrics_reply("_metrics") {
        MetricsReply::Metrics(s) => {
            assert_eq!(s.total_requests, 1);
            assert_eq!(s.methods.get("compute").unwrap().call_count, 1);
        }
        other => panic!("unexpected {:?}", other),
    }
}

#[test]
fn collectors_over_given_registry() {
    let mut registry = MetricsRegistry::new();
    registry.increment_total();
    let collector = OrchestratorMetricsCollector::with_registry(registry);
    assert_eq!(collector.snapshot().total_requests, 1);
    match collector.metrics_reply("_info") {
        MetricsReply::Info(info) => assert_eq!(info.server_type, ServerType::Orchestrator),
        other => panic!("unexpected {:?}", other),
    }
}

#[test]
fn test_health_check_config_default() {
    let config = HealthCheckConfig::default();
    assert_eq!(config.interval, Duration::from_secs(5));
    assert_eq!(config.timeout, Duration::from_millis(2000));
    assert_eq!(config.failure_threshold, 3);
}

#[test]
fn test_health_check_config_custom() {
    let config = HealthCheckConfig {
        interval: Duration::from_secs(10),
        timeout: Duration::from_millis(5000),
        failure_threshold: 5,
    };
    assert_eq!(config.interval, Duration::from_secs(10));
    assert_eq!(config.timeout, Duration::from_millis(5000));
    assert_eq!(config.failure_threshold, 5);
}

#[test]
fn test_health_check_update_healthy() {
    let mut lb = LoadBalancer::new(vec!["node1".to_string()]);
    lb.auto_disable_node("node1");
    let update = HealthCheckUpdate {
        node_addr: "node1".to_string(),
        status: HealthCheckStatus::Healthy,
        should_enable: true,
        should_disable: false,
    };
    let checker = HealthChecker::new(HealthCheckConfig::default()).unwrap();
    checker.apply_health_update(&mut lb, update);
    assert!(lb.enabled_nodes().contains(&"node1".to_string()));
}

#[test]
fn test_health_check_update_unhealthy_threshold() {
    let mut lb = LoadBalancer::new(vec!["node1".to_string()]);
    let checker = HealthChecker::new(HealthCheckConfig { failure_threshold: 3, ..Default::default() }).unwrap();
    for _ in 0..3 {
        let update = HealthCheckUpdate {
            node_addr: "node1".to_string(),
            status: HealthCheckStatus::Unhealthy("connection refused".to_string()),
            should_enable: false,
            should_disable: true,
        };
        checker.apply_health_update(&mut lb, update);
    }
    assert!(!lb.enabled_nodes().contains(&"node1".to_string()));
}

#[test]
fn test_health_check_respects_manual_disable() {
    let mut lb = LoadBalancer::new(vec!["node1".to_string()]);
    lb.disable_node("node1");
    let checker = HealthChecker::new(HealthCheckConfig::default()).unwrap();
    let update = HealthCheckUpdate {
        node_addr: "node1".to_string(),
        status: HealthCheckStatus::Healthy,
        should_enable: true,
        should_disable: false,
    };
    checker.apply_health_update(&mut lb, update);
    assert!(!lb.enabled_nodes().contains(&"node1".to_string()));
}

#[test]
fn process_health_result_decisions() {
    let lb = LoadBalancer::new(vec!["node1".to_string()]);
    let checker = HealthChecker::new(HealthCheckConfig { failure_threshold: 1, ..Default::default() }).unwrap();
    let node = Node::new("node1".to_string());
    let u = checker.process_health_result(&lb, &node, Err(MadrpcError::Timeout(2000)));
    assert!(u.should_disable);
    assert!(!u.should_enable);
    assert_eq!(u.status, HealthCheckStatus::Unhealthy("Request timeout after 2000ms".to_string()));

    let mut disabled = Node::new("node1".to_string());
    disabled.enabled = false;
    disabled.disable_reason = Some(DisableReason::HealthCheck);
    let u = checker.process_health_result(&lb, &disabled, Ok(()));
    assert!(u.should_enable);
    assert_eq!(u.status, HealthCheckStatus::Healthy);

    let mut manual = Node::new("node1".to_string());
    manual.enabled = false;
    manual.disable_reason = Some(DisableReason::Manual);
    let u = checker.process_health_result(&lb, &manual, Ok(()));
    assert!(!u.should_enable);
}

#[test]
fn test_retry_config_default() {
    let config = RetryConfig::default();
    assert_eq!(config.max_retries, 3);
    assert_eq!(config.initial_backoff_ms, 50);
    assert_eq!(config.max_backoff_ms, 5000);
    assert_eq!(config.backoff_multiplier as f64, 2.0);
}

#[test]
fn test_exponential_backoff_calculation() {
    let config = RetryConfig::default();
    let mut backoff_ms = config.initial_backoff_ms;
    let expected = [50, 100, 200, 400, 800, 1600, 3200, 5000];
    for expected_ms in expected {
        assert_eq!(backoff_ms, expected_ms);
        backoff_ms = next_backoff_ms(&config, backoff_ms);
    }
    for _ in 0..5 {
        assert_eq!(backoff_ms, config.max_backoff_ms);
        backoff_ms = next_backoff_ms(&config, backoff_ms);
    }
}

#[test]
fn backoff_saturates_instead_of_overflowing() {
    let config = RetryConfig { max_retries: 1, initial_backoff_ms: u64::MAX, max_backoff_ms: 7, backoff_multiplier: 3 };
    assert_eq!(next_backoff_ms(&config, u64::MAX), 7);
}

#[test]
fn test_orchestrator_node_management() {
    let mut orch = Orchestrator::new(vec!["a".to_string(), "b".to_string(), "c".to_string()]).unwrap();
    assert_eq!(orch.node_count(), 3);
    orch.add_node("a".to_string());
    assert_eq!(orch.node_count(), 3);
    orch.add_node("d".to_string());
    assert_eq!(orch.node_count(), 4);
    orch.remove_node("a");
    assert_eq!(orch.node_count(), 3);
    assert!(orch.disable_node("b"));
    let nodes = orch.nodes_with_status();
    let b = nodes.iter().find(|n| n.addr == "b").unwrap();
    assert!(!b.enabled);
    assert!(orch.enable_node("b"));
    let mut names = orch.nodes();
    names.sort();
    assert_eq!(names, vec!["b".to_string(), "c".to_string(), "d".to_string()]);
}

#[test]
fn orchestrator_info_reports_pool() {
    let mut orch = Orchestrator::new(vec!["n1".to_string(), "n2".to_string(), "n3".to_string()]).unwrap();
    orch.disable_node("n2");
    match orch.get_info().unwrap() {
        madrpc::builtin::InfoResponse::Orchestrator(info) => {
            assert_eq!(info.total_nodes, 3);
            assert_eq!(info.enabled_nodes, 2);
            assert_eq!(info.disabled_nodes, 1);
            assert_eq!(info.nodes[1].disable_reason, Some("Manual".to_string()));
            assert_eq!(info.nodes[0].circuit_state, "Closed");
        }
        other => panic!("unexpected {:?}", other),
    }
}

#[test]
fn forward_retries_only_orchestrator_failures() {
    assert!(is_retryable_static(&MadrpcError::AllNodesFailed));
    assert!(is_retryable_static(&MadrpcError::NodeUnavailable("x".to_string())));
    assert!(!is_retryable_static(&MadrpcError::Transport("x".to_string())));

    let mut orch = Orchestrator::new(vec![]).unwrap();
    let mut state = orch.begin_forward();
    match orch.select_node(&state) {
        Err(MadrpcError::NodeUnavailable(m)) => assert_eq!(m, "No available nodes (attempt 1/4)"),
        other => panic!("unexpected {:?}", other),
    }
    let out = orch.finish_attempt(&mut state, "m", Instant::now(), Err(MadrpcError::NodeUnavailable("n".to_string())));
    assert!(matches!(out, ForwardOutcome::Retry(50)));
    assert_eq!(state.attempt, 1);
    assert_eq!(state.backoff_ms, 100);
    let out = orch.finish_attempt(&mut state, "m", Instant::now(), Err(MadrpcError::Transport("t".to_string())));
    assert!(matches!(out, ForwardOutcome::Done(Err(MadrpcError::Transport(_)))));
    state.attempt = 3;
    assert!(matches!(orch.select_node(&state), Err(MadrpcError::AllNodesFailed)));
}

#[test]
fn forward_success_records_the_call() {
    let mut orch = Orchestrator::new(vec!["n1".to_string()]).unwrap();
    let mut state = orch.begin_forward();
    assert_eq!(orch.select_node(&state).unwrap(), "n1");
    let out = orch.finish_attempt(&mut state, "compute", Instant::now(), Ok(Value::from(3u64)));
    assert!(matches!(out, ForwardOutcome::Done(Ok(_))));
    let snap = orch.get_metrics().unwrap();
    assert_eq!(snap.total_requests, 1);
    assert_eq!(snap.nodes.unwrap().get("n1").unwrap().request_count, 1);
    assert!(orch.builtin_reply("_metrics").is_some());
    assert!(orch.builtin_reply("compute").is_none());
}

#[test]
fn orchestrator_health_round() {
    let mut orch = Orchestrator::new(vec!["n1".to_string()]).unwrap();
    let nodes = orch.begin_health_round();
    assert_eq!(nodes.len(), 1);
    for _ in 0..3 {
        orch.record_health_result(&nodes[0], Err(MadrpcError::Timeout(2000)));
    }
    let after = orch.nodes_with_status();
    assert!(!after[0].enabled);
    assert_eq!(after[0].disable_reason, Some(DisableReason::HealthCheck));
    orch.record_health_result(&after[0], Ok(()));
    assert!(orch.nodes_with_status()[0].enabled);
}

#[test]
fn client_request_ids_count_up() {
    let mut c = RequestCounter::new();
    assert_eq!(c.next_id(), 0);
    assert_eq!(c.next_id(), 1);
    let req = build_call_request("m", Value::from(1u64), 9);
    assert_eq!(req.id, Value::from(9u64));
    assert_eq!(req.method, "m");
}

#[test]
fn rpc_error_classification() {
    assert_eq!(classify_rpc_error(-32000, "node timeout"), MadrpcError::NodeUnavailable("node timeout".to_string()));
    assert_eq!(classify_rpc_error(-32000, "service unavailable"), MadrpcError::NodeUnavailable("service unavailable".to_string()));
    assert_eq!(classify_rpc_error(-32000, "boom"), MadrpcError::JavaScriptExecution("boom".to_string()));
    assert_eq!(classify_rpc_error(-32601, "Method not found"), MadrpcError::JavaScriptExecution("Method not found".to_string()));
    assert_eq!(classify_rpc_error(5, "x"), MadrpcError::JavaScriptExecution("x".to_string()));
}

#[test]
fn http_status_classification() {
    assert_eq!(http_status_error(200, "200 OK"), None);
    assert_eq!(http_status_error(503, "503 Service Unavailable"), Some(MadrpcError::Transport("HTTP error: 503 Service Unavailable".to_string())));
    assert_eq!(http_status_error(404, "404 Not Found"), Some(MadrpcError::InvalidResponse("HTTP error: 404 Not Found".to_string())));
}

#[test]
fn response_outcome_reads_result_or_error() {
    let ok = JsonRpcResponse::success(Value::from(1u64), Value::from(5u64));
    assert_eq!(response_outcome(ok).unwrap(), Value::from(5u64));
    let err = JsonRpcResponse::error(Value::from(1u64), JsonRpcError::server_error("timeout"));
    assert_eq!(response_outcome(err), Err(MadrpcError::NodeUnavailable("timeout".to_string())));
    let empty = JsonRpcResponse { jsonrpc: "2.0".to_string(), result: None, error: None, id: Value::Null };
    assert_eq!(response_outcome(empty).unwrap(), Value::Null);
}

#[test]
fn client_retry_decisions() {
    assert!(matches!(retry_decision(1, 3, Ok(Value::Null)), CallDecision::Return(Ok(_))));
    assert!(matches!(retry_decision(1, 3, Err(MadrpcError::Timeout(1))), CallDecision::Retry(1)));
    assert!(matches!(retry_decision(3, 3, Err(MadrpcError::Timeout(1))), CallDecision::Return(Err(MadrpcError::Timeout(1)))));
    assert!(matches!(retry_decision(1, 3, Err(MadrpcError::InvalidRequest("x".to_string()))), CallDecision::Return(Err(_))));
    assert_eq!(exhausted_error(), MadrpcError::InvalidResponse("All retry attempts exhausted".to_string()));
}

#[test]
fn pool_config_defaults() {
    let config = PoolConfig::default();
    assert_eq!(config.max_connections, 10);
    assert_eq!(config.acquire_timeout_ms, 30000);
}

#[test]
fn pool_bookkeeping() {
    let mut pool: PoolState<u32> = PoolState::new(PoolConfig { max_connections: 1, acquire_timeout_ms: 100 });
    assert!(matches!(pool.acquire_step("a"), AcquireStep::Connect));
    pool.register("a", 7);
    assert_eq!(pool.connection_count("a"), 1);
    assert_eq!(pool.available_count("a"), Some(0));
    assert!(matches!(pool.acquire_step("a"), AcquireStep::Wait));
    pool.release("a");
    assert_eq!(pool.available_count("a"), Some(1));
    assert!(matches!(pool.acquire_step("a"), AcquireStep::Reuse(7)));
    assert_eq!(pool.connection_count("a"), 0);
    assert!(matches!(pool.acquire_step("a"), AcquireStep::Connect));
    assert_eq!(pool.available_count("a"), Some(0));
    assert_eq!(pool.timeout_error(), MadrpcError::PoolTimeout(100));
}

#[test]
fn admission_checks() {
    let auth = AuthConfig::with_api_key("k");
    assert_eq!(admit_request(&auth, None, None), Admission::Unauthorized);
    assert_eq!(admit_request(&auth, Some("bad"), None), Admission::Unauthorized);
    assert_eq!(admit_request(&auth, Some("k"), Some("text/plain")), Admission::UnsupportedMediaType);
    assert_eq!(admit_request(&auth, Some("k"), Some("application/json; charset=utf-8")), Admission::Accept);
    assert_eq!(admit_request(&AuthConfig::disabled(), None, None), Admission::Accept);
    assert!(unauthorized_body().contains("-401"));
}

#[test]
fn rate_limit_result_accessors() {
    assert!(RateLimitResult::Allowed.is_allowed());
    assert_eq!(RateLimitResult::Allowed.retry_after(), None);
    let limited = RateLimitResult::RateLimited { retry_after: Duration::from_millis(10) };
    assert!(!limited.is_allowed());
    assert_eq!(limited.retry_after(), Some(Duration::from_millis(10)));
}

#[test]
fn url_validation() {
    assert!(validate_http_url("http://localhost:8080", "server URL").is_ok());
    assert!(validate_http_url("https://example.com", "server URL").is_ok());
    assert_eq!(
        validate_http_url("localhost:8080", "server URL"),
        Err("Invalid server URL: 'localhost:8080' must start with http:// or https://".to_string())
    );
}

#[test]
fn duration_texts() {
    assert_eq!(format_duration_ms(850), "850ms");
    assert_eq!(format_duration_ms(42_000), "42s");
    assert_eq!(format_duration_ms(200_000), "3m 20s");
    assert_eq!(format_duration_ms(7_500_000), "2h 5m");
    assert_eq!(uptime_text(999), "0s");
    assert_eq!(uptime_text(200_000), "3m 20s");
    assert_eq!(uptime_text(7_500_000), "2h 5m");
    assert_eq!(last_request_text(1000, 0), "Never");
    assert_eq!(last_request_text(5000, 2000), "3s");
    assert_eq!(last_request_text(1000, 2000), "0ms");
}

#[test]
fn table_rows_sorted_by_count() {
    let mut a = NodeMetrics::new("a".to_string());
    a.request_count = 1;
    let mut b = NodeMetrics::new("b".to_string());
    b.request_count = 5;
    let mut c = NodeMetrics::new("c".to_string());
    c.request_count = 3;
    let sorted = sort_by_count_desc(vec![a, b, c]);
    let names: Vec<_> = sorted.iter().map(|n| n.node_addr.clone()).collect();
    assert_eq!(names, vec!["b", "c", "a"]);

    let mut m1 = MethodMetrics::new();
    m1.call_count = 2;
    let mut m2 = MethodMetrics::new();
    m2.call_count = 9;
    let sorted = sort_by_count_desc(vec![("x".to_string(), m1), ("y".to_string(), m2)]);
    assert_eq!(sorted[0].0, "y");
}

#[test]
fn top_app_state() {
    let mut app = TopApp::new("http://localhost:8080".to_string(), 1000);
    assert!(!app.should_quit());
    app.handle_key(Some('x'));
    assert!(!app.should_quit());
    app.on_info(FetchOutcome::CallFailed(MadrpcError::Connection("refused".to_string())));
    assert_eq!(app.error_message().as_deref(), Some("Failed to connect to server: Connection error: refused"));
    app.on_info(FetchOutcome::Fetched(ServerBase::new(ServerType::Orchestrator, 1)));
    assert_eq!(app.server_type(), Some(ServerType::Orchestrator));
    assert!(app.error_message().is_none());
    app.on_metrics(FetchOutcome::ParseFailed("bad json".to_string()));
    assert_eq!(app.error_message().as_deref(), Some("Failed to parse metrics: bad json"));
    app.on_metrics(FetchOutcome::Fetched(madrpc::builtin::MetricsSnapshot::new(5, false)));
    assert!(app.current_metrics().is_some());
    app.handle_key(Some('Q'));
    assert!(app.should_quit());
}

#[test]
fn routing_and_replies() {
    assert_eq!(route_of("_metrics"), Route::Metrics);
    assert_eq!(route_of("_info"), Route::Info);
    assert_eq!(route_of("compute"), Route::Forward);
    let ok = rpc_reply(Value::from(1u64), Ok(Value::from(2u64)));
    assert_eq!(ok.result, Some(Value::from(2u64)));
    let err = rpc_reply(Value::from(1u64), Err(MadrpcError::AllNodesFailed));
    let e = err.error.unwrap();
    assert_eq!(e.code, -32000);
    assert_eq!(e.message, "All nodes failed");
}

#[test]
fn node_and_health_urls() {
    assert_eq!(node_base_url("localhost:9001"), "http://localhost:9001");
    assert_eq!(node_base_url("https://n:1"), "https://n:1");
    assert_eq!(health_check_url("n:1"), "http://n:1/__health");
    assert!(health_status_result(200, "200 OK").is_ok());
    assert_eq!(
        health_status_result(500, "500 Internal Server Error"),
        Err(MadrpcError::NodeUnavailable("Health check returned status: 500 Internal Server Error".to_string()))
    );
}

#[test]
fn orchestrator_info_reports_the_pool() {
    let mut orch = Orchestrator::new(vec!["n1".to_string()]).unwrap();
    match orch.builtin_reply("_info") {
        Some(MetricsReply::Pool(info)) => {
            assert_eq!(info.total_nodes, 1);
            assert_eq!(info.enabled_nodes, 1);
            assert_eq!(info.disabled_nodes, 0);
            assert_eq!(info.nodes.len(), 1);
            assert_eq!(info.nodes[0].addr, "n1");
            assert_eq!(info.nodes[0].circuit_state, "Closed");
        }
        other => panic!("unexpected {:?}", other),
    }
    assert!(orch.disable_node("n1"));
    match orch.builtin_reply("_info") {
        Some(MetricsReply::Pool(info)) => {
            assert_eq!(info.enabled_nodes, 0);
            assert_eq!(info.disabled_nodes, 1);
            assert_eq!(info.nodes[0].disable_reason, Some("Manual".to_string()));
        }
        other => panic!("unexpected {:?}", other),
    }
    match orch.builtin_reply("_metrics") {
        Some(MetricsReply::Metrics(s)) => assert!(s.nodes.is_some()),
        other => panic!("unexpected {:?}", other),
    }
}

#[test]
fn latency_texts_below_one_second() {
    assert_eq!(format_latency_below_second(0), Some("-".to_string()));
    assert_eq!(format_latency_below_second(850), Some("850μs".to_string()));
    assert_eq!(format_latency_below_second(999), Some("999μs".to_string()));
    assert_eq!(format_latency_below_second(1000), Some("1ms".to_string()));
    assert_eq!(format_latency_below_second(42_500), Some("42ms".to_string()));
    assert_eq!(format_latency_below_second(999_999), Some("999ms".to_string()));
    assert_eq!(format_latency_below_second(1_000_000), None);
}

#[test]
fn pool_opens_at_most_max_connections() {
    let mut pool: PoolState<u32> = PoolState::new(PoolConfig { max_connections: 2, acquire_timeout_ms: 100 });
    assert!(matches!(pool.acquire_step("a"), AcquireStep::Connect));
    pool.register("a", 1);
    assert!(matches!(pool.acquire_step("a"), AcquireStep::Connect));
    pool.register("a", 2);
    assert!(matches!(pool.acquire_step("a"), AcquireStep::Wait));
    assert_eq!(pool.connection_count("a"), 2);
    assert!(matches!(pool.acquire_step("b"), AcquireStep::Connect));
}

#[test]
fn client_failure_messages() {
    assert_eq!(
        invalid_http_request_error("bad uri"),
        MadrpcError::InvalidRequest("Invalid HTTP request: bad uri".to_string())
    );
    assert_eq!(
        request_failed_error("connection refused"),
        MadrpcError::Transport("HTTP request failed: connection refused".to_string())
    );
    assert_eq!(
        body_read_error("reset"),
        MadrpcError::Transport("Failed to read response body: reset".to_string())
    );
    assert_eq!(
        unparsable_response_error("EOF"),
        MadrpcError::InvalidResponse("Failed to parse JSON-RPC response: EOF".to_string())
    );
    assert!(request_failed_error("x").is_retryable());
    assert!(!unparsable_response_error("x").is_retryable());
}

#[test]
fn rate_limit_bucket_table() {
    let mut table: BucketTable<u32> = BucketTable::new();
    assert_eq!(table.tracked_count(), 0);
    assert!(table.slot("10.0.0.1").is_none());
    table.store("10.0.0.1", 100, 5);
    table.store("10.0.0.2", 200, 7);
    table.store("10.0.0.1", 300, 4);
    assert_eq!(table.tracked_count(), 2);
    let slot = table.slot("10.0.0.1").unwrap();
    assert_eq!(slot.bucket, 4);
    assert_eq!(slot.last_update_us, 300);
    table.drop_stale(400, 150);
    assert_eq!(table.tracked_count(), 1);
    assert!(table.slot("10.0.0.2").is_none());
    assert_eq!(table.slot("10.0.0.1").unwrap().bucket, 4);
}

#[test]
fn rate_limit_cleanup_schedule() {
    assert!(!cleanup_due(0, 59_999_999, 60_000_000));
    assert!(cleanup_due(0, 60_000_000, 60_000_000));
    assert!(!cleanup_due(10, 5, 1));
    assert!(cleanup_due(10, 5, 0));
}
