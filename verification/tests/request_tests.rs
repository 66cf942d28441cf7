use madrpc::collector::{MetricsCollector, MetricsReply, NodeMetricsCollector};
use madrpc::builtin::ServerType;
use madrpc::error::MadrpcError;
use madrpc::orchestrator::is_retryable_static;
use madrpc::protocol::{
    JsonRpcError, JsonRpcResponse, Request, RequestIdGenerator, Response, REQUEST_TOO_LARGE,
};
use madrpc::transport::HttpTransport;
use serde_json::Value;
use std::collections::HashSet;

fn object(entries: &[(&str, Value)]) -> Value {
    let mut map = serde_json::Map::new();
    for (k, v) in entries {
        map.insert(k.to_string(), v.clone());
    }
    Value::Object(map)
}

fn empty_object() -> Value {
    Value::Object(serde_json::Map::new())
}

#[test]
fn test_madrpc_error_is_retryable() {
    assert!(MadrpcError::Transport("test".to_string()).is_retryable());
    assert!(MadrpcError::Timeout(1000).is_retryable());
    assert!(MadrpcError::NodeUnavailable("test".to_string()).is_retryable());
    assert!(MadrpcError::Connection("test".to_string()).is_retryable());
    assert!(MadrpcError::Io("test".to_string()).is_retryable());

    assert!(!MadrpcError::JavaScriptExecution("test".to_string()).is_retryable());
    assert!(!MadrpcError::InvalidResponse("test".to_string()).is_retryable());
    assert!(!MadrpcError::InvalidRequest("test".to_string()).is_retryable());
    assert!(!MadrpcError::AllNodesFailed.is_retryable());
}

#[test]
fn test_pool_timeout_error() {
    let error = MadrpcError::PoolTimeout(5000);
    assert_eq!(error.message(), "Pool acquisition timeout after 5000ms");
    assert!(error.is_retryable());
}

#[test]
fn test_pool_exhausted_error() {
    let error = MadrpcError::PoolExhausted("localhost:8080".to_string());
    assert_eq!(error.message(), "Connection pool exhausted for localhost:8080");
    assert!(!error.is_retryable());
}

#[test]
fn test_pool_timeout_is_retryable() {
    let error = MadrpcError::PoolTimeout(1000);
    assert!(error.is_retryable());
}

#[test]
fn test_jsonrpc_response_success() {
    let result = object(&[("result", Value::from(42u64))]);
    let res = JsonRpcResponse::success(Value::from(1u64), result.clone());
    assert_eq!(res.result, Some(result));
    assert!(res.error.is_none());
    assert_eq!(res.jsonrpc, "2.0");
    assert_eq!(res.id, Value::from(1u64));
}

#[test]
fn test_jsonrpc_response_error() {
    let err = JsonRpcError::method_not_found();
    let res = JsonRpcResponse::error(Value::from(1u64), err);
    assert_eq!(res.result, None);
    assert!(res.error.is_some());
    assert_eq!(res.jsonrpc, "2.0");
    assert_eq!(res.id, Value::from(1u64));
}

#[test]
fn test_jsonrpc_error_codes() {
    assert_eq!(JsonRpcError::parse_error().code, -32700);
    assert_eq!(JsonRpcError::invalid_request().code, -32600);
    assert_eq!(JsonRpcError::method_not_found().code, -32601);
    assert_eq!(JsonRpcError::invalid_params("test").code, -32602);
    assert_eq!(JsonRpcError::internal_error("test").code, -32603);
    assert_eq!(JsonRpcError::server_error("test").code, -32000);
}

#[test]
fn test_jsonrpc_error_messages() {
    assert_eq!(JsonRpcError::parse_error().message, "Parse error");
    assert_eq!(JsonRpcError::invalid_request().message, "Invalid Request");
    assert_eq!(JsonRpcError::method_not_found().message, "Method not found");
    assert_eq!(JsonRpcError::invalid_params("bad params").message, "bad params");
    assert_eq!(JsonRpcError::internal_error("oops").message, "oops");
    assert_eq!(JsonRpcError::server_error("server error").message, "server error");
}

#[test]
fn test_request_too_large_error() {
    let error = JsonRpcError::request_too_large(1024);
    assert_eq!(error.code, REQUEST_TOO_LARGE);
    assert_eq!(error.code, -32001);
    assert!(error.message.contains("1024"));
    assert!(error.message.contains("too large"));
    assert_eq!(error.data, None);
}

#[test]
fn requests_test_request_creation() {
    let mut ids = RequestIdGenerator::new();
    let args = object(&[("arg", Value::from(42u64))]);
    let req = Request::new("test_method", args.clone(), &mut ids);
    assert_eq!(req.method, "test_method");
    assert_eq!(req.args, args);
    assert!(req.timeout_ms.is_none());
    assert!(req.idempotency_key.is_none());
}

#[test]
fn requests_test_request_with_timeout() {
    let mut ids = RequestIdGenerator::new();
    let req = Request::new("test", empty_object(), &mut ids).with_timeout(5000);
    assert_eq!(req.timeout_ms, Some(5000));
}

#[test]
fn test_request_with_idempotency_key() {
    let mut ids = RequestIdGenerator::new();
    let req = Request::new("test", empty_object(), &mut ids).with_idempotency_key("unique-key-123");
    assert_eq!(req.idempotency_key, Some("unique-key-123".to_string()));
}

#[test]
fn test_request_with_timeout_and_idempotency() {
    let mut ids = RequestIdGenerator::new();
    let req = Request::new("test", empty_object(), &mut ids)
        .with_timeout(3000)
        .with_idempotency_key("key-456");
    assert_eq!(req.timeout_ms, Some(3000));
    assert_eq!(req.idempotency_key, Some("key-456".to_string()));
}

#[test]
fn requests_test_request_id_uniqueness() {
    let mut ids = RequestIdGenerator::new();
    let req1 = Request::new("test1", empty_object(), &mut ids);
    let req2 = Request::new("test2", empty_object(), &mut ids);
    assert_ne!(req1.id, req2.id);
}

#[test]
fn tests_test_request_creation() {
    let mut ids = RequestIdGenerator::new();
    let args = object(&[("arg", Value::from(42u64))]);
    let req = Request::new("test_method", args.clone(), &mut ids);
    assert_eq!(req.method, "test_method");
    assert_eq!(req.args, args);
    assert!(req.timeout_ms.is_none());
}

#[test]
fn tests_test_request_with_timeout() {
    let mut ids = RequestIdGenerator::new();
    let req = Request::new("test", empty_object(), &mut ids).with_timeout(5000);
    assert_eq!(req.timeout_ms, Some(5000));
}

#[test]
fn tests_test_request_id_uniqueness() {
    let mut ids = RequestIdGenerator::new();
    let mut seen = HashSet::new();
    for _ in 0..1000 {
        seen.insert(Request::new("test", empty_object(), &mut ids).id);
    }
    assert_eq!(seen.len(), 1000, "All request IDs should be unique");
}

#[test]
fn test_response_success() {
    let result = object(&[("result", Value::from("ok"))]);
    let resp = Response::success(123, result.clone());
    assert!(resp.success);
    assert_eq!(resp.id, 123);
    assert_eq!(resp.result, Some(result));
    assert!(resp.error.is_none());
}

#[test]
fn test_response_error() {
    let resp = Response::error(456, "something failed");
    assert!(!resp.success);
    assert_eq!(resp.id, 456);
    assert_eq!(resp.error, Some("something failed".to_string()));
    assert!(resp.result.is_none());
}

#[test]
fn test_request_id_monotonicity() {
    let mut ids = RequestIdGenerator::new();
    let mut prev_id = Request::new("test", empty_object(), &mut ids).id;
    for _ in 0..1000 {
        let id = Request::new("test", empty_object(), &mut ids).id;
        assert!(id >= prev_id || id < 1000, "ID went backward significantly: {} -> {}", prev_id, id);
        prev_id = id;
    }
}

#[test]
fn tests_test_request_id_structure() {
    let mut ids = RequestIdGenerator::new();
    let id = Request::new("test", empty_object(), &mut ids).id;
    let lower = id & 0xFFFFFFFF;
    assert!(lower < 1_000_000, "Lower 32 bits should be counter: {}", lower);
    assert!(id > 0, "ID should be non-zero");
}

#[test]
fn test_build_request() {
    let params = object(&[("n", Value::from(100u64))]);
    let request = HttpTransport::build_request("compute", params.clone(), Value::from(1u64));
    assert_eq!(request.jsonrpc, "2.0");
    assert_eq!(request.method, "compute");
    assert_eq!(request.params, params);
    assert_eq!(request.id, Value::from(1u64));
}

#[test]
fn test_node_metrics_collector() {
    let collector = NodeMetricsCollector::new();

    assert!(collector.is_metrics_request("_metrics"));
    assert!(collector.is_metrics_request("_info"));
    assert!(!collector.is_metrics_request("other"));

    let snapshot = collector.snapshot();
    assert_eq!(snapshot.total_requests, 0);
    assert!(snapshot.nodes.is_none());

    match collector.metrics_reply("_info") {
        MetricsReply::Info(info) => assert_eq!(info.server_type, ServerType::Node),
        other => panic!("unexpected {:?}", other),
    }
}

#[test]
fn test_is_retryable_error() {
    assert!(is_retryable_static(&MadrpcError::AllNodesFailed));
    assert!(is_retryable_static(&MadrpcError::NodeUnavailable("test".to_string())));

    assert!(!is_retryable_static(&MadrpcError::InvalidRequest("test".to_string())));
    assert!(!is_retryable_static(&MadrpcError::JavaScriptExecution("test".to_string())));
    assert!(!is_retryable_static(&MadrpcError::Transport("test".to_string())));
}
