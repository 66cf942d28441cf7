//! Typed values answered by the built-in procedures `_metrics`, `_info` and `_health`.

use vstd::prelude::*;
use crate::named_map::NamedMap;

verus! {

/// The version every server reports.
pub const VERSION: &'static str = "0.1.0";

/// Type of MaDRPC server: a compute node or an orchestrator.
#[derive(Debug, Clone, Copy, PartialEq, Eq, Structural)]
pub enum ServerType {
    /// A compute node that executes JavaScript functions
    Node,
    /// An orchestrator that load balances requests across nodes
    Orchestrator,
}

/// Answer of the `_health` endpoint.
#[derive(Debug, Clone)]
pub struct HealthResponse {
    /// Always "healthy" when the endpoint responds
    pub status: String,
}

impl HealthResponse {
    /// A healthy response.
    pub fn healthy() -> (r: Self)
        ensures
            r.status@ == "healthy"@,
    {
        HealthResponse { status: "healthy".to_owned() }
    }
}

/// Performance metrics for one RPC method.
#[derive(Debug, Clone, Copy, PartialEq, Eq, Structural)]
pub struct MethodMetrics {
    /// Total number of calls
    pub call_count: u64,
    /// Number of successful calls
    pub success_count: u64,
    /// Number of failed calls
    pub failure_count: u64,
    /// Average latency in microseconds
    pub avg_latency_us: u64,
    /// Median latency in microseconds
    pub p50_latency_us: u64,
    /// 95th percentile latency in microseconds
    pub p95_latency_us: u64,
    /// 99th percentile latency in microseconds
    pub p99_latency_us: u64,
}

impl MethodMetrics {
    /// The metrics with all counters and latencies zero.
    pub open spec fn new_spec() -> MethodMetrics {
        MethodMetrics {
            call_count: 0,
            success_count: 0,
            failure_count: 0,
            avg_latency_us: 0,
            p50_latency_us: 0,
            p95_latency_us: 0,
            p99_latency_us: 0,
        }
    }

    /// All counters and latencies zero.
    pub fn new() -> (m: Self)
        ensures
            m == Self::new_spec(),
    {
        MethodMetrics {
            call_count: 0,
            success_count: 0,
            failure_count: 0,
            avg_latency_us: 0,
            p50_latency_us: 0,
            p95_latency_us: 0,
            p99_latency_us: 0,
        }
    }
}

impl Default for MethodMetrics {
    /// All counters and latencies zero.
    fn default() -> (m: Self)
        ensures
            m == MethodMetrics::new_spec(),
    {
        MethodMetrics::new()
    }
}

/// Requests an orchestrator forwarded to one node.
#[derive(Debug, Clone)]
pub struct NodeMetrics {
    /// The address of the node
    pub node_addr: String,
    /// Total number of requests forwarded to this node
    pub request_count: u64,
    /// Timestamp (ms) of the last request to this node
    pub last_request_ms: u64,
}

impl NodeMetrics {
    /// Metrics of a node that has received nothing yet.
    pub fn new(node_addr: String) -> (m: Self)
        ensures
            m.node_addr == node_addr,
            m.request_count == 0,
            m.last_request_ms == 0,
    {
        NodeMetrics { node_addr, request_count: 0, last_request_ms: 0 }
    }
}

/// All metrics at a point in time.
#[derive(Debug, Clone)]
pub struct MetricsSnapshot {
    /// Total number of RPC requests processed
    pub total_requests: u64,
    /// Number of successfully completed requests
    pub successful_requests: u64,
    /// Number of failed requests
    pub failed_requests: u64,
    /// Current number of active connections
    pub active_connections: u64,
    /// Server uptime in milliseconds
    pub uptime_ms: u64,
    /// Per-method metrics keyed by method name
    pub methods: NamedMap<MethodMetrics>,
    /// Per-node metrics (orchestrators only)
    pub nodes: Option<NamedMap<NodeMetrics>>,
}

impl MetricsSnapshot {
    /// An empty snapshot; the node table is present iff `include_nodes`.
    pub fn new(uptime_ms: u64, include_nodes: bool) -> (s: Self)
        ensures
            s.total_requests == 0,
            s.successful_requests == 0,
            s.failed_requests == 0,
            s.active_connections == 0,
            s.uptime_ms == uptime_ms,
            s.methods.wf(),
            s.methods.entries().len() == 0,
            s.nodes is Some == include_nodes,
            s.nodes matches Some(n) ==> n.wf() && n.entries().len() == 0,
    {
        MetricsSnapshot {
            total_requests: 0,
            successful_requests: 0,
            failed_requests: 0,
            active_connections: 0,
            uptime_ms,
            methods: NamedMap::new(),
            nodes: if include_nodes { Some(NamedMap::new()) } else { None },
        }
    }
}

/// Base server information shared by nodes and orchestrators.
#[derive(Debug, Clone)]
pub struct ServerBase {
    /// The type of server
    pub server_type: ServerType,
    /// Version string
    pub version: String,
    /// Uptime in milliseconds
    pub uptime_ms: u64,
}

impl ServerBase {
    /// Server information with the current version.
    pub fn new(server_type: ServerType, uptime_ms: u64) -> (b: Self)
        ensures
            b.server_type == server_type,
            b.version@ == VERSION@,
            b.uptime_ms == uptime_ms,
    {
        ServerBase { server_type, version: VERSION.to_owned(), uptime_ms }
    }
}

/// Legacy name of `ServerBase`.
pub type ServerInfo = ServerBase;

/// Node info returned by `_info` on nodes.
#[derive(Debug, Clone)]
pub struct NodeInfo {
    /// Version string
    pub version: String,
    /// Uptime in milliseconds
    pub uptime_ms: u64,
}

impl NodeInfo {
    /// Node information with the current version.
    pub fn new(uptime_ms: u64) -> (i: Self)
        ensures
            i.version@ == VERSION@,
            i.uptime_ms == uptime_ms,
    {
        NodeInfo { version: VERSION.to_owned(), uptime_ms }
    }
}

/// One node of an orchestrator's pool, as `_info` reports it.
#[derive(Debug, Clone)]
pub struct OrchestratorNodeInfo {
    /// The address of the node
    pub addr: String,
    /// Whether the node is enabled for routing
    pub enabled: bool,
    /// Why the node is disabled, if it is
    pub disable_reason: Option<String>,
    /// Current circuit breaker state
    pub circuit_state: String,
    /// Number of consecutive failures
    pub consecutive_failures: u32,
}

/// Orchestrator info returned by `_info` on orchestrators.
#[derive(Debug, Clone)]
pub struct OrchestratorInfo {
    /// Version string
    pub version: String,
    /// Uptime in milliseconds
    pub uptime_ms: u64,
    /// Number of nodes in the pool
    pub total_nodes: usize,
    /// Number of enabled nodes
    pub enabled_nodes: usize,
    /// Number of disabled nodes
    pub disabled_nodes: usize,
    /// Each node of the pool
    pub nodes: Vec<OrchestratorNodeInfo>,
}

impl OrchestratorInfo {
    /// Orchestrator information with an empty pool.
    pub fn new(uptime_ms: u64) -> (i: Self)
        ensures
            i.version@ == VERSION@,
            i.uptime_ms == uptime_ms,
            i.total_nodes == 0,
            i.enabled_nodes == 0,
            i.disabled_nodes == 0,
            i.nodes@.len() == 0,
    {
        OrchestratorInfo {
            version: VERSION.to_owned(),
            uptime_ms,
            total_nodes: 0,
            enabled_nodes: 0,
            disabled_nodes: 0,
            nodes: Vec::new(),
        }
    }
}

/// `_info` answer: node or orchestrator variant.
#[derive(Debug, Clone)]
pub enum InfoResponse {
    /// Returned by compute nodes
    Node(NodeInfo),
    /// Returned by orchestrators
    Orchestrator(OrchestratorInfo),
}

/// Alias of the `_metrics` answer.
pub type MetricsResponse = MetricsSnapshot;

} // verus!
