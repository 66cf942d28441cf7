//! Metrics collectors of nodes and orchestrators: they answer the built-in
//! `_metrics` and `_info` methods and record every call.

use vstd::prelude::*;
use std::time::Instant;
use crate::builtin::{MetricsSnapshot, OrchestratorInfo, ServerInfo, ServerType, VERSION};
use crate::clock::instant_elapsed_us;
use crate::registry::{
    default_metrics_config, fresh_registry, method_call_applied, node_request_applied, MetricsConfig,
    MetricsRegistry, RegistryView,
};
use crate::text::str_eq;

verus! {

/// The answer of a built-in monitoring method.
#[derive(Debug)]
pub enum MetricsReply {
    /// The answer of `_metrics`
    Metrics(MetricsSnapshot),
    /// The answer of `_info` from a metrics collector alone
    Info(ServerInfo),
    /// The answer of `_info` from an orchestrator, which reports its pool
    Pool(OrchestratorInfo),
}

/// Whether `method` names a built-in monitoring method (`_metrics` or `_info`).
pub open spec fn is_builtin_method(method: Seq<char>) -> bool {
    method == "_metrics"@ || method == "_info"@
}

/// The reply to the built-in method `method` for a server of kind `kind` whose
/// registry is `reg`: `_metrics` gives a snapshot of the registry (with
/// per-node metrics iff `include_nodes`), `_info` the server information.
pub open spec fn reply_matches(
    reg: &MetricsRegistry,
    kind: ServerType,
    include_nodes: bool,
    method: Seq<char>,
    r: MetricsReply,
) -> bool {
    if method == "_metrics"@ {
        r matches MetricsReply::Metrics(s) && reg.snapshot_matches(s, include_nodes, s.uptime_ms)
    } else {
        r matches MetricsReply::Info(i) && i.server_type == kind && i.version@ == VERSION@
    }
}

fn builtin_method(method: &str) -> (r: bool)
    ensures
        r == is_builtin_method(method@),
{
    str_eq(method, "_metrics") || str_eq(method, "_info")
}

fn reply_for(
    reg: &MetricsRegistry,
    kind: ServerType,
    include_nodes: bool,
    method: &str,
) -> (r: MetricsReply)
    requires
        reg.wf(),
        is_builtin_method(method@),
    ensures
        reply_matches(reg, kind, include_nodes, method@, r),
{
    if str_eq(method, "_metrics") {
        MetricsReply::Metrics(reg.snapshot(include_nodes))
    } else {
        MetricsReply::Info(ServerInfo::new(kind, reg.uptime_ms()))
    }
}

/// Metrics collector of a compute node: method metrics only.
#[derive(Debug)]
pub struct NodeMetricsCollector {
    registry: MetricsRegistry,
}

impl NodeMetricsCollector {
    /// The underlying registry.
    pub closed spec fn registry_spec(&self) -> MetricsRegistry {
        self.registry
    }

    /// The abstract state of the underlying registry.
    pub open spec fn registry_view(&self) -> RegistryView {
        self.registry_spec()@
    }

    /// The underlying registry is well formed.
    pub open spec fn wf(&self) -> bool {
        self.registry_spec().wf()
    }

    /// A collector over a fresh registry with the default configuration.
    pub fn new() -> (c: Self)
        ensures
            c.wf(),
            fresh_registry(c.registry_view(), default_metrics_config()),
    {
        NodeMetricsCollector { registry: MetricsRegistry::new() }
    }

    /// A collector over a fresh registry with `config`.
    pub fn with_config(config: MetricsConfig) -> (c: Self)
        requires
            config.wf(),
        ensures
            c.wf(),
            fresh_registry(c.registry_view(), config),
    {
        NodeMetricsCollector { registry: MetricsRegistry::with_config(config) }
    }

    /// A collector over the given registry.
    pub fn with_registry(registry: MetricsRegistry) -> (c: Self)
        requires
            registry.wf(),
        ensures
            c.wf(),
            c.registry_view() == registry@,
    {
        NodeMetricsCollector { registry }
    }

    /// The underlying registry.
    pub fn registry(&self) -> (r: &MetricsRegistry)
        ensures
            *r == self.registry_spec(),
    {
        &self.registry
    }
}

/// Metrics collector of an orchestrator: method metrics and the number of
/// requests forwarded to each node.
#[derive(Debug)]
pub struct OrchestratorMetricsCollector {
    registry: MetricsRegistry,
}

impl OrchestratorMetricsCollector {
    /// The underlying registry.
    pub closed spec fn registry_spec(&self) -> MetricsRegistry {
        self.registry
    }

    /// The abstract state of the underlying registry.
    pub open spec fn registry_view(&self) -> RegistryView {
        self.registry_spec()@
    }

    /// The underlying registry is well formed.
    pub open spec fn wf(&self) -> bool {
        self.registry_spec().wf()
    }

    /// A collector over a fresh registry with the default configuration.
    pub fn new() -> (c: Self)
        ensures
            c.wf(),
            fresh_registry(c.registry_view(), default_metrics_config()),
    {
        OrchestratorMetricsCollector { registry: MetricsRegistry::new() }
    }

    /// A collector over a fresh registry with `config`.
    pub fn with_config(config: MetricsConfig) -> (c: Self)
        requires
            config.wf(),
        ensures
            c.wf(),
            fresh_registry(c.registry_view(), config),
    {
        OrchestratorMetricsCollector { registry: MetricsRegistry::with_config(config) }
    }

    /// A collector over the given registry.
    pub fn with_registry(registry: MetricsRegistry) -> (c: Self)
        requires
            registry.wf(),
        ensures
            c.wf(),
            c.registry_view() == registry@,
    {
        OrchestratorMetricsCollector { registry }
    }

    /// The underlying registry.
    pub fn registry(&self) -> (r: &MetricsRegistry)
        ensures
            *r == self.registry_spec(),
    {
        &self.registry
    }

    /// Records that a request was forwarded to the node `node_addr`.
    pub fn record_node_request(&mut self, node_addr: &str)
        requires
            old(self).wf(),
        ensures
            final(self).wf(),
            node_request_applied(old(self).registry_view(), final(self).registry_view(), node_addr@),
    {
        self.registry.record_node_request(node_addr);
    }
}

/// A metrics collector: it answers the built-in methods `_metrics` and
/// `_info` and records every call in its registry.
pub trait MetricsCollector: Sized {
    /// The registry the collector keeps.
    spec fn collector_registry(&self) -> MetricsRegistry;

    /// The kind of server the collector serves, as `_info` reports it.
    spec fn collector_kind() -> ServerType;

    /// Whether `_metrics` snapshots include per-node metrics.
    spec fn collector_includes_nodes() -> bool;

    /// Whether `method` is `_metrics` or `_info`, answered by the collector
    /// rather than forwarded.
    fn is_metrics_request(&self, method: &str) -> (r: bool)
        ensures
            r == is_builtin_method(method@),
    ;

    /// The answer to `_metrics` (a snapshot of the registry) or `_info` (the
    /// server information).
    fn metrics_reply(&self, method: &str) -> (r: MetricsReply)
        requires
            self.collector_registry().wf(),
            is_builtin_method(method@),
        ensures
            reply_matches(&self.collector_registry(), Self::collector_kind(), Self::collector_includes_nodes(), method@, r),
    ;

    /// Records a call of `method` that started at `start_time` with outcome
    /// `success`; the latency is the time elapsed since `start_time`.
    fn record_call(&mut self, method: &str, start_time: Instant, success: bool)
        requires
            old(self).collector_registry().wf(),
        ensures
            final(self).collector_registry().wf(),
            exists|latency_us: u64| method_call_applied(
                old(self).collector_registry()@,
                final(self).collector_registry()@,
                method@,
                latency_us,
                success,
            ),
    ;

    /// A snapshot of the registry, with the current uptime.
    fn snapshot(&self) -> (s: MetricsSnapshot)
        requires
            self.collector_registry().wf(),
        ensures
            self.collector_registry().snapshot_matches(s, Self::collector_includes_nodes(), s.uptime_ms),
    ;
}

impl MetricsCollector for NodeMetricsCollector {
    open spec fn collector_registry(&self) -> MetricsRegistry {
        self.registry_spec()
    }

    open spec fn collector_kind() -> ServerType {
        ServerType::Node
    }

    /// A node tracks no other node.
    open spec fn collector_includes_nodes() -> bool {
        false
    }

    fn is_metrics_request(&self, method: &str) -> (r: bool) {
        builtin_method(method)
    }

    fn metrics_reply(&self, method: &str) -> (r: MetricsReply) {
        reply_for(&self.registry, ServerType::Node, false, method)
    }

    fn record_call(&mut self, method: &str, start_time: Instant, success: bool) {
        let latency_us = instant_elapsed_us(&start_time);
        self.registry.record_method_call(method, latency_us, success);
        assert(method_call_applied(old(self).collector_registry()@, self.collector_registry()@, method@, latency_us, success));
    }

    fn snapshot(&self) -> (s: MetricsSnapshot) {
        self.registry.snapshot(false)
    }
}

impl MetricsCollector for OrchestratorMetricsCollector {
    open spec fn collector_registry(&self) -> MetricsRegistry {
        self.registry_spec()
    }

    open spec fn collector_kind() -> ServerType {
        ServerType::Orchestrator
    }

    /// An orchestrator reports the requests forwarded to each node.
    open spec fn collector_includes_nodes() -> bool {
        true
    }

    fn is_metrics_request(&self, method: &str) -> (r: bool) {
        builtin_method(method)
    }

    fn metrics_reply(&self, method: &str) -> (r: MetricsReply) {
        reply_for(&self.registry, ServerType::Orchestrator, true, method)
    }

    fn record_call(&mut self, method: &str, start_time: Instant, success: bool) {
        let latency_us = instant_elapsed_us(&start_time);
        self.registry.record_method_call(method, latency_us, success);
        assert(method_call_applied(old(self).collector_registry()@, self.collector_registry()@, method@, latency_us, success));
    }

    fn snapshot(&self) -> (s: MetricsSnapshot) {
        self.registry.snapshot(true)
    }
}

} // verus!
