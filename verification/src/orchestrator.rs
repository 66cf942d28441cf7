//! The orchestrator: routes requests to nodes through the load balancer,
//! retries failed forwards with exponential backoff, answers the built-in
//! methods and reports its pool. Network calls and timers are driven by the
//! application, which asks the orchestrator what to do at each step.

use vstd::prelude::*;
use serde_json::Value;
use std::time::Instant;
use crate::builtin::{InfoResponse, MetricsSnapshot, OrchestratorInfo, OrchestratorNodeInfo, VERSION};
use crate::collector::{is_builtin_method, MetricsCollector, MetricsReply, OrchestratorMetricsCollector};
use crate::clock::duration_of_millis;
use crate::error::MadrpcError;
use crate::protocol::{json_of_u64, value_from_u64, JsonRpcRequest, Request};
use crate::health::{failures_of, update_applied, update_for, HealthCheckConfig, HealthCheckUpdate, HealthChecker};
use crate::load_balancer::{
    circuits_checked, default_circuit_config, fresh_balancer, manually_disabled, manually_enabled, next_node_chosen, node_added, node_removed, LbView,
    LoadBalancer,
};
use crate::node::{power, CircuitBreakerState, DisableReason, HealthCheckStatus, Node};
use crate::registry::{default_metrics_config, fresh_registry, method_call_applied, node_request_applied, RegistryView};
use crate::builtin::ServerType;
use crate::text::{bytes_start_with, decimal, push_str, str_eq, str_starts_with, u128_to_decimal};
use vstd::utf8::encode_utf8;

verus! {

/// Retries of forwarded requests.
#[derive(Debug, Clone, Copy)]
pub struct RetryConfig {
    /// Retries after the first attempt
    pub max_retries: usize,
    /// Delay before the first retry (milliseconds)
    pub initial_backoff_ms: u64,
    /// Cap on the delay (milliseconds)
    pub max_backoff_ms: u64,
    /// Factor applied to the delay after each retry
    pub backoff_multiplier: u32,
}

impl Default for RetryConfig {
    /// Three retries, 50 ms doubling up to 5 s.
    fn default() -> (c: Self)
        ensures
            c.max_retries == 3,
            c.initial_backoff_ms == 50,
            c.max_backoff_ms == 5000,
            c.backoff_multiplier == 2,
    {
        RetryConfig { max_retries: 3, initial_backoff_ms: 50, max_backoff_ms: 5000, backoff_multiplier: 2 }
    }
}

/// The smaller of two numbers.
pub open spec fn min_int(a: int, b: int) -> int {
    if a <= b { a } else { b }
}

/// The delay after `backoff_ms`: multiplied by the factor, capped.
pub open spec fn next_backoff(c: RetryConfig, backoff_ms: u64) -> u64 {
    min_int(backoff_ms * c.backoff_multiplier, c.max_backoff_ms as int) as u64
}

/// The delay before retry `k` (counting from zero).
pub open spec fn backoff_after(c: RetryConfig, k: nat) -> u64
    decreases k,
{
    if k == 0 {
        c.initial_backoff_ms
    } else {
        next_backoff(c, backoff_after(c, (k - 1) as nat))
    }
}

/// The delay following `backoff_ms`: `backoff_ms` times the factor, at most
/// `max_backoff_ms`.
pub fn next_backoff_ms(config: &RetryConfig, backoff_ms: u64) -> (r: u64)
    ensures
        r == next_backoff(*config, backoff_ms),
{
    let m = config.backoff_multiplier as u64;
    match backoff_ms.checked_mul(m) {
        Some(product) => {
            if product <= config.max_backoff_ms {
                product
            } else {
                config.max_backoff_ms
            }
        },
        None => config.max_backoff_ms,
    }
}

/// The delay before retry `k` is the initial delay for the first retry, and
/// the initial delay times the factor to the power `k`, capped, after that.
pub proof fn lemma_backoff_closed_form(c: RetryConfig, k: nat)
    ensures
        backoff_after(c, k) == if k == 0 {
            c.initial_backoff_ms as int
        } else {
            min_int(c.initial_backoff_ms * power(c.backoff_multiplier as nat, k), c.max_backoff_ms as int)
        },
    decreases k,
{
    let i = c.initial_backoff_ms as nat;
    let m = c.backoff_multiplier as nat;
    let mx = c.max_backoff_ms as int;
    if k == 1 {
        assert(backoff_after(c, 0) == c.initial_backoff_ms);
        assert(power(m, 1) == m * power(m, 0));
        assert(power(m, 0) == 1);
        assert(m * 1 == m);
        assert(power(m, 1) == m);
        assert(i * power(m, 1) == i * m);
        assert(backoff_after(c, 1) == next_backoff(c, c.initial_backoff_ms));
    } else if k > 1 {
        lemma_backoff_closed_form(c, (k - 1) as nat);
        let p = power(m, (k - 1) as nat);
        let b = backoff_after(c, (k - 1) as nat);
        assert(backoff_after(c, k) == next_backoff(c, b));
        assert(power(m, k) == m * p);
        assert(i * power(m, k) == (i * p) * m) by (nonlinear_arith)
            requires
                power(m, k) == m * p,
        ;
        if i * p <= mx {
            assert(b == i * p);
            assert(b * m == (i * p) * m);
        } else {
            assert(b == mx);
            if m == 0 {
                assert(p == 0) by {
                    assert(power(0, (k - 1) as nat) == 0 * power(0, (k - 2) as nat));
                }
                assert(i * p == 0) by (nonlinear_arith)
                    requires
                        p == 0,
                ;
            } else {
                assert(mx * m >= mx) by (nonlinear_arith)
                    requires
                        m >= 1,
                        mx >= 0,
                ;
                assert((i * p) * m >= i * p) by (nonlinear_arith)
                    requires
                        m >= 1,
                        i * p >= 0,
                ;
                assert(b * m == mx * m);
            }
        }
    }
}

/// Only the absence of nodes is worth another attempt at the orchestrator:
/// `AllNodesFailed` and `NodeUnavailable` are retried, every other error is
/// final.
pub open spec fn forward_retryable(e: MadrpcError) -> bool {
    e is AllNodesFailed || e is NodeUnavailable
}

/// The orchestrator retries a failed forward only when no node could take
/// the request: exactly the errors `AllNodesFailed` and `NodeUnavailable` are
/// retried; every other error (an invalid response, a failed execution, a
/// transport failure...) goes back to the caller at once.
pub proof fn lemma_forward_retries_only_missing_nodes(e: MadrpcError)
    ensures
        forward_retryable(e) <==> (e is AllNodesFailed || e is NodeUnavailable),
{
}

/// Progress of one forwarded request through its attempts.
#[derive(Debug, Clone, Copy, PartialEq, Eq, Structural)]
pub struct ForwardState {
    /// The attempt under way, from zero
    pub attempt: usize,
    /// The delay before the next retry (milliseconds)
    pub backoff_ms: u64,
}

/// What to do once an attempt's result is known.
#[derive(Debug)]
pub enum ForwardOutcome {
    /// Wait this many milliseconds, then make the next attempt
    Retry(u64),
    /// The forward is over, with this result
    Done(Result<Value, MadrpcError>),
}

/// The error text when no node is available at attempt `attempt` of `total`.
pub open spec fn no_nodes_text(attempt: nat, total: nat) -> Seq<char> {
    "No available nodes (attempt "@ + decimal(attempt) + "/"@ + decimal(total) + ")"@
}

/// The name of a disable reason, as reported.
pub open spec fn reason_name(r: DisableReason) -> Seq<char> {
    match r {
        DisableReason::Manual => "Manual"@,
        DisableReason::HealthCheck => "HealthCheck"@,
    }
}

/// The name of a circuit state, as reported.
pub open spec fn state_name(s: CircuitBreakerState) -> Seq<char> {
    match s {
        CircuitBreakerState::Closed => "Closed"@,
        CircuitBreakerState::Open => "Open"@,
        CircuitBreakerState::HalfOpen => "HalfOpen"@,
    }
}

/// `i` reports the node `n`.
pub open spec fn node_info_matches(i: OrchestratorNodeInfo, n: Node) -> bool {
    &&& i.addr@ == n.addr@
    &&& i.enabled == n.enabled
    &&& match n.disable_reason {
        Some(r) => (i.disable_reason matches Some(t) && t@ == reason_name(r)),
        None => i.disable_reason is None,
    }
    &&& i.circuit_state@ == state_name(n.circuit_state)
    &&& i.consecutive_failures == n.consecutive_failures
}

/// `info` reports the current version and the pool `nodes`: its size, how
/// many nodes are enabled and disabled, and each node in table order.
pub open spec fn pool_info_matches(info: OrchestratorInfo, nodes: Seq<(String, Node)>) -> bool {
    &&& info.version@ == VERSION@
    &&& info.total_nodes == nodes.len()
    &&& info.enabled_nodes == enabled_count_of(nodes)
    &&& info.disabled_nodes == nodes.len() - enabled_count_of(nodes)
    &&& info.nodes@.len() == nodes.len()
    &&& forall|i: int| 0 <= i < nodes.len() ==> node_info_matches(#[trigger] info.nodes@[i], nodes[i].1)
}

/// The number of enabled nodes in a node table.
pub open spec fn enabled_count_of(nodes: Seq<(String, Node)>) -> nat
    decreases nodes.len(),
{
    if nodes.len() == 0 {
        0
    } else {
        enabled_count_of(nodes.drop_last()) + if nodes.last().1.enabled { 1nat } else { 0nat }
    }
}

fn reason_text(r: DisableReason) -> (t: String)
    ensures
        t@ == reason_name(r),
{
    match r {
        DisableReason::Manual => "Manual".to_owned(),
        DisableReason::HealthCheck => "HealthCheck".to_owned(),
    }
}

fn state_text(s: CircuitBreakerState) -> (t: String)
    ensures
        t@ == state_name(s),
{
    match s {
        CircuitBreakerState::Closed => "Closed".to_owned(),
        CircuitBreakerState::Open => "Open".to_owned(),
        CircuitBreakerState::HalfOpen => "HalfOpen".to_owned(),
    }
}

/// Whether an orchestrator error is worth another attempt (`AllNodesFailed`
/// or `NodeUnavailable`).
pub fn is_retryable_static(error: &MadrpcError) -> (r: bool)
    ensures
        r == forward_retryable(*error),
        r <==> (*error is AllNodesFailed || *error is NodeUnavailable),
{
    match error {
        MadrpcError::AllNodesFailed => true,
        MadrpcError::NodeUnavailable(_) => true,
        _ => false,
    }
}

/// The JSON-RPC call forwarded for a request of the framed protocol: same
/// method and arguments, identified by the request's number.
pub fn jsonrpc_request_of(request: Request) -> (r: JsonRpcRequest)
    ensures
        r.jsonrpc@ == "2.0"@,
        r.method == request.method,
        r.params == request.args,
        r.id == json_of_u64(request.id),
{
    JsonRpcRequest { jsonrpc: "2.0".to_owned(), method: request.method, params: request.args, id: value_from_u64(request.id) }
}

/// The base URL of the node `node_addr`: the address itself when it starts
/// with http:// or https://, else the address after "http://".
pub fn node_base_url(node_addr: &str) -> (url: String)
    ensures
        url@ == if bytes_start_with(encode_utf8(node_addr@), encode_utf8("http://"@))
            || bytes_start_with(encode_utf8(node_addr@), encode_utf8("https://"@)) {
            node_addr@
        } else {
            "http://"@ + node_addr@
        },
{
    if str_starts_with(node_addr, "http://") || str_starts_with(node_addr, "https://") {
        node_addr.to_owned()
    } else {
        let mut url = "http://".to_owned();
        push_str(&mut url, node_addr);
        url
    }
}

/// Routes requests to a pool of nodes.
#[derive(Debug)]
pub struct Orchestrator {
    load_balancer: LoadBalancer,
    metrics_collector: OrchestratorMetricsCollector,
    retry_config: RetryConfig,
    health_checker: HealthChecker,
}

impl Orchestrator {
    /// The load balancer.
    pub closed spec fn lb_spec(&self) -> LoadBalancer {
        self.load_balancer
    }

    /// The metrics collector.
    pub closed spec fn collector_spec(&self) -> OrchestratorMetricsCollector {
        self.metrics_collector
    }

    /// The retry configuration.
    pub closed spec fn retry_spec(&self) -> RetryConfig {
        self.retry_config
    }

    /// The health-check configuration.
    pub closed spec fn health_spec(&self) -> HealthCheckConfig {
        self.health_checker.config()
    }

    /// The state of the load balancer.
    pub open spec fn lb_view(&self) -> LbView {
        self.lb_spec()@
    }

    /// The state of the metrics registry.
    pub open spec fn metrics_view(&self) -> RegistryView {
        self.collector_spec().registry_view()
    }

    /// The balancer and the collector are well formed.
    pub open spec fn wf(&self) -> bool {
        &&& self.lb_spec().wf()
        &&& self.collector_spec().wf()
    }

    /// A new orchestrator over `node_addrs`: a new balancer over them with the
    /// default circuit breaker, and a metrics registry with the default
    /// configuration and nothing recorded.
    pub open spec fn is_fresh_over(&self, node_addrs: Seq<String>) -> bool {
        &&& fresh_balancer(self.lb_view(), node_addrs, default_circuit_config())
        &&& fresh_registry(self.metrics_view(), default_metrics_config())
    }

    /// An orchestrator over `node_addrs` with the default health checks and retries.
    pub fn new(node_addrs: Vec<String>) -> (r: Result<Self, MadrpcError>)
        ensures
            r matches Ok(o) && o.wf() && o.is_fresh_over(node_addrs@)
                && o.health_spec() == (HealthCheckConfig {
                    interval: duration_of_millis(5000),
                    timeout: duration_of_millis(2000),
                    failure_threshold: 3,
                })
                && o.retry_spec() == (RetryConfig { max_retries: 3, initial_backoff_ms: 50, max_backoff_ms: 5000, backoff_multiplier: 2 }),
    {
        Self::with_retry_config(node_addrs, HealthCheckConfig::default(), RetryConfig::default())
    }

    /// An orchestrator over `node_addrs` with the given health checks and the default retries.
    pub fn with_config(node_addrs: Vec<String>, health_config: HealthCheckConfig) -> (r: Result<Self, MadrpcError>)
        ensures
            r matches Ok(o) && o.wf() && o.is_fresh_over(node_addrs@) && o.health_spec() == health_config
                && o.retry_spec() == (RetryConfig { max_retries: 3, initial_backoff_ms: 50, max_backoff_ms: 5000, backoff_multiplier: 2 }),
    {
        Self::with_retry_config(node_addrs, health_config, RetryConfig::default())
    }

    /// An orchestrator over `node_addrs` (all enabled, in this round-robin
    /// order) with the given health checks and retries; creation never fails.
    pub fn with_retry_config(
        node_addrs: Vec<String>,
        health_config: HealthCheckConfig,
        retry_config: RetryConfig,
    ) -> (r: Result<Self, MadrpcError>)
        ensures
            r is Ok,
            r matches Ok(o) ==> {
                &&& o.wf()
                &&& o.is_fresh_over(node_addrs@)
                &&& o.health_spec() == health_config
                &&& o.retry_spec() == retry_config
            },
    {
        let load_balancer = LoadBalancer::new(node_addrs);
        let metrics_collector = OrchestratorMetricsCollector::new();
        let health_checker = match HealthChecker::new(health_config) {
            Ok(h) => h,
            Err(e) => return Err(e),
        };
        Ok(Orchestrator { load_balancer, metrics_collector, retry_config, health_checker })
    }

    /// The retry configuration.
    pub fn retry_config(&self) -> (c: RetryConfig)
        ensures
            c == self.retry_spec(),
    {
        self.retry_config
    }

    /// The health-check configuration.
    pub fn health_config(&self) -> (c: HealthCheckConfig)
        ensures
            c == self.health_spec(),
    {
        self.health_checker.get_config()
    }

    /// The metrics collector.
    pub fn metrics_collector(&self) -> (c: &OrchestratorMetricsCollector)
        ensures
            *c == self.collector_spec(),
    {
        &self.metrics_collector
    }

    /// The load balancer.
    pub fn load_balancer(&self) -> (lb: &LoadBalancer)
        ensures
            *lb == self.lb_spec(),
    {
        &self.load_balancer
    }

    /// Adds a node (ignored if already present).
    pub fn add_node(&mut self, node_addr: String)
        requires
            old(self).wf(),
        ensures
            final(self).wf(),
            node_added(old(self).lb_view(), final(self).lb_view(), node_addr),
            final(self).collector_spec() == old(self).collector_spec(),
            final(self).retry_spec() == old(self).retry_spec(),
    {
        self.load_balancer.add_node(node_addr);
    }

    /// Removes a node.
    pub fn remove_node(&mut self, node_addr: &str)
        requires
            old(self).wf(),
        ensures
            final(self).wf(),
            node_removed(old(self).lb_view(), final(self).lb_view(), node_addr@),
            final(self).collector_spec() == old(self).collector_spec(),
            final(self).retry_spec() == old(self).retry_spec(),
    {
        self.load_balancer.remove_node(node_addr);
    }

    /// Disables a node manually; returns whether it exists.
    pub fn disable_node(&mut self, node_addr: &str) -> (found: bool)
        requires
            old(self).wf(),
        ensures
            final(self).wf(),
            manually_disabled(old(self).lb_view(), final(self).lb_view(), node_addr@, found),
            final(self).collector_spec() == old(self).collector_spec(),
            final(self).retry_spec() == old(self).retry_spec(),
    {
        self.load_balancer.disable_node(node_addr)
    }

    /// Enables a node manually; returns whether it exists.
    pub fn enable_node(&mut self, node_addr: &str) -> (found: bool)
        requires
            old(self).wf(),
        ensures
            final(self).wf(),
            manually_enabled(old(self).lb_view(), final(self).lb_view(), node_addr@, found),
            final(self).collector_spec() == old(self).collector_spec(),
            final(self).retry_spec() == old(self).retry_spec(),
    {
        self.load_balancer.enable_node(node_addr)
    }

    /// All nodes with their state, in table order.
    pub fn nodes_with_status(&self) -> (r: Vec<Node>)
        ensures
            r@.len() == self.lb_view().nodes.len(),
            forall|i: int| 0 <= i < r@.len() ==> r@[i] == #[trigger] self.lb_view().nodes[i].1,
    {
        self.load_balancer.all_nodes()
    }

    /// Number of nodes.
    pub fn node_count(&self) -> (n: usize)
        ensures
            n == self.lb_view().nodes.len(),
    {
        self.load_balancer.node_count()
    }

    /// Addresses of all nodes, in table order.
    pub fn nodes(&self) -> (r: Vec<String>)
        ensures
            r@.len() == self.lb_view().nodes.len(),
            forall|i: int| 0 <= i < r@.len() ==> r@[i] == #[trigger] self.lb_view().nodes[i].0,
    {
        self.load_balancer.nodes()
    }

    /// The answer to a built-in method, or `None` for any other method, which
    /// is to be forwarded: `_metrics` gives a snapshot with per-node metrics,
    /// `_info` the orchestrator's information with the state of its pool.
    pub fn builtin_reply(&self, method: &str) -> (r: Option<MetricsReply>)
        requires
            self.wf(),
        ensures
            is_builtin_method(method@) <==> r is Some,
            method@ == "_metrics"@ ==> (r matches Some(MetricsReply::Metrics(s))
                && self.collector_spec().registry_spec().snapshot_matches(s, true, s.uptime_ms)),
            method@ == "_info"@ ==> (r matches Some(MetricsReply::Pool(info))
                && pool_info_matches(info, self.lb_view().nodes)),
    {
        proof {
            reveal_strlit("_metrics");
            reveal_strlit("_info");
            assert("_info"@.len() != "_metrics"@.len());
        }
        if str_eq(method, "_metrics") {
            Some(MetricsReply::Metrics(self.metrics_collector.snapshot()))
        } else if str_eq(method, "_info") {
            Some(MetricsReply::Pool(self.pool_info()))
        } else {
            None
        }
    }

    /// The state of a new forward: first attempt, initial delay.
    pub fn begin_forward(&self) -> (s: ForwardState)
        ensures
            s == (ForwardState { attempt: 0, backoff_ms: self.retry_spec().initial_backoff_ms }),
    {
        ForwardState { attempt: 0, backoff_ms: self.retry_config.initial_backoff_ms }
    }

    /// Picks the node for the attempt `state.attempt` and counts the request
    /// for it. With no node available the attempt fails: with
    /// `NodeUnavailable` while retries remain, else with `AllNodesFailed`.
    pub fn select_node(&mut self, state: &ForwardState) -> (r: Result<String, MadrpcError>)
        requires
            old(self).wf(),
            state.attempt <= old(self).retry_spec().max_retries,
        ensures
            final(self).wf(),
            final(self).retry_spec() == old(self).retry_spec(),
            final(self).lb_view().nodes == old(self).lb_view().nodes,
            final(self).lb_view().enabled == old(self).lb_view().enabled,
            final(self).lb_view().config == old(self).lb_view().config,
            match r {
                Ok(a) => {
                    &&& next_node_chosen(old(self).lb_view(), Some(a), final(self).lb_view().index)
                    &&& node_request_applied(old(self).metrics_view(), final(self).metrics_view(), a@)
                },
                Err(e) => {
                    &&& next_node_chosen(old(self).lb_view(), None, final(self).lb_view().index)
                    &&& final(self).metrics_view() == old(self).metrics_view()
                    &&& if state.attempt < old(self).retry_spec().max_retries {
                        e matches MadrpcError::NodeUnavailable(m) && m@ == no_nodes_text(
                            (state.attempt + 1) as nat,
                            (old(self).retry_spec().max_retries + 1) as nat,
                        )
                    } else {
                        e is AllNodesFailed
                    }
                },
            },
    {
        let ghost m0 = self.metrics_view();
        match self.load_balancer.next_node() {
            Some(addr) => {
                self.metrics_collector.record_node_request(addr.as_str());
                proof {
                    assert(node_request_applied(m0, self.metrics_view(), addr@));
                }
                Ok(addr)
            },
            None => {
                if state.attempt < self.retry_config.max_retries {
                    let mut m = "No available nodes (attempt ".to_owned();
                    let a = u128_to_decimal(state.attempt as u128 + 1);
                    push_str(&mut m, a.as_str());
                    push_str(&mut m, "/");
                    let t = u128_to_decimal(self.retry_config.max_retries as u128 + 1);
                    push_str(&mut m, t.as_str());
                    push_str(&mut m, ")");
                    Err(MadrpcError::NodeUnavailable(m))
                } else {
                    Err(MadrpcError::AllNodesFailed)
                }
            },
        }
    }

    /// What follows an attempt of a forward of `method` begun at
    /// `start_time` that gave `result`. A retryable failure (see
    /// `forward_retryable`) with retries left schedules a retry after the
    /// current delay and grows the delay; any other failure ends the forward
    /// with that error; a success is recorded as a successful call and ends
    /// the forward with its value.
    pub fn finish_attempt(
        &mut self,
        state: &mut ForwardState,
        method: &str,
        start_time: Instant,
        result: Result<Value, MadrpcError>,
    ) -> (out: ForwardOutcome)
        requires
            old(self).wf(),
            old(state).attempt <= old(self).retry_spec().max_retries,
        ensures
            final(self).wf(),
            final(self).retry_spec() == old(self).retry_spec(),
            final(self).lb_spec() == old(self).lb_spec(),
            final(state).attempt <= final(self).retry_spec().max_retries,
            out is Retry ==> (result matches Err(e) && (e is AllNodesFailed || e is NodeUnavailable)),
            match result {
                Err(e) => {
                    &&& final(self).metrics_view() == old(self).metrics_view()
                    &&& if old(state).attempt < old(self).retry_spec().max_retries && forward_retryable(e) {
                        &&& out == ForwardOutcome::Retry(old(state).backoff_ms)
                        &&& *final(state) == (ForwardState {
                            attempt: (old(state).attempt + 1) as usize,
                            backoff_ms: next_backoff(old(self).retry_spec(), old(state).backoff_ms),
                        })
                    } else {
                        &&& out == ForwardOutcome::Done(Err(e))
                        &&& *final(state) == *old(state)
                    }
                },
                Ok(v) => {
                    &&& out == ForwardOutcome::Done(Ok(v))
                    &&& *final(state) == *old(state)
                    &&& exists|latency_us: u64|
                        method_call_applied(old(self).metrics_view(), final(self).metrics_view(), method@, latency_us, true)
                },
            },
    {
        match result {
            Err(e) => {
                if state.attempt < self.retry_config.max_retries && is_retryable_static(&e) {
                    let wait = state.backoff_ms;
                    state.backoff_ms = next_backoff_ms(&self.retry_config, state.backoff_ms);
                    state.attempt = state.attempt + 1;
                    ForwardOutcome::Retry(wait)
                } else {
                    ForwardOutcome::Done(Err(e))
                }
            },
            Ok(v) => {
                let ghost before = self.metrics_view();
                self.metrics_collector.record_call(method, start_time, true);
                proof {
                    let lat = choose|l: u64| method_call_applied(before, self.metrics_view(), method@, l, true);
                    assert(method_call_applied(before, self.metrics_view(), method@, lat, true));
                }
                ForwardOutcome::Done(Ok(v))
            },
        }
    }

    /// The metrics of the orchestrator, with per-node request counts.
    pub fn get_metrics(&self) -> (r: Result<MetricsSnapshot, MadrpcError>)
        requires
            self.wf(),
        ensures
            r matches Ok(s) && self.collector_spec().registry_spec().snapshot_matches(s, true, s.uptime_ms),
    {
        Ok(self.metrics_collector.snapshot())
    }

    /// The orchestrator's information: version, uptime, node counts and the
    /// state of each node in table order.
    pub fn get_info(&self) -> (r: Result<InfoResponse, MadrpcError>)
        requires
            self.wf(),
        ensures
            r matches Ok(InfoResponse::Orchestrator(info)) && pool_info_matches(info, self.lb_view().nodes),
    {
        Ok(InfoResponse::Orchestrator(self.pool_info()))
    }

    /// The orchestrator's information, with the current uptime.
    fn pool_info(&self) -> (info: OrchestratorInfo)
        requires
            self.wf(),
        ensures
            pool_info_matches(info, self.lb_view().nodes),
    {
        let nodes = self.load_balancer.all_nodes();
        let uptime_ms = self.metrics_collector.registry().uptime_ms();
        let ghost table = self.lb_view().nodes;
        let mut infos: Vec<OrchestratorNodeInfo> = Vec::new();
        let mut enabled: usize = 0;
        let mut i: usize = 0;
        while i < nodes.len()
            invariant
                i <= nodes@.len(),
                nodes@.len() == table.len(),
                forall|k: int| 0 <= k < nodes@.len() ==> nodes@[k] == #[trigger] table[k].1,
                infos@.len() == i,
                enabled == enabled_count_of(table.take(i as int)),
                enabled <= i,
                forall|k: int| 0 <= k < i ==> node_info_matches(#[trigger] infos@[k], table[k].1),
            decreases nodes@.len() - i,
        {
            let n = &nodes[i];
            proof {
                assert(table.take(i + 1).drop_last() =~= table.take(i as int));
                assert(table.take(i + 1).last() == table[i as int]);
            }
            if n.enabled {
                enabled = enabled + 1;
            }
            let reason = match n.disable_reason {
                Some(r) => Some(reason_text(r)),
                None => None,
            };
            infos.push(OrchestratorNodeInfo {
                addr: n.addr.clone(),
                enabled: n.enabled,
                disable_reason: reason,
                circuit_state: state_text(n.circuit_state),
                consecutive_failures: n.consecutive_failures,
            });
            i = i + 1;
        }
        proof {
            assert(table.take(table.len() as int) =~= table);
        }
        let total = nodes.len();
        OrchestratorInfo {
            version: VERSION.to_owned(),
            uptime_ms,
            total_nodes: total,
            enabled_nodes: enabled,
            disabled_nodes: total - enabled,
            nodes: infos,
        }
    }

    /// Starts a round of health checks: moves open circuits whose timeout
    /// has passed to half-open, then returns the nodes to check.
    pub fn begin_health_round(&mut self) -> (nodes: Vec<Node>)
        requires
            old(self).wf(),
        ensures
            final(self).wf(),
            final(self).collector_spec() == old(self).collector_spec(),
            final(self).retry_spec() == old(self).retry_spec(),
            exists|elapsed: Seq<Option<u128>>, any: bool|
                elapsed.len() == old(self).lb_view().nodes.len()
                && #[trigger] circuits_checked(old(self).lb_view(), final(self).lb_view(), elapsed, any),
            nodes@.len() == final(self).lb_view().nodes.len(),
            forall|i: int| 0 <= i < nodes@.len() ==> nodes@[i] == #[trigger] final(self).lb_view().nodes[i].1,
    {
        let ghost before = self.lb_view();
        let any = self.load_balancer.check_circuit_timeouts();
        proof {
            let elapsed = choose|elapsed: Seq<Option<u128>>|
                elapsed.len() == before.nodes.len() && #[trigger] circuits_checked(before, self.lb_view(), elapsed, any);
            assert(circuits_checked(before, self.lb_view(), elapsed, any));
        }
        self.load_balancer.all_nodes()
    }

    /// Takes the result of the health check of `node` into account: decides
    /// the update (see `update_for`) and applies it to the balancer (see
    /// `update_applied`).
    pub fn record_health_result(&mut self, node: &Node, result: Result<(), MadrpcError>)
        requires
            old(self).wf(),
            result is Err ==> failures_of(old(self).lb_view(), node.addr@) < u32::MAX,
        ensures
            final(self).wf(),
            final(self).collector_spec() == old(self).collector_spec(),
            final(self).retry_spec() == old(self).retry_spec(),
            exists|u: HealthCheckUpdate|
                #[trigger] update_for(old(self).lb_view(), old(self).health_spec().failure_threshold, *node, result, u)
                && update_applied(old(self).lb_view(), final(self).lb_view(), u),
    {
        let update = self.health_checker.process_health_result(&self.load_balancer, node, result);
        let ghost u = update;
        proof {
            crate::named_map::lemma_key_index(self.lb_view().nodes, node.addr@);
        }
        self.health_checker.apply_health_update(&mut self.load_balancer, update);
        proof {
            assert(update_for(old(self).lb_view(), old(self).health_spec().failure_threshold, *node, result, u));
        }
    }
}

} // verus!
