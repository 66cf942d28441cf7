//! The metrics registry: request counters, per-method statistics with latency
//! percentiles, per-node request counts, and periodic clean-up of stale entries.

use vstd::prelude::*;
use std::time::Instant;
use crate::builtin::{MethodMetrics, MetricsSnapshot, NodeMetrics};
use crate::clock::{MonotonicClock, get_monotonic_timestamp, instant_now, instant_elapsed_ms, succ_sat};
use crate::latency::{LatencyBuffer, empty_buffer, recorded, percentiles_of, wrapping_inc};
use crate::named_map::{NamedMap, key_index, distinct_keys, find_key, lemma_key_index};
use crate::table::{Stamped, cleaned, clean_table};

verus! {

/// Operations between two clean-ups of stale entries.
pub const CLEANUP_INTERVAL: u64 = 1000;

/// Size limits and time-to-live of the per-method and per-node tables.
#[derive(Debug, Clone, Copy)]
pub struct MetricsConfig {
    /// Maximum number of methods tracked; least recently used ones are evicted beyond it
    pub max_methods: usize,
    /// Maximum number of nodes tracked; least recently used ones are evicted beyond it
    pub max_nodes: usize,
    /// Methods unused for this many seconds are dropped at clean-up
    pub method_ttl_secs: u64,
    /// Nodes without requests for this many seconds are dropped at clean-up
    pub node_ttl_secs: u64,
}

impl MetricsConfig {
    /// The time-to-live values, in milliseconds, fit in 64 bits.
    pub open spec fn wf(&self) -> bool {
        &&& self.method_ttl_secs * 1000 <= u64::MAX
        &&& self.node_ttl_secs * 1000 <= u64::MAX
    }
}

impl Default for MetricsConfig {
    /// 1000 methods, 100 nodes, one hour of time-to-live for both.
    fn default() -> (c: Self)
        ensures
            c.max_methods == 1000,
            c.max_nodes == 100,
            c.method_ttl_secs == 3600,
            c.node_ttl_secs == 3600,
    {
        MetricsConfig { max_methods: 1000, max_nodes: 100, method_ttl_secs: 3600, node_ttl_secs: 3600 }
    }
}

/// `x - 1`, wrapping to `u64::MAX` below zero (what an atomic `fetch_sub(1)` stores).
pub open spec fn wrapping_dec(x: u64) -> u64 {
    if x == 0 { u64::MAX } else { (x - 1) as u64 }
}

/// Statistics of one method.
#[derive(Debug)]
pub struct MethodStats {
    /// Total number of calls
    pub call_count: u64,
    /// Number of successful calls
    pub success_count: u64,
    /// Number of failed calls
    pub failure_count: u64,
    /// Recent latency samples
    pub latencies: LatencyBuffer,
    /// Time (ms) of the last access
    pub last_access_ms: u64,
}

impl Stamped for MethodStats {
    open spec fn stamp_spec(&self) -> u64 {
        self.last_access_ms
    }

    fn stamp(&self) -> (r: u64) {
        self.last_access_ms
    }
}

/// `after` is `before` with one more call of the given outcome and latency, last used at `stamp`.
pub open spec fn call_recorded(before: MethodStats, after: MethodStats, latency_us: u64, success: bool, stamp: u64) -> bool {
    &&& after.call_count == wrapping_inc(before.call_count)
    &&& after.success_count == if success { wrapping_inc(before.success_count) } else { before.success_count }
    &&& after.failure_count == if success { before.failure_count } else { wrapping_inc(before.failure_count) }
    &&& after.latencies@ == recorded(before.latencies@, latency_us)
    &&& after.latencies.wf()
    &&& after.last_access_ms == stamp
}

/// `after` is a method's first call, of the given outcome and latency, at `stamp`.
pub open spec fn first_call_recorded(after: MethodStats, latency_us: u64, success: bool, stamp: u64) -> bool {
    &&& after.call_count == 1
    &&& after.success_count == if success { 1u64 } else { 0u64 }
    &&& after.failure_count == if success { 0u64 } else { 1u64 }
    &&& after.latencies@ == recorded(empty_buffer(), latency_us)
    &&& after.latencies.wf()
    &&& after.last_access_ms == stamp
}

impl MethodStats {
    /// Statistics with no calls, last used now.
    pub fn new(clock: &mut MonotonicClock) -> (s: Self)
        ensures
            s.call_count == 0,
            s.success_count == 0,
            s.failure_count == 0,
            s.latencies@ == empty_buffer(),
            s.latencies.wf(),
            s.last_access_ms == final(clock).last_spec(),
            final(clock).last_spec() >= succ_sat(old(clock).last_spec()),
    {
        let now = get_monotonic_timestamp(clock);
        MethodStats {
            call_count: 0,
            success_count: 0,
            failure_count: 0,
            latencies: LatencyBuffer::new(),
            last_access_ms: now,
        }
    }

    /// Marks the method as used now.
    pub fn update_last_access(&mut self, clock: &mut MonotonicClock)
        ensures
            final(self).last_access_ms == final(clock).last_spec(),
            final(clock).last_spec() >= succ_sat(old(clock).last_spec()),
            final(self).call_count == old(self).call_count,
            final(self).success_count == old(self).success_count,
            final(self).failure_count == old(self).failure_count,
            final(self).latencies == old(self).latencies,
    {
        self.last_access_ms = get_monotonic_timestamp(clock);
    }

    /// Counts one more call and marks the method as used now.
    pub fn increment_call(&mut self, clock: &mut MonotonicClock)
        ensures
            final(self).call_count == wrapping_inc(old(self).call_count),
            final(self).last_access_ms == final(clock).last_spec(),
            final(clock).last_spec() >= succ_sat(old(clock).last_spec()),
            final(self).success_count == old(self).success_count,
            final(self).failure_count == old(self).failure_count,
            final(self).latencies == old(self).latencies,
    {
        self.call_count = self.call_count.wrapping_add(1);
        self.update_last_access(clock);
    }

    /// Counts one more success and marks the method as used now.
    pub fn increment_success(&mut self, clock: &mut MonotonicClock)
        ensures
            final(self).success_count == wrapping_inc(old(self).success_count),
            final(self).last_access_ms == final(clock).last_spec(),
            final(clock).last_spec() >= succ_sat(old(clock).last_spec()),
            final(self).call_count == old(self).call_count,
            final(self).failure_count == old(self).failure_count,
            final(self).latencies == old(self).latencies,
    {
        self.success_count = self.success_count.wrapping_add(1);
        self.update_last_access(clock);
    }

    /// Counts one more failure and marks the method as used now.
    pub fn increment_failure(&mut self, clock: &mut MonotonicClock)
        ensures
            final(self).failure_count == wrapping_inc(old(self).failure_count),
            final(self).last_access_ms == final(clock).last_spec(),
            final(clock).last_spec() >= succ_sat(old(clock).last_spec()),
            final(self).call_count == old(self).call_count,
            final(self).success_count == old(self).success_count,
            final(self).latencies == old(self).latencies,
    {
        self.failure_count = self.failure_count.wrapping_add(1);
        self.update_last_access(clock);
    }

    /// Records a latency sample and marks the method as used now.
    pub fn record_latency(&mut self, latency_us: u64, clock: &mut MonotonicClock)
        requires
            old(self).latencies.wf(),
        ensures
            final(self).latencies.wf(),
            final(self).latencies@ == recorded(old(self).latencies@, latency_us),
            final(self).last_access_ms == final(clock).last_spec(),
            final(clock).last_spec() >= succ_sat(old(clock).last_spec()),
            final(self).call_count == old(self).call_count,
            final(self).success_count == old(self).success_count,
            final(self).failure_count == old(self).failure_count,
    {
        self.latencies.record(latency_us);
        self.update_last_access(clock);
    }

    /// Records one call: the call count, the latency sample and the outcome count.
    fn record_call(&mut self, latency_us: u64, success: bool, clock: &mut MonotonicClock)
        requires
            old(self).latencies.wf(),
        ensures
            call_recorded(*old(self), *final(self), latency_us, success, final(clock).last_spec()),
            final(clock).last_spec() >= succ_sat(old(clock).last_spec()),
    {
        self.increment_call(clock);
        self.record_latency(latency_us, clock);
        if success {
            self.increment_success(clock);
        } else {
            self.increment_failure(clock);
        }
    }

    /// Counters and latency percentiles of this method.
    pub fn snapshot(&self) -> (m: MethodMetrics)
        requires
            self.latencies.wf(),
        ensures
            m.call_count == self.call_count,
            m.success_count == self.success_count,
            m.failure_count == self.failure_count,
            (m.avg_latency_us, m.p50_latency_us, m.p95_latency_us, m.p99_latency_us)
                == percentiles_of(self.latencies@.samples),
    {
        let (avg, p50, p95, p99) = self.latencies.calculate_percentiles();
        MethodMetrics {
            call_count: self.call_count,
            success_count: self.success_count,
            failure_count: self.failure_count,
            avg_latency_us: avg,
            p50_latency_us: p50,
            p95_latency_us: p95,
            p99_latency_us: p99,
        }
    }
}

/// Requests forwarded to one node.
#[derive(Debug)]
pub struct NodeStats {
    /// Total number of requests forwarded to this node
    pub request_count: u64,
    /// Time (ms) of the last request
    pub last_request_ms: u64,
}

impl Stamped for NodeStats {
    open spec fn stamp_spec(&self) -> u64 {
        self.last_request_ms
    }

    fn stamp(&self) -> (r: u64) {
        self.last_request_ms
    }
}

impl NodeStats {
    /// No requests yet; the last-request time is zero.
    pub fn new() -> (s: Self)
        ensures
            s.request_count == 0,
            s.last_request_ms == 0,
    {
        NodeStats { request_count: 0, last_request_ms: 0 }
    }

    /// Counts one more request, made now.
    pub fn record_request(&mut self, clock: &mut MonotonicClock)
        ensures
            final(self).request_count == wrapping_inc(old(self).request_count),
            final(self).last_request_ms == final(clock).last_spec(),
            final(clock).last_spec() >= succ_sat(old(clock).last_spec()),
    {
        self.request_count = self.request_count.wrapping_add(1);
        self.last_request_ms = get_monotonic_timestamp(clock);
    }

    /// The metrics of this node under the address `node_addr`.
    pub fn snapshot(&self, node_addr: String) -> (m: NodeMetrics)
        ensures
            m.node_addr == node_addr,
            m.request_count == self.request_count,
            m.last_request_ms == self.last_request_ms,
    {
        NodeMetrics { node_addr, request_count: self.request_count, last_request_ms: self.last_request_ms }
    }
}

impl Default for NodeStats {
    /// No requests yet.
    fn default() -> (s: Self)
        ensures
            s.request_count == 0,
            s.last_request_ms == 0,
    {
        NodeStats::new()
    }
}

/// Counters and tables of metrics for one server.
///
/// Every `CLEANUP_INTERVAL` recording operations (the first one included), stale
/// method and node entries are dropped and the tables are cut to their size
/// limits, least recently used first. Clean-up never touches the counters.
#[derive(Debug)]
pub struct MetricsRegistry {
    total_requests: u64,
    successful_requests: u64,
    failed_requests: u64,
    active_connections: u64,
    methods: Vec<(String, MethodStats)>,
    nodes: Vec<(String, NodeStats)>,
    start_time: Instant,
    config: MetricsConfig,
    cleanup_counter: u64,
    clock: MonotonicClock,
}

/// The abstract state of a registry.
pub ghost struct RegistryView {
    pub total_requests: u64,
    pub successful_requests: u64,
    pub failed_requests: u64,
    pub active_connections: u64,
    pub methods: Seq<(String, MethodStats)>,
    pub nodes: Seq<(String, NodeStats)>,
    pub config: MetricsConfig,
    pub cleanup_counter: u64,
    pub clock_last: u64,
}

/// The default configuration: 1000 methods, 100 nodes, one hour of
/// time-to-live for both.
pub open spec fn default_metrics_config() -> MetricsConfig {
    MetricsConfig { max_methods: 1000, max_nodes: 100, method_ttl_secs: 3600, node_ttl_secs: 3600 }
}

/// A registry with `config` and nothing recorded: all counters zero, no
/// method, no node, no clean-up run yet, and a clock that has issued nothing.
pub open spec fn fresh_registry(v: RegistryView, config: MetricsConfig) -> bool {
    &&& v.total_requests == 0
    &&& v.successful_requests == 0
    &&& v.failed_requests == 0
    &&& v.active_connections == 0
    &&& v.methods.len() == 0
    &&& v.nodes.len() == 0
    &&& v.cleanup_counter == 0
    &&& v.clock_last == 0
    &&& v.config == config
}

/// The method table after the clean-up that an operation starting in `r` runs
/// at time `now` (only when the operation counter is at a multiple of the interval).
pub open spec fn methods_after_cleanup(r: RegistryView, now: u64) -> Seq<(String, MethodStats)> {
    if r.cleanup_counter % CLEANUP_INTERVAL == 0 {
        cleaned(r.methods, now, (r.config.method_ttl_secs * 1000) as u64, r.config.max_methods as nat)
    } else {
        r.methods
    }
}

/// The node table after the clean-up that an operation starting in `r` runs at time `now`.
pub open spec fn nodes_after_cleanup(r: RegistryView, now: u64) -> Seq<(String, NodeStats)> {
    if r.cleanup_counter % CLEANUP_INTERVAL == 0 {
        cleaned(r.nodes, now, (r.config.node_ttl_secs * 1000) as u64, r.config.max_nodes as nat)
    } else {
        r.nodes
    }
}

/// `fin` is `mid` with one call of `name` recorded at `stamp`: the existing entry
/// is updated in place, or a new entry is appended.
pub open spec fn method_call_recorded(
    mid: Seq<(String, MethodStats)>,
    fin: Seq<(String, MethodStats)>,
    name: Seq<char>,
    latency_us: u64,
    success: bool,
    stamp: u64,
) -> bool {
    let i = key_index(mid, name);
    if i >= 0 {
        &&& fin.len() == mid.len()
        &&& forall|j: int| 0 <= j < mid.len() && j != i ==> fin[j] == mid[j]
        &&& fin[i].0 == mid[i].0
        &&& call_recorded(mid[i].1, fin[i].1, latency_us, success, stamp)
    } else {
        &&& fin.len() == mid.len() + 1
        &&& forall|j: int| 0 <= j < mid.len() ==> fin[j] == mid[j]
        &&& fin[mid.len() as int].0@ == name
        &&& first_call_recorded(fin[mid.len() as int].1, latency_us, success, stamp)
    }
}

/// `fin` is `mid` with one request to `name` recorded at `stamp`.
pub open spec fn node_request_recorded(
    mid: Seq<(String, NodeStats)>,
    fin: Seq<(String, NodeStats)>,
    name: Seq<char>,
    stamp: u64,
) -> bool {
    let i = key_index(mid, name);
    if i >= 0 {
        &&& fin.len() == mid.len()
        &&& forall|j: int| 0 <= j < mid.len() && j != i ==> fin[j] == mid[j]
        &&& fin[i].0 == mid[i].0
        &&& fin[i].1.request_count == wrapping_inc(mid[i].1.request_count)
        &&& fin[i].1.last_request_ms == stamp
    } else {
        &&& fin.len() == mid.len() + 1
        &&& forall|j: int| 0 <= j < mid.len() ==> fin[j] == mid[j]
        &&& fin[mid.len() as int].0@ == name
        &&& fin[mid.len() as int].1.request_count == 1
        &&& fin[mid.len() as int].1.last_request_ms == stamp
    }
}

/// `after` is `before` once a call of `method` that took `latency_us` with
/// outcome `success` is recorded: the counters count it, the periodic clean-up
/// runs at some time `t` between the two clock readings, and the method's entry
/// records the call.
pub open spec fn method_call_applied(
    before: RegistryView,
    after: RegistryView,
    method: Seq<char>,
    latency_us: u64,
    success: bool,
) -> bool {
    &&& after.total_requests == wrapping_inc(before.total_requests)
    &&& after.successful_requests == if success {
        wrapping_inc(before.successful_requests)
    } else {
        before.successful_requests
    }
    &&& after.failed_requests == if success {
        before.failed_requests
    } else {
        wrapping_inc(before.failed_requests)
    }
    &&& after.active_connections == before.active_connections
    &&& after.config == before.config
    &&& after.cleanup_counter == wrapping_inc(before.cleanup_counter)
    &&& after.clock_last >= succ_sat(before.clock_last)
    &&& exists|t: u64|
        before.clock_last <= t <= after.clock_last
        && #[trigger] method_call_recorded(
            methods_after_cleanup(before, t),
            after.methods,
            method,
            latency_us,
            success,
            after.clock_last,
        )
        && after.nodes == nodes_after_cleanup(before, t)
}

/// `after` is `before` once a request forwarded to `node_addr` is recorded:
/// the counters are untouched, the periodic clean-up runs at some time `t`
/// between the two clock readings, and the node's entry counts the request.
pub open spec fn node_request_applied(before: RegistryView, after: RegistryView, node_addr: Seq<char>) -> bool {
    &&& after.total_requests == before.total_requests
    &&& after.successful_requests == before.successful_requests
    &&& after.failed_requests == before.failed_requests
    &&& after.active_connections == before.active_connections
    &&& after.config == before.config
    &&& after.cleanup_counter == wrapping_inc(before.cleanup_counter)
    &&& after.clock_last >= succ_sat(before.clock_last)
    &&& exists|t: u64|
        before.clock_last <= t <= after.clock_last
        && #[trigger] node_request_recorded(
            nodes_after_cleanup(before, t),
            after.nodes,
            node_addr,
            after.clock_last,
        )
        && after.methods == methods_after_cleanup(before, t)
}

/// The metrics of `stats`, as a snapshot reports them.
pub open spec fn method_metrics_of(stats: MethodStats) -> MethodMetrics {
    let p = percentiles_of(stats.latencies@.samples);
    MethodMetrics {
        call_count: stats.call_count,
        success_count: stats.success_count,
        failure_count: stats.failure_count,
        avg_latency_us: p.0,
        p50_latency_us: p.1,
        p95_latency_us: p.2,
        p99_latency_us: p.3,
    }
}

impl View for MetricsRegistry {
    type V = RegistryView;

    closed spec fn view(&self) -> RegistryView {
        RegistryView {
            total_requests: self.total_requests,
            successful_requests: self.successful_requests,
            failed_requests: self.failed_requests,
            active_connections: self.active_connections,
            methods: self.methods@,
            nodes: self.nodes@,
            config: self.config,
            cleanup_counter: self.cleanup_counter,
            clock_last: self.clock.last_spec(),
        }
    }
}

/// Names are distinct and every latency buffer is well formed.
pub open spec fn methods_wf(ms: Seq<(String, MethodStats)>) -> bool {
    &&& distinct_keys(ms)
    &&& forall|i: int| 0 <= i < ms.len() ==> (#[trigger] ms[i]).1.latencies.wf()
}

impl MetricsRegistry {
    /// The configuration is valid, names are distinct, buffers are well formed.
    pub open spec fn wf(&self) -> bool {
        &&& self@.config.wf()
        &&& methods_wf(self@.methods)
        &&& distinct_keys(self@.nodes)
    }

    /// A registry with the default configuration.
    pub fn new() -> (r: Self)
        ensures
            r.wf(),
            fresh_registry(r@, default_metrics_config()),
    {
        Self::with_config(MetricsConfig::default())
    }

    /// A registry with the given configuration and nothing recorded.
    pub fn with_config(config: MetricsConfig) -> (r: Self)
        requires
            config.wf(),
        ensures
            r.wf(),
            fresh_registry(r@, config),
    {
        MetricsRegistry {
            total_requests: 0,
            successful_requests: 0,
            failed_requests: 0,
            active_connections: 0,
            methods: Vec::new(),
            nodes: Vec::new(),
            start_time: instant_now(),
            config,
            cleanup_counter: 0,
            clock: MonotonicClock::new(),
        }
    }

    /// The configuration.
    pub fn config(&self) -> (c: MetricsConfig)
        ensures
            c == self@.config,
    {
        self.config
    }

    /// Counts one more request.
    pub fn increment_total(&mut self)
        ensures
            final(self)@ == (RegistryView { total_requests: wrapping_inc(old(self)@.total_requests), ..old(self)@ }),
    {
        self.total_requests = self.total_requests.wrapping_add(1);
    }

    /// Counts one more successful request.
    pub fn increment_success(&mut self)
        ensures
            final(self)@ == (RegistryView { successful_requests: wrapping_inc(old(self)@.successful_requests), ..old(self)@ }),
    {
        self.successful_requests = self.successful_requests.wrapping_add(1);
    }

    /// Counts one more failed request.
    pub fn increment_failure(&mut self)
        ensures
            final(self)@ == (RegistryView { failed_requests: wrapping_inc(old(self)@.failed_requests), ..old(self)@ }),
    {
        self.failed_requests = self.failed_requests.wrapping_add(1);
    }

    /// Counts one more open connection.
    pub fn increment_active_connections(&mut self)
        ensures
            final(self)@ == (RegistryView { active_connections: wrapping_inc(old(self)@.active_connections), ..old(self)@ }),
    {
        self.active_connections = self.active_connections.wrapping_add(1);
    }

    /// Counts one connection less (wrapping below zero, as the atomic counter does).
    pub fn decrement_active_connections(&mut self)
        ensures
            final(self)@ == (RegistryView { active_connections: wrapping_dec(old(self)@.active_connections), ..old(self)@ }),
    {
        self.active_connections = self.active_connections.wrapping_sub(1);
    }

    /// Drops stale entries and cuts both tables to their limits, at the current time.
    pub fn cleanup_stale_entries(&mut self)
        requires
            old(self).wf(),
        ensures
            final(self).wf(),
            final(self)@.clock_last >= succ_sat(old(self)@.clock_last),
            final(self)@.methods == cleaned(
                old(self)@.methods,
                final(self)@.clock_last,
                (old(self)@.config.method_ttl_secs * 1000) as u64,
                old(self)@.config.max_methods as nat,
            ),
            final(self)@.nodes == cleaned(
                old(self)@.nodes,
                final(self)@.clock_last,
                (old(self)@.config.node_ttl_secs * 1000) as u64,
                old(self)@.config.max_nodes as nat,
            ),
            final(self)@ == (RegistryView {
                methods: final(self)@.methods,
                nodes: final(self)@.nodes,
                clock_last: final(self)@.clock_last,
                ..old(self)@
            }),
    {
        let now = get_monotonic_timestamp(&mut self.clock);
        let method_ttl_ms = self.config.method_ttl_secs * 1000;
        let node_ttl_ms = self.config.node_ttl_secs * 1000;
        let ghost ms = self.methods@;
        let ghost ns = self.nodes@;
        clean_table(&mut self.methods, now, method_ttl_ms, self.config.max_methods);
        clean_table(&mut self.nodes, now, node_ttl_ms, self.config.max_nodes);
        proof {
            lemma_cleaned_wf(ms, now, method_ttl_ms, self.config.max_methods as nat);
            lemma_cleaned_distinct(ns, now, node_ttl_ms, self.config.max_nodes as nat);
        }
    }

    /// Counts one operation, and cleans up when the count before it is a
    /// multiple of `CLEANUP_INTERVAL`.
    pub fn maybe_cleanup(&mut self)
        requires
            old(self).wf(),
        ensures
            final(self).wf(),
            final(self)@.cleanup_counter == wrapping_inc(old(self)@.cleanup_counter),
            final(self)@.clock_last >= old(self)@.clock_last,
            final(self)@.methods == methods_after_cleanup(old(self)@, final(self)@.clock_last),
            final(self)@.nodes == nodes_after_cleanup(old(self)@, final(self)@.clock_last),
            final(self)@ == (RegistryView {
                methods: final(self)@.methods,
                nodes: final(self)@.nodes,
                clock_last: final(self)@.clock_last,
                cleanup_counter: final(self)@.cleanup_counter,
                ..old(self)@
            }),
    {
        let count = self.cleanup_counter;
        self.cleanup_counter = count.wrapping_add(1);
        if count % CLEANUP_INTERVAL == 0 {
            self.cleanup_stale_entries();
        }
    }

    /// Records a call of `method`: counts the request and its outcome, runs the
    /// periodic clean-up, then records the call, its latency and its outcome in
    /// the method's entry (created when absent).
    pub fn record_method_call(&mut self, method: &str, latency_us: u64, success: bool)
        requires
            old(self).wf(),
        ensures
            final(self).wf(),
            method_call_applied(old(self)@, final(self)@, method@, latency_us, success),
    {
        let ghost pre = self@;
        self.increment_total();
        if success {
            self.increment_success();
        } else {
            self.increment_failure();
        }
        self.maybe_cleanup();
        let ghost t = self.clock.last_spec();
        let ghost mid = self.methods@;
        assert(mid == methods_after_cleanup(pre, t));
        assert(self.nodes@ == nodes_after_cleanup(pre, t));
        proof {
            lemma_key_index(mid, method@);
        }
        match find_key(&self.methods, method) {
            Some(i) => {
                let (name, mut stats) = self.methods.remove(i);
                stats.record_call(latency_us, success, &mut self.clock);
                self.methods.insert(i, (name, stats));
                proof {
                    assert(forall|j: int| 0 <= j < mid.len() && j != i ==> self.methods@[j] == mid[j]);
                    assert(method_call_recorded(mid, self.methods@, method@, latency_us, success, self.clock.last_spec()));
                    assert forall|a: int, b: int| 0 <= a < b < self.methods@.len()
                        implies self.methods@[a].0@ != self.methods@[b].0@ by {
                        assert(mid[a].0@ != mid[b].0@);
                    }
                    assert(method_call_recorded(methods_after_cleanup(pre, t), self@.methods, method@, latency_us, success, self@.clock_last));
                }
            },
            None => {
                let mut stats = MethodStats::new(&mut self.clock);
                stats.record_call(latency_us, success, &mut self.clock);
                self.methods.push((method.to_owned(), stats));
                proof {
                    assert forall|a: int, b: int| 0 <= a < b < self.methods@.len()
                        implies self.methods@[a].0@ != self.methods@[b].0@ by {
                        if b == mid.len() {
                            assert(mid[a].0@ != method@);
                        }
                    }
                    assert(method_call_recorded(mid, self.methods@, method@, latency_us, success, self.clock.last_spec()));
                    assert(method_call_recorded(methods_after_cleanup(pre, t), self@.methods, method@, latency_us, success, self@.clock_last));
                }
            },
        }
    }

    /// Records a request forwarded to `node_addr`: runs the periodic clean-up,
    /// then counts the request in the node's entry (created when absent).
    pub fn record_node_request(&mut self, node_addr: &str)
        requires
            old(self).wf(),
        ensures
            final(self).wf(),
            node_request_applied(old(self)@, final(self)@, node_addr@),
    {
        let ghost pre = self@;
        self.maybe_cleanup();
        let ghost t = self.clock.last_spec();
        let ghost mid = self.nodes@;
        assert(mid == nodes_after_cleanup(pre, t));
        assert(self.methods@ == methods_after_cleanup(pre, t));
        proof {
            lemma_key_index(mid, node_addr@);
        }
        match find_key(&self.nodes, node_addr) {
            Some(i) => {
                let (name, mut stats) = self.nodes.remove(i);
                stats.record_request(&mut self.clock);
                self.nodes.insert(i, (name, stats));
                proof {
                    assert(forall|j: int| 0 <= j < mid.len() && j != i ==> self.nodes@[j] == mid[j]);
                    assert forall|a: int, b: int| 0 <= a < b < self.nodes@.len()
                        implies self.nodes@[a].0@ != self.nodes@[b].0@ by {
                        assert(mid[a].0@ != mid[b].0@);
                    }
                    assert(node_request_recorded(nodes_after_cleanup(pre, t), self@.nodes, node_addr@, self@.clock_last));
                }
            },
            None => {
                let mut stats = NodeStats::new();
                stats.record_request(&mut self.clock);
                self.nodes.push((node_addr.to_owned(), stats));
                proof {
                    assert forall|a: int, b: int| 0 <= a < b < self.nodes@.len()
                        implies self.nodes@[a].0@ != self.nodes@[b].0@ by {
                        if b == mid.len() {
                            assert(mid[a].0@ != node_addr@);
                        }
                    }
                    assert(node_request_recorded(nodes_after_cleanup(pre, t), self@.nodes, node_addr@, self@.clock_last));
                }
            },
        }
    }

    /// Milliseconds since the registry was created. Nothing is stated of the
    /// value; it depends on when the call is made.
    pub fn uptime_ms(&self) -> u64 {
        instant_elapsed_ms(&self.start_time)
    }

    /// A snapshot of all metrics, with the current uptime; per-node metrics
    /// are included iff `include_nodes`.
    pub fn snapshot(&self, include_nodes: bool) -> (s: MetricsSnapshot)
        requires
            self.wf(),
        ensures
            self.snapshot_matches(s, include_nodes, s.uptime_ms),
    {
        let uptime_ms = self.uptime_ms();
        self.snapshot_at(include_nodes, uptime_ms)
    }

    /// `s` reports the counters and tables of this registry, with uptime `uptime_ms`.
    pub open spec fn snapshot_matches(&self, s: MetricsSnapshot, include_nodes: bool, uptime_ms: u64) -> bool {
        &&& s.total_requests == self@.total_requests
        &&& s.successful_requests == self@.successful_requests
        &&& s.failed_requests == self@.failed_requests
        &&& s.active_connections == self@.active_connections
        &&& s.uptime_ms == uptime_ms
        &&& s.methods.wf()
        &&& s.methods.entries().len() == self@.methods.len()
        &&& forall|i: int| 0 <= i < self@.methods.len() ==>
            (#[trigger] s.methods.entries()[i]).0 == self@.methods[i].0
            && s.methods.entries()[i].1 == method_metrics_of(self@.methods[i].1)
        &&& s.nodes is Some == include_nodes
        &&& s.nodes matches Some(n) ==> {
            &&& n.wf()
            &&& n.entries().len() == self@.nodes.len()
            &&& forall|i: int| 0 <= i < self@.nodes.len() ==>
                (#[trigger] n.entries()[i]).0 == self@.nodes[i].0
                && n.entries()[i].1.node_addr == self@.nodes[i].0
                && n.entries()[i].1.request_count == self@.nodes[i].1.request_count
                && n.entries()[i].1.last_request_ms == self@.nodes[i].1.last_request_ms
        }
    }

    /// A snapshot of all metrics reporting `uptime_ms` as the uptime.
    pub fn snapshot_at(&self, include_nodes: bool, uptime_ms: u64) -> (s: MetricsSnapshot)
        requires
            self.wf(),
        ensures
            self.snapshot_matches(s, include_nodes, uptime_ms),
    {
        let mut methods: Vec<(String, MethodMetrics)> = Vec::new();
        let mut i: usize = 0;
        while i < self.methods.len()
            invariant
                i <= self.methods@.len(),
                self.wf(),
                methods@.len() == i,
                forall|j: int| 0 <= j < i ==>
                    (#[trigger] methods@[j]).0 == self.methods@[j].0
                    && methods@[j].1 == method_metrics_of(self.methods@[j].1),
            decreases self.methods@.len() - i,
        {
            proof {
                assert(self.methods@[i as int].1.latencies.wf());
            }
            let m = self.methods[i].1.snapshot();
            methods.push((self.methods[i].0.clone(), m));
            i = i + 1;
        }
        proof {
            assert forall|a: int, b: int| 0 <= a < b < methods@.len()
                implies methods@[a].0@ != methods@[b].0@ by {
                assert(methods@[a].0 == self.methods@[a].0);
                assert(methods@[b].0 == self.methods@[b].0);
            }
        }
        let method_map = NamedMap::from_entries(methods);
        let nodes = if include_nodes {
            let mut entries: Vec<(String, NodeMetrics)> = Vec::new();
            let mut k: usize = 0;
            while k < self.nodes.len()
                invariant
                    k <= self.nodes@.len(),
                    entries@.len() == k,
                    forall|j: int| 0 <= j < k ==>
                        (#[trigger] entries@[j]).0 == self.nodes@[j].0
                        && entries@[j].1.node_addr == self.nodes@[j].0
                        && entries@[j].1.request_count == self.nodes@[j].1.request_count
                        && entries@[j].1.last_request_ms == self.nodes@[j].1.last_request_ms,
                decreases self.nodes@.len() - k,
            {
                let m = self.nodes[k].1.snapshot(self.nodes[k].0.clone());
                entries.push((self.nodes[k].0.clone(), m));
                k = k + 1;
            }
            proof {
                assert forall|a: int, b: int| 0 <= a < b < entries@.len()
                    implies entries@[a].0@ != entries@[b].0@ by {
                    assert(entries@[a].0 == self.nodes@[a].0);
                    assert(entries@[b].0 == self.nodes@[b].0);
                }
            }
            Some(NamedMap::from_entries(entries))
        } else {
            None
        };
        MetricsSnapshot {
            total_requests: self.total_requests,
            successful_requests: self.successful_requests,
            failed_requests: self.failed_requests,
            active_connections: self.active_connections,
            uptime_ms,
            methods: method_map,
            nodes,
        }
    }
}

impl Default for MetricsRegistry {
    /// A registry with the default configuration.
    fn default() -> (r: Self)
        ensures
            r.wf(),
            fresh_registry(r@, default_metrics_config()),
    {
        Self::new()
    }
}

/// Clean-up keeps names distinct.
pub proof fn lemma_cleaned_distinct<V: Stamped>(s: Seq<(String, V)>, now: u64, ttl_ms: u64, max: nat)
    requires
        distinct_keys(s),
    ensures
        distinct_keys(cleaned(s, now, ttl_ms, max)),
{
    crate::table::lemma_filter_distinct(s, crate::table::fresh_at(now, ttl_ms));
    crate::table::lemma_evict_keeps_recent(s.filter(crate::table::fresh_at(now, ttl_ms)), max);
    lemma_evict_distinct(s.filter(crate::table::fresh_at(now, ttl_ms)), max);
}

/// Clean-up keeps the method table well formed.
pub proof fn lemma_cleaned_wf(s: Seq<(String, MethodStats)>, now: u64, ttl_ms: u64, max: nat)
    requires
        methods_wf(s),
    ensures
        methods_wf(cleaned(s, now, ttl_ms, max)),
{
    lemma_cleaned_distinct(s, now, ttl_ms, max);
    let f = s.filter(crate::table::fresh_at(now, ttl_ms));
    crate::table::lemma_evict_keeps_recent(f, max);
    let c = cleaned(s, now, ttl_ms, max);
    assert forall|i: int| 0 <= i < c.len() implies (#[trigger] c[i]).1.latencies.wf() by {
        assert(f.contains(c[i]));
        s.lemma_filter_contains_rev(crate::table::fresh_at(now, ttl_ms), c[i]);
    }
}

/// Eviction keeps names distinct.
pub proof fn lemma_evict_distinct<V: Stamped>(s: Seq<(String, V)>, max: nat)
    requires
        distinct_keys(s),
    ensures
        distinct_keys(crate::table::evict_lru(s, max)),
    decreases s.len(),
{
    if s.len() > max {
        crate::table::lemma_oldest_index(s);
        let r = s.remove(crate::table::oldest_index(s));
        assert(distinct_keys(r)) by {
            let o = crate::table::oldest_index(s);
            assert forall|a: int, b: int| 0 <= a < b < r.len() implies r[a].0@ != r[b].0@ by {
                let sa = if a < o { a } else { a + 1 };
                let sb = if b < o { b } else { b + 1 };
                assert(r[a] == s[sa]);
                assert(r[b] == s[sb]);
            }
        }
        lemma_evict_distinct(r, max);
    }
}

} // verus!
