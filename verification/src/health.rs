//! Health-check decisions: what a check result means for a node, and how it
//! is applied to the load balancer. The checks themselves (HTTP requests on a
//! timer) are run by the application.

use vstd::prelude::*;
use std::time::Duration;
use crate::clock::{duration_from_millis, duration_of_millis};
use crate::error::{error_message, MadrpcError};
use crate::load_balancer::{
    auto_disabled, auto_enabled, failure_count_below_max, health_status_updated, lb_inv, LbView,
    LoadBalancer,
};
use crate::named_map::{key_index, lemma_key_index, lemma_key_index_same_keys};
use crate::node::{DisableReason, HealthCheckStatus, Node};
use crate::text::push_str;

verus! {

/// What a health check result means for one node.
#[derive(Debug)]
pub struct HealthCheckUpdate {
    /// The node checked
    pub node_addr: String,
    /// The result of the check
    pub status: HealthCheckStatus,
    /// Re-enable the node (it recovered after being disabled by health checks)
    pub should_enable: bool,
    /// Disable the node (too many consecutive failures)
    pub should_disable: bool,
}

/// Health check schedule and failure threshold.
#[derive(Debug, Clone, Copy)]
pub struct HealthCheckConfig {
    /// Time between two rounds of checks
    pub interval: Duration,
    /// Time allowed for one check
    pub timeout: Duration,
    /// Consecutive failures after which a node is disabled
    pub failure_threshold: u32,
}

impl Default for HealthCheckConfig {
    /// A round every 5 s, 2 s per check, disabled after 3 failures.
    fn default() -> (c: Self)
        ensures
            c.interval == duration_of_millis(5000),
            c.timeout == duration_of_millis(2000),
            c.failure_threshold == 3,
    {
        HealthCheckConfig {
            interval: duration_from_millis(5000),
            timeout: duration_from_millis(2000),
            failure_threshold: 3,
        }
    }
}

/// The failure count of `addr` in the balancer (zero for an unknown node).
pub open spec fn failures_of(v: LbView, addr: Seq<char>) -> u32 {
    if key_index(v.nodes, addr) >= 0 {
        v.nodes[key_index(v.nodes, addr)].1.consecutive_failures
    } else {
        0u32
    }
}

/// `u` is the update for `node` after a check with `result`, given the
/// balancer `v` and the failure threshold: a success re-enables a node
/// disabled by health checks; a failure disables an enabled node, unless it
/// was disabled manually, once its failures (counting this one) reach the
/// threshold.
pub open spec fn update_for(
    v: LbView,
    threshold: u32,
    node: Node,
    result: Result<(), MadrpcError>,
    u: HealthCheckUpdate,
) -> bool {
    &&& u.node_addr@ == node.addr@
    &&& match result {
        Ok(_) => {
            &&& u.status == HealthCheckStatus::Healthy
            &&& u.should_enable == (!node.enabled && node.disable_reason == Some(DisableReason::HealthCheck))
            &&& !u.should_disable
        },
        Err(e) => {
            &&& u.status matches HealthCheckStatus::Unhealthy(m) && m@ == error_message(e)
            &&& !u.should_enable
            &&& u.should_disable == (failures_of(v, node.addr@) + 1 >= threshold && node.enabled
                && node.disable_reason != Some(DisableReason::Manual))
        },
    }
}

/// Whether `auto_enable_node(addr)` acts on `v`.
pub open spec fn auto_enables(v: LbView, addr: Seq<char>) -> bool {
    key_index(v.nodes, addr) >= 0 && v.nodes[key_index(v.nodes, addr)].1.disable_reason == Some(DisableReason::HealthCheck)
}

/// Whether `auto_disable_node(addr)` acts on `v`.
pub open spec fn auto_disables(v: LbView, addr: Seq<char>) -> bool {
    key_index(v.nodes, addr) >= 0 && v.nodes[key_index(v.nodes, addr)].1.disable_reason != Some(DisableReason::Manual)
}

/// `before`, `v1`, `v2`, `after` are the balancer before `u`, once the check
/// result is recorded, once the node is re-enabled if `u` says so, and once it
/// is disabled if `u` says so.
pub open spec fn update_steps(before: LbView, v1: LbView, v2: LbView, after: LbView, u: HealthCheckUpdate) -> bool {
    &&& health_status_updated(before, v1, u.node_addr@, u.status)
    &&& if u.should_enable { auto_enabled(v1, v2, u.node_addr@, auto_enables(v1, u.node_addr@)) } else { v2 == v1 }
    &&& if u.should_disable { auto_disabled(v2, after, u.node_addr@, auto_disables(v2, u.node_addr@)) } else { after == v2 }
}

/// `after` is `before` once `u` is applied: the check result is recorded,
/// then the node is re-enabled if `u` says so, then disabled if `u` says so.
pub open spec fn update_applied(before: LbView, after: LbView, u: HealthCheckUpdate) -> bool {
    exists|v1: LbView, v2: LbView| #[trigger] update_steps(before, v1, v2, after, u)
}

/// The node named `addr` in `v` is disabled manually.
pub open spec fn manually_disabled_in(v: LbView, addr: Seq<char>) -> bool {
    &&& key_index(v.nodes, addr) >= 0
    &&& v.nodes[key_index(v.nodes, addr)].1.disable_reason == Some(DisableReason::Manual)
    &&& !v.nodes[key_index(v.nodes, addr)].1.enabled
}

/// One step of a health update keeps the names of the table, and keeps a
/// manual disabling of `addr`.
proof fn lemma_step_keeps_manual(v: LbView, w: LbView, i: int, addr: Seq<char>)
    requires
        manually_disabled_in(v, addr),
        0 <= i < v.nodes.len(),
        w.nodes.len() == v.nodes.len(),
        forall|j: int| 0 <= j < v.nodes.len() && j != i ==> w.nodes[j] == v.nodes[j],
        w.nodes[i].0 == v.nodes[i].0,
        i == key_index(v.nodes, addr) ==> w.nodes[i].1.disable_reason == v.nodes[i].1.disable_reason
            && w.nodes[i].1.enabled == v.nodes[i].1.enabled,
    ensures
        manually_disabled_in(w, addr),
{
    assert forall|j: int| 0 <= j < v.nodes.len() implies v.nodes[j].0@ == w.nodes[j].0@ by {
        if j != i {
            assert(w.nodes[j] == v.nodes[j]);
        }
    }
    lemma_key_index_same_keys(v.nodes, w.nodes, addr);
    lemma_key_index(v.nodes, addr);
    let j = key_index(v.nodes, addr);
    if j != i {
        assert(w.nodes[j] == v.nodes[j]);
    }
}

/// A node disabled manually stays disabled, for the same reason, whatever
/// health update is applied: health checks never re-enable it and never
/// take over its disabling.
pub proof fn lemma_manual_disable_survives_health_update(
    before: LbView,
    after: LbView,
    u: HealthCheckUpdate,
    addr: Seq<char>,
)
    requires
        lb_inv(before.nodes, before.enabled),
        update_applied(before, after, u),
        key_index(before.nodes, addr) >= 0,
        before.nodes[key_index(before.nodes, addr)].1.disable_reason == Some(DisableReason::Manual),
    ensures
        manually_disabled_in(after, addr),
{
    let i0 = key_index(before.nodes, addr);
    lemma_key_index(before.nodes, addr);
    assert(before.nodes[i0].1.enabled <==> before.nodes[i0].1.disable_reason is None);
    let (v1, v2) = choose|v1: LbView, v2: LbView| #[trigger] update_steps(before, v1, v2, after, u);
    let a = u.node_addr@;
    lemma_key_index(before.nodes, a);
    if key_index(before.nodes, a) >= 0 {
        let k = key_index(before.nodes, a);
        if k == i0 {
            assert(a == addr);
        }
        lemma_step_keeps_manual(before, v1, k, addr);
    } else {
        assert(v1 == before);
    }
    if u.should_enable {
        lemma_key_index(v1.nodes, a);
        lemma_key_index(v1.nodes, addr);
        if auto_enables(v1, a) {
            let k = key_index(v1.nodes, a);
            if k == key_index(v1.nodes, addr) {
                assert(a == addr);
            }
            lemma_step_keeps_manual(v1, v2, k, addr);
        } else {
            assert(v2 == v1);
        }
    }
    if u.should_disable {
        lemma_key_index(v2.nodes, a);
        lemma_key_index(v2.nodes, addr);
        if auto_disables(v2, a) {
            let k = key_index(v2.nodes, a);
            if k == key_index(v2.nodes, addr) {
                assert(a == addr);
            }
            lemma_step_keeps_manual(v2, after, k, addr);
        } else {
            assert(after == v2);
        }
    }
}

/// The URL checked for the node `addr`: "http://" + `addr` + "/__health".
pub fn health_check_url(addr: &str) -> (url: String)
    ensures
        url@ == "http://"@ + addr@ + "/__health"@,
{
    let mut url = "http://".to_owned();
    push_str(&mut url, addr);
    push_str(&mut url, "/__health");
    url
}

/// The outcome of a health check answered with HTTP status `status`
/// (displayed as `status_text`): healthy only for 200, else an unavailable node.
pub fn health_status_result(status: u16, status_text: &str) -> (r: Result<(), MadrpcError>)
    ensures
        status == 200 <==> r is Ok,
        r matches Err(e) ==> (e matches MadrpcError::NodeUnavailable(m)
            && m@ == "Health check returned status: "@ + status_text@),
{
    if status == 200 {
        Ok(())
    } else {
        let mut m = "Health check returned status: ".to_owned();
        push_str(&mut m, status_text);
        Err(MadrpcError::NodeUnavailable(m))
    }
}

/// Decides and applies what health check results mean for the nodes of a
/// load balancer.
#[derive(Debug)]
pub struct HealthChecker {
    config: HealthCheckConfig,
}

impl HealthChecker {
    /// A health checker with `config`; creation never fails.
    pub fn new(config: HealthCheckConfig) -> (r: Result<Self, MadrpcError>)
        ensures
            r matches Ok(h) && h.config() == config,
    {
        Ok(HealthChecker { config })
    }

    /// The configuration.
    pub closed spec fn config(&self) -> HealthCheckConfig {
        self.config
    }

    /// The configuration.
    pub fn get_config(&self) -> (c: HealthCheckConfig)
        ensures
            c == self.config(),
    {
        self.config
    }

    /// The update for `node` after a check that gave `result`.
    pub fn process_health_result(
        &self,
        lb: &LoadBalancer,
        node: &Node,
        result: Result<(), MadrpcError>,
    ) -> (u: HealthCheckUpdate)
        requires
            result is Err ==> failures_of(lb@, node.addr@) < u32::MAX,
        ensures
            update_for(lb@, self.config().failure_threshold, *node, result, u),
    {
        match result {
            Ok(()) => HealthCheckUpdate {
                node_addr: node.addr.clone(),
                status: HealthCheckStatus::Healthy,
                should_enable: !node.enabled && node.disable_reason == Some(DisableReason::HealthCheck),
                should_disable: false,
            },
            Err(e) => {
                let failures = lb.consecutive_failures(node.addr.as_str()) + 1;
                let should_disable = failures >= self.config.failure_threshold && node.enabled
                    && node.disable_reason != Some(DisableReason::Manual);
                HealthCheckUpdate {
                    node_addr: node.addr.clone(),
                    status: HealthCheckStatus::Unhealthy(e.message()),
                    should_enable: false,
                    should_disable,
                }
            },
        }
    }

    /// Applies `update` to the balancer: records the check result, then
    /// re-enables or disables the node as the update says (a node disabled
    /// manually is never touched by either).
    pub fn apply_health_update(&self, lb: &mut LoadBalancer, update: HealthCheckUpdate)
        requires
            old(lb).wf(),
            failure_count_below_max(old(lb)@, update.node_addr@, update.status),
        ensures
            final(lb).wf(),
            update_applied(old(lb)@, final(lb)@, update),
    {
        let ghost u = update;
        let ghost v0 = lb@;
        let HealthCheckUpdate { node_addr, status, should_enable, should_disable } = update;
        lb.update_health_status(node_addr.as_str(), status);
        let ghost v1 = lb@;
        let mut enabled = false;
        if should_enable {
            enabled = lb.auto_enable_node(node_addr.as_str());
        }
        let ghost v2 = lb@;
        let mut disabled = false;
        if should_disable {
            disabled = lb.auto_disable_node(node_addr.as_str());
        }
        proof {
            assert(update_steps(v0, v1, v2, lb@, u));
        }
    }
}

} // verus!
