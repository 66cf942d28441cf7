//! Round-robin load balancer over nodes with manual/automatic disabling and
//! circuit breakers.

use vstd::prelude::*;
use crate::clock::{instant_now, system_elapsed_ms};
use crate::named_map::{key_index, distinct_keys, find_key, lemma_key_index, lemma_key_index_unique};
use crate::node::{half_open_due_spec, CircuitBreakerConfig, CircuitBreakerState, DisableReason, HealthCheckStatus, Node};
use crate::text::str_eq;

verus! {

broadcast use vstd::seq_lib::group_filter_ensures;

/// Whether some element of `l` reads `a`.
pub open spec fn in_list(l: Seq<String>, a: Seq<char>) -> bool {
    exists|j: int| 0 <= j < l.len() && (#[trigger] l[j])@ == a
}

/// Strings other than `a`.
pub open spec fn other_than(a: Seq<char>) -> spec_fn(String) -> bool {
    |s: String| s@ != a
}

/// The invariant tying the node table to the list of enabled addresses.
pub open spec fn lb_inv(nodes: Seq<(String, Node)>, enabled: Seq<String>) -> bool {
    &&& distinct_keys(nodes)
    &&& forall|i: int| 0 <= i < nodes.len() ==> (#[trigger] nodes[i]).0 == nodes[i].1.addr
    &&& forall|i: int| 0 <= i < nodes.len() ==>
        ((#[trigger] nodes[i]).1.enabled <==> nodes[i].1.disable_reason is None)
    &&& forall|j: int| 0 <= j < enabled.len() ==>
        key_index(nodes, (#[trigger] enabled[j])@) >= 0 && nodes[key_index(nodes, enabled[j]@)].1.enabled
    &&& forall|i: int| 0 <= i < nodes.len() && (#[trigger] nodes[i]).1.enabled ==> in_list(enabled, nodes[i].0@)
}

/// One round-robin step from index `i` over `len` entries: `(i + 1) % len`, with
/// `usize::MAX + 1` wrapping to zero.
pub open spec fn rr_step(i: usize, len: nat) -> usize {
    ((if i == usize::MAX { 0 } else { i + 1 }) % (len as int)) as usize
}

/// The round-robin index after `j` steps from `i`.
pub open spec fn rr_iter(i: usize, len: nat, j: nat) -> usize
    decreases j,
{
    if j == 0 {
        i
    } else {
        rr_step(rr_iter(i, len, (j - 1) as nat), len)
    }
}

/// The abstract state of a load balancer.
pub ghost struct LbView {
    pub nodes: Seq<(String, Node)>,
    pub enabled: Seq<String>,
    pub index: usize,
    pub config: CircuitBreakerConfig,
}

/// The default circuit breaker: 5 failures trip it, 30 s doubling up to 300 s.
pub open spec fn default_circuit_config() -> CircuitBreakerConfig {
    CircuitBreakerConfig { failure_threshold: 5, base_timeout_secs: 30, max_timeout_secs: 300, backoff_multiplier: 2 }
}

/// `v` is a new balancer over `node_addrs` with `config`: every address has
/// a node and every node an address of the list, all nodes are as
/// `Node::new` makes them, the round robin follows the list from its start.
pub open spec fn fresh_balancer(v: LbView, node_addrs: Seq<String>, config: CircuitBreakerConfig) -> bool {
    &&& lb_inv(v.nodes, v.enabled)
    &&& v.enabled == node_addrs
    &&& v.index == 0
    &&& v.config == config
    &&& forall|j: int| 0 <= j < node_addrs.len() ==> key_index(v.nodes, (#[trigger] node_addrs[j])@) >= 0
    &&& forall|i: int| 0 <= i < v.nodes.len() ==> in_list(node_addrs, (#[trigger] v.nodes[i]).0@)
    &&& forall|i: int| 0 <= i < v.nodes.len() ==> LoadBalancer::is_fresh((#[trigger] v.nodes[i]).1)
}

/// Node `i` of `v` once its circuit has been checked with the reading
/// `elapsed[i]`: moved to half-open, its opening time cleared, if it is due
/// (see `half_open_due_spec`), unchanged otherwise.
pub open spec fn circuit_after(v: LbView, elapsed: Seq<Option<u128>>, i: int) -> (String, Node) {
    let b = v.nodes[i];
    if half_open_due_spec(b.1, v.config, elapsed[i]) {
        (b.0, Node { circuit_state: CircuitBreakerState::HalfOpen, circuit_opened_at: None, ..b.1 })
    } else {
        b
    }
}

/// `w` is `v` after checking every circuit with the readings `elapsed`: each
/// node is `circuit_after` its reading, everything else is unchanged, and
/// `any` tells whether some circuit was due.
pub open spec fn circuits_checked(v: LbView, w: LbView, elapsed: Seq<Option<u128>>, any: bool) -> bool {
    &&& w.config == v.config
    &&& w.index == v.index
    &&& w.enabled == v.enabled
    &&& w.nodes.len() == v.nodes.len()
    &&& forall|i: int| 0 <= i < v.nodes.len() ==> #[trigger] w.nodes[i] == circuit_after(v, elapsed, i)
    &&& any == exists|i: int| 0 <= i < v.nodes.len() && #[trigger] half_open_due_spec(v.nodes[i].1, v.config, elapsed[i])
}

/// Whether the enabled entry at round-robin position `idx` names a node whose circuit is not open.
pub open spec fn available_at(v: LbView, idx: usize) -> bool {
    let a = v.enabled[(idx % (v.enabled.len() as usize)) as int]@;
    let k = key_index(v.nodes, a);
    k >= 0 && v.nodes[k].1.circuit_state != CircuitBreakerState::Open
}

/// `after` is `before` after a health check with `status` (see `update_health_status`).
pub open spec fn health_applied(before: Node, after: Node, status: HealthCheckStatus, threshold: u32) -> bool {
    &&& after.addr == before.addr
    &&& after.enabled == before.enabled
    &&& after.disable_reason == before.disable_reason
    &&& after.last_health_check is Some
    &&& after.last_health_check_status == Some(status)
    &&& match status {
        HealthCheckStatus::Healthy => {
            &&& after.consecutive_failures == 0
            &&& if before.circuit_state == CircuitBreakerState::HalfOpen {
                after.circuit_state == CircuitBreakerState::Closed && after.circuit_opened_at is None
            } else {
                after.circuit_state == before.circuit_state && after.circuit_opened_at == before.circuit_opened_at
            }
        },
        HealthCheckStatus::Unhealthy(_) => {
            &&& after.consecutive_failures == before.consecutive_failures + 1
            &&& if before.circuit_state == CircuitBreakerState::HalfOpen
                || (before.circuit_state == CircuitBreakerState::Closed
                    && after.consecutive_failures >= threshold) {
                after.circuit_state == CircuitBreakerState::Open && after.circuit_opened_at is Some
            } else {
                after.circuit_state == before.circuit_state && after.circuit_opened_at == before.circuit_opened_at
            }
        },
    }
}

/// An unhealthy result can be counted for `addr` without overflow.
pub open spec fn failure_count_below_max(v: LbView, addr: Seq<char>, status: HealthCheckStatus) -> bool {
    key_index(v.nodes, addr) >= 0 && status is Unhealthy
        ==> v.nodes[key_index(v.nodes, addr)].1.consecutive_failures < u32::MAX
}

/// `w` is `v` after a health check of `addr` with `status` (see
/// `LoadBalancer::update_health_status`); nothing changes for an unknown address.
pub open spec fn health_status_updated(v: LbView, w: LbView, addr: Seq<char>, status: HealthCheckStatus) -> bool {
    &&& w.config == v.config
    &&& w.index == v.index
    &&& w.enabled == v.enabled
    &&& key_index(v.nodes, addr) >= 0 ==> {
        let i = key_index(v.nodes, addr);
        &&& w.nodes.len() == v.nodes.len()
        &&& forall|j: int| 0 <= j < v.nodes.len() && j != i ==> w.nodes[j] == v.nodes[j]
        &&& w.nodes[i].0 == v.nodes[i].0
        &&& health_applied(v.nodes[i].1, w.nodes[i].1, status, v.config.failure_threshold)
    }
    &&& key_index(v.nodes, addr) < 0 ==> w == v
}

/// `w` is `v` after `auto_disable_node(addr)` returned `done`: it acts iff
/// the node exists and was not disabled manually; it then marks the node
/// disabled by health checks and drops it from the round robin.
pub open spec fn auto_disabled(v: LbView, w: LbView, addr: Seq<char>, done: bool) -> bool {
    &&& w.config == v.config
    &&& w.index == v.index
    &&& done == (key_index(v.nodes, addr) >= 0
        && v.nodes[key_index(v.nodes, addr)].1.disable_reason != Some(DisableReason::Manual))
    &&& done ==> {
        let i = key_index(v.nodes, addr);
        &&& w.nodes == v.nodes.update(i, (v.nodes[i].0, Node {
            enabled: false,
            disable_reason: Some(DisableReason::HealthCheck),
            ..v.nodes[i].1
        }))
        &&& w.enabled == v.enabled.filter(other_than(addr))
    }
    &&& !done ==> w == v
}

/// `w` is `v` after `auto_enable_node(addr)` returned `done`: it acts iff the
/// node exists and was disabled by health checks; it then enables it as
/// `enable_node` does.
pub open spec fn auto_enabled(v: LbView, w: LbView, addr: Seq<char>, done: bool) -> bool {
    &&& w.config == v.config
    &&& w.index == v.index
    &&& done == (key_index(v.nodes, addr) >= 0
        && v.nodes[key_index(v.nodes, addr)].1.disable_reason == Some(DisableReason::HealthCheck))
    &&& done ==> LoadBalancer::enabled_after(v, w, addr)
    &&& !done ==> w == v
}

/// `w` is `v` after `disable_node(addr)` returned `found`: the node, if it
/// exists, is marked disabled manually and dropped from the round robin.
pub open spec fn manually_disabled(v: LbView, w: LbView, addr: Seq<char>, found: bool) -> bool {
    &&& w.config == v.config
    &&& w.index == v.index
    &&& found == (key_index(v.nodes, addr) >= 0)
    &&& found ==> {
        let i = key_index(v.nodes, addr);
        &&& w.nodes == v.nodes.update(i, (v.nodes[i].0, Node {
            enabled: false,
            disable_reason: Some(DisableReason::Manual),
            ..v.nodes[i].1
        }))
        &&& w.enabled == v.enabled.filter(other_than(addr))
    }
    &&& !found ==> w == v
}

/// `w` is `v` after `enable_node(addr)` returned `found`: the node, if it
/// exists, is enabled (see `LoadBalancer::enabled_after`).
pub open spec fn manually_enabled(v: LbView, w: LbView, addr: Seq<char>, found: bool) -> bool {
    &&& w.config == v.config
    &&& w.index == v.index
    &&& found == (key_index(v.nodes, addr) >= 0)
    &&& found ==> LoadBalancer::enabled_after(v, w, addr)
    &&& !found ==> w == v
}

/// `w` is `v` after `add_node(addr)`: an address already present changes
/// nothing; a new one is appended, fresh, to the table and to the round robin.
pub open spec fn node_added(v: LbView, w: LbView, addr: String) -> bool {
    &&& w.config == v.config
    &&& w.index == v.index
    &&& key_index(v.nodes, addr@) >= 0 ==> w == v
    &&& key_index(v.nodes, addr@) < 0 ==> {
        &&& w.nodes.len() == v.nodes.len() + 1
        &&& w.nodes.drop_last() == v.nodes
        &&& w.nodes.last().0 == addr
        &&& LoadBalancer::is_fresh(w.nodes.last().1)
        &&& w.enabled == v.enabled.push(addr)
    }
}

/// `w` is `v` after `remove_node(addr)`: the node leaves the table and the
/// round robin.
pub open spec fn node_removed(v: LbView, w: LbView, addr: Seq<char>) -> bool {
    &&& w.config == v.config
    &&& w.index == v.index
    &&& w.nodes == if key_index(v.nodes, addr) >= 0 {
        v.nodes.remove(key_index(v.nodes, addr))
    } else {
        v.nodes
    }
    &&& w.enabled == v.enabled.filter(other_than(addr))
}

/// `r` is what `next_node` returns on `v`, and `index` the round-robin index
/// it leaves: the first enabled address, probing from the current index,
/// whose node's circuit is not open (the index then stands one past it), or
/// `None` after a full round of probes (or with no enabled address).
pub open spec fn next_node_chosen(v: LbView, r: Option<String>, index: usize) -> bool {
    let len = v.enabled.len();
    match r {
        Some(a) => exists|k: nat|
            k < len
            && (forall|j: nat| j < k ==> !#[trigger] available_at(v, rr_iter(v.index, len, j)))
            && #[trigger] available_at(v, rr_iter(v.index, len, k))
            && a@ == v.enabled[(rr_iter(v.index, len, k) % (len as usize)) as int]@
            && index == rr_iter(v.index, len, k + 1),
        None => {
            ||| len == 0 && index == v.index
            ||| len > 0
                && (forall|j: nat| j < len ==> !#[trigger] available_at(v, rr_iter(v.index, len, j)))
                && index == rr_iter(v.index, len, len)
        },
    }
}

/// The addresses of the nodes satisfying `p`, in table order.
pub open spec fn addrs_where(nodes: Seq<(String, Node)>, p: spec_fn((String, Node)) -> bool) -> Seq<String> {
    nodes.filter(p).map_values(|e: (String, Node)| e.0)
}

/// Nodes whose circuit is in `state`.
pub open spec fn in_state(state: CircuitBreakerState) -> spec_fn((String, Node)) -> bool {
    |e: (String, Node)| e.1.circuit_state == state
}

/// Disabled nodes.
pub open spec fn is_disabled() -> spec_fn((String, Node)) -> bool {
    |e: (String, Node)| !e.1.enabled
}

/// Round-robin load balancer over nodes with circuit breakers.
///
/// Nodes are kept by address; the enabled addresses are kept in order for the
/// round robin. A node's circuit opens after `failure_threshold` consecutive
/// failed health checks; open circuits are skipped.
#[derive(Debug)]
pub struct LoadBalancer {
    nodes: Vec<(String, Node)>,
    enabled_nodes: Vec<String>,
    /// Current position of the round robin
    pub round_robin_index: usize,
    circuit_config: CircuitBreakerConfig,
}

impl View for LoadBalancer {
    type V = LbView;

    closed spec fn view(&self) -> LbView {
        LbView {
            nodes: self.nodes@,
            enabled: self.enabled_nodes@,
            index: self.round_robin_index,
            config: self.circuit_config,
        }
    }
}

/// Removes every element that reads `a`, keeping the order of the others.
fn retain_other(v: &mut Vec<String>, a: &str)
    ensures
        final(v)@ == old(v)@.filter(other_than(a@)),
{
    let ghost s = v@;
    let ghost p = other_than(a@);
    let mut i = v.len();
    proof {
        assert(s.take(i as int) =~= s);
        assert(s.skip(i as int) =~= Seq::<String>::empty());
        reveal(Seq::filter);
        assert(s.take(i as int) + s.skip(i as int).filter(p) =~= s);
    }
    while i > 0
        invariant
            i <= s.len(),
            p == other_than(a@),
            v@ == s.take(i as int) + s.skip(i as int).filter(p),
        decreases i,
    {
        proof {
            assert(v@[i - 1] == s[i - 1]);
            assert(s.skip(i - 1) =~= seq![s[i - 1]] + s.skip(i as int));
            s.skip(i as int).lemma_filter_prepend(s[i - 1], p);
        }
        if str_eq(v[i - 1].as_str(), a) {
            v.remove(i - 1);
        }
        proof {
            assert(v@ =~= s.take(i - 1) + s.skip(i - 1).filter(p));
        }
        i = i - 1;
    }
    proof {
        assert(s.skip(0) =~= s);
        assert(s.take(0) + s.filter(p) =~= s.filter(p));
    }
}

/// Whether some element reads `a`.
fn list_contains(v: &Vec<String>, a: &str) -> (r: bool)
    ensures
        r == in_list(v@, a@),
{
    let mut i: usize = 0;
    while i < v.len()
        invariant
            i <= v@.len(),
            forall|j: int| 0 <= j < i ==> (#[trigger] v@[j])@ != a@,
        decreases v@.len() - i,
    {
        if str_eq(v[i].as_str(), a) {
            return true;
        }
        i = i + 1;
    }
    false
}

impl LoadBalancer {
    /// The table and the enabled list agree, and the configuration is valid.
    pub open spec fn wf(&self) -> bool {
        &&& lb_inv(self@.nodes, self@.enabled)
        &&& self@.config.wf()
    }

    /// A balancer over `node_addrs` with the default circuit breaker.
    pub fn new(node_addrs: Vec<String>) -> (lb: Self)
        ensures
            lb.wf(),
            lb@.enabled == node_addrs@,
            lb@.index == 0,
            lb@.config == (CircuitBreakerConfig {
                failure_threshold: 5,
                base_timeout_secs: 30,
                max_timeout_secs: 300,
                backoff_multiplier: 2,
            }),
            forall|j: int| 0 <= j < node_addrs@.len() ==> key_index(lb@.nodes, (#[trigger] node_addrs@[j])@) >= 0,
            forall|i: int| 0 <= i < lb@.nodes.len() ==> in_list(node_addrs@, (#[trigger] lb@.nodes[i]).0@),
            forall|i: int| 0 <= i < lb@.nodes.len() ==> Self::is_fresh((#[trigger] lb@.nodes[i]).1),
    {
        Self::with_config(node_addrs, CircuitBreakerConfig::default())
    }

    /// A node as `Node::new` makes it.
    pub open spec fn is_fresh(n: Node) -> bool {
        &&& n.enabled
        &&& n.disable_reason is None
        &&& n.consecutive_failures == 0
        &&& n.last_health_check is None
        &&& n.last_health_check_status is None
        &&& n.circuit_state == CircuitBreakerState::Closed
        &&& n.circuit_opened_at is None
    }

    /// A balancer over `node_addrs` (all enabled, circuits closed) with the given
    /// circuit breaker configuration. The round robin follows `node_addrs` as given.
    pub fn with_config(node_addrs: Vec<String>, circuit_config: CircuitBreakerConfig) -> (lb: Self)
        requires
            circuit_config.wf(),
        ensures
            lb.wf(),
            lb@.enabled == node_addrs@,
            lb@.index == 0,
            lb@.config == circuit_config,
            forall|j: int| 0 <= j < node_addrs@.len() ==> key_index(lb@.nodes, (#[trigger] node_addrs@[j])@) >= 0,
            forall|i: int| 0 <= i < lb@.nodes.len() ==> in_list(node_addrs@, (#[trigger] lb@.nodes[i]).0@),
            forall|i: int| 0 <= i < lb@.nodes.len() ==> Self::is_fresh((#[trigger] lb@.nodes[i]).1),
    {
        let mut nodes: Vec<(String, Node)> = Vec::new();
        let mut i: usize = 0;
        while i < node_addrs.len()
            invariant
                i <= node_addrs@.len(),
                distinct_keys(nodes@),
                forall|k: int| 0 <= k < nodes@.len() ==> (#[trigger] nodes@[k]).0 == nodes@[k].1.addr,
                forall|k: int| 0 <= k < nodes@.len() ==> Self::is_fresh((#[trigger] nodes@[k]).1),
                forall|j: int| 0 <= j < i ==> key_index(nodes@, (#[trigger] node_addrs@[j])@) >= 0,
                forall|k: int| 0 <= k < nodes@.len() ==> in_list(node_addrs@, (#[trigger] nodes@[k]).0@),
            decreases node_addrs@.len() - i,
        {
            let a = &node_addrs[i];
            proof {
                lemma_key_index(nodes@, a@);
            }
            if find_key(&nodes, a.as_str()).is_none() {
                let ghost before = nodes@;
                nodes.push((a.clone(), Node::new(a.clone())));
                proof {
                    assert forall|x: int, y: int| 0 <= x < y < nodes@.len() implies nodes@[x].0@ != nodes@[y].0@ by {
                        if y == before.len() {
                            assert(before[x].0@ != a@);
                        } else {
                            assert(before[x].0@ != before[y].0@);
                        }
                    }
                    assert forall|j: int| 0 <= j <= i implies key_index(nodes@, (#[trigger] node_addrs@[j])@) >= 0 by {
                        lemma_key_index(before, node_addrs@[j]@);
                        if j < i {
                            let q = key_index(before, node_addrs@[j]@);
                            assert(nodes@[q] == before[q]);
                            lemma_key_index(nodes@, node_addrs@[j]@);
                        } else {
                            assert(nodes@[before.len() as int].0@ == a@);
                            lemma_key_index(nodes@, a@);
                        }
                    }
                    assert forall|k: int| 0 <= k < nodes@.len() implies in_list(node_addrs@, (#[trigger] nodes@[k]).0@) by {
                        if k == before.len() {
                            assert(node_addrs@[i as int]@ == nodes@[k].0@);
                        } else {
                            assert(nodes@[k] == before[k]);
                        }
                    }
                }
            } else {
                proof {
                    assert(key_index(nodes@, node_addrs@[i as int]@) >= 0);
                }
            }
            i = i + 1;
        }
        let mut enabled: Vec<String> = Vec::new();
        let mut j: usize = 0;
        while j < node_addrs.len()
            invariant
                j <= node_addrs@.len(),
                enabled@ == node_addrs@.take(j as int),
            decreases node_addrs@.len() - j,
        {
            enabled.push(node_addrs[j].clone());
            proof {
                assert(node_addrs@.take(j + 1) =~= node_addrs@.take(j as int).push(node_addrs@[j as int]));
            }
            j = j + 1;
        }
        proof {
            assert(node_addrs@.take(node_addrs@.len() as int) =~= node_addrs@);
            assert forall|q: int| 0 <= q < enabled@.len() implies key_index(nodes@, (#[trigger] enabled@[q])@) >= 0
                && nodes@[key_index(nodes@, enabled@[q]@)].1.enabled by {
                assert(enabled@[q] == node_addrs@[q]);
                lemma_key_index(nodes@, enabled@[q]@);
            }
            assert forall|k: int| 0 <= k < nodes@.len() && (#[trigger] nodes@[k]).1.enabled implies in_list(enabled@, nodes@[k].0@) by {
                assert(in_list(node_addrs@, nodes@[k].0@));
            }
        }
        LoadBalancer { nodes, enabled_nodes: enabled, round_robin_index: 0, circuit_config }
    }

    /// The next enabled node in round-robin order whose circuit is not open.
    ///
    /// Probes at most one round of enabled addresses, advancing the round-robin
    /// index at every probe (also past skipped nodes). Returns `None` when no node
    /// is enabled or every enabled node's circuit is open.
    pub fn next_node(&mut self) -> (r: Option<String>)
        requires
            old(self).wf(),
        ensures
            final(self).wf(),
            final(self)@.nodes == old(self)@.nodes,
            final(self)@.enabled == old(self)@.enabled,
            final(self)@.config == old(self)@.config,
            next_node_chosen(old(self)@, r, final(self)@.index),
    {
        let ghost v = self@;
        let len = self.enabled_nodes.len();
        if len == 0 {
            return None;
        }
        let mut k: usize = 0;
        while k < len
            invariant
                self.wf(),
                v == old(self)@,
                len == v.enabled.len(),
                len > 0,
                k <= len,
                self@.nodes == v.nodes,
                self@.enabled == v.enabled,
                self@.config == v.config,
                self@.index == rr_iter(v.index, len as nat, k as nat),
                forall|j: nat| j < k ==> !#[trigger] available_at(v, rr_iter(v.index, len as nat, j)),
            decreases len - k,
        {
            let ghost cur = self.round_robin_index;
            let idx = self.round_robin_index % len;
            self.round_robin_index = self.round_robin_index.wrapping_add(1) % len;
            proof {
                assert(self.round_robin_index == rr_step(cur, len as nat));
                assert(rr_iter(v.index, len as nat, (k + 1) as nat) == rr_step(rr_iter(v.index, len as nat, k as nat), len as nat));
            }
            match find_key(&self.nodes, self.enabled_nodes[idx].as_str()) {
                Some(ni) => {
                    if self.nodes[ni].1.circuit_state != CircuitBreakerState::Open {
                        proof {
                            assert(available_at(v, rr_iter(v.index, len as nat, k as nat)));
                        }
                        return Some(self.enabled_nodes[idx].clone());
                    }
                },
                None => {},
            }
            proof {
                assert(!available_at(v, rr_iter(v.index, len as nat, k as nat)));
                assert forall|j: nat| j < k + 1 implies !#[trigger] available_at(v, rr_iter(v.index, len as nat, j)) by {
                    if j < k {
                    }
                }
            }
            k = k + 1;
        }
        None
    }

    /// Manually disables a node (never re-enabled automatically). Returns
    /// whether the node exists.
    pub fn disable_node(&mut self, addr: &str) -> (found: bool)
        requires
            old(self).wf(),
        ensures
            final(self).wf(),
            manually_disabled(old(self)@, final(self)@, addr@, found),
    {
        self.disable_with(addr, DisableReason::Manual)
    }

    fn disable_with(&mut self, addr: &str, reason: DisableReason) -> (found: bool)
        requires
            old(self).wf(),
        ensures
            final(self).wf(),
            final(self)@.config == old(self)@.config,
            final(self)@.index == old(self)@.index,
            found == (key_index(old(self)@.nodes, addr@) >= 0),
            found ==> {
                let i = key_index(old(self)@.nodes, addr@);
                &&& final(self)@.nodes == old(self)@.nodes.update(i, (old(self)@.nodes[i].0, Node {
                    enabled: false,
                    disable_reason: Some(reason),
                    ..old(self)@.nodes[i].1
                }))
                &&& final(self)@.enabled == old(self)@.enabled.filter(other_than(addr@))
            },
            !found ==> final(self)@ == old(self)@,
    {
        let ghost v = self@;
        proof {
            lemma_key_index(v.nodes, addr@);
        }
        match find_key(&self.nodes, addr) {
            Some(i) => {
                let (key, mut node) = self.nodes.remove(i);
                node.enabled = false;
                node.disable_reason = Some(reason);
                self.nodes.insert(i, (key, node));
                retain_other(&mut self.enabled_nodes, addr);
                proof {
                    assert(self@.nodes =~= v.nodes.update(i as int, (v.nodes[i as int].0, Node {
                        enabled: false,
                        disable_reason: Some(reason),
                        ..v.nodes[i as int].1
                    })));
                    lemma_inv_after_disable(v.nodes, v.enabled, addr@, i as int, self@.nodes, self@.enabled);
                }
                true
            },
            None => false,
        }
    }

    /// Manually enables a node: clears its disable reason and failure count and
    /// appends it to the round robin if absent. Returns whether the node exists.
    pub fn enable_node(&mut self, addr: &str) -> (found: bool)
        requires
            old(self).wf(),
        ensures
            final(self).wf(),
            manually_enabled(old(self)@, final(self)@, addr@, found),
    {
        let ghost v = self@;
        proof {
            lemma_key_index(v.nodes, addr@);
        }
        match find_key(&self.nodes, addr) {
            Some(i) => {
                self.enable_at(i, addr);
                true
            },
            None => false,
        }
    }

    /// `w` is `v` with the node named `addr` enabled (reason and failures cleared)
    /// and listed for the round robin.
    pub open spec fn enabled_after(v: LbView, w: LbView, addr: Seq<char>) -> bool {
        let i = key_index(v.nodes, addr);
        &&& w.nodes == v.nodes.update(i, (v.nodes[i].0, Node {
            enabled: true,
            disable_reason: None,
            consecutive_failures: 0,
            ..v.nodes[i].1
        }))
        &&& w.enabled == if in_list(v.enabled, addr) { v.enabled } else { v.enabled.push(v.nodes[i].0) }
    }

    fn enable_at(&mut self, i: usize, addr: &str)
        requires
            old(self).wf(),
            i == key_index(old(self)@.nodes, addr@),
            i < old(self)@.nodes.len(),
        ensures
            final(self).wf(),
            final(self)@.config == old(self)@.config,
            final(self)@.index == old(self)@.index,
            Self::enabled_after(old(self)@, final(self)@, addr@),
    {
        let ghost v = self@;
        proof {
            lemma_key_index(v.nodes, addr@);
        }
        let (key, mut node) = self.nodes.remove(i);
        node.enabled = true;
        node.disable_reason = None;
        node.consecutive_failures = 0;
        let key_copy = key.clone();
        self.nodes.insert(i, (key, node));
        let listed = list_contains(&self.enabled_nodes, addr);
        if !listed {
            self.enabled_nodes.push(key_copy);
        }
        proof {
            assert(self@.nodes =~= v.nodes.update(i as int, (v.nodes[i as int].0, Node {
                enabled: true,
                disable_reason: None,
                consecutive_failures: 0,
                ..v.nodes[i as int].1
            })));
            lemma_inv_after_enable(v.nodes, v.enabled, addr@, i as int, self@.nodes, self@.enabled);
        }
    }

    /// Disables a node after failed health checks, unless it was disabled
    /// manually. Returns whether it did.
    pub fn auto_disable_node(&mut self, addr: &str) -> (done: bool)
        requires
            old(self).wf(),
        ensures
            final(self).wf(),
            auto_disabled(old(self)@, final(self)@, addr@, done),
    {
        let ghost v = self@;
        proof {
            lemma_key_index(v.nodes, addr@);
        }
        match find_key(&self.nodes, addr) {
            Some(i) => {
                if self.nodes[i].1.disable_reason != Some(DisableReason::Manual) {
                    self.disable_with(addr, DisableReason::HealthCheck)
                } else {
                    false
                }
            },
            None => false,
        }
    }

    /// Re-enables a node that recovered, only if it was disabled by health
    /// checks. Returns whether it did.
    pub fn auto_enable_node(&mut self, addr: &str) -> (done: bool)
        requires
            old(self).wf(),
        ensures
            final(self).wf(),
            auto_enabled(old(self)@, final(self)@, addr@, done),
    {
        let ghost v = self@;
        proof {
            lemma_key_index(v.nodes, addr@);
        }
        match find_key(&self.nodes, addr) {
            Some(i) => {
                if self.nodes[i].1.disable_reason == Some(DisableReason::HealthCheck) {
                    self.enable_at(i, addr);
                    true
                } else {
                    false
                }
            },
            None => false,
        }
    }

    /// Records a health check of `addr`: a healthy result clears the failure
    /// count and closes a half-open circuit; an unhealthy one counts a failure,
    /// trips a closed circuit at the failure threshold and reopens a half-open one.
    pub fn update_health_status(&mut self, addr: &str, status: HealthCheckStatus)
        requires
            old(self).wf(),
            failure_count_below_max(old(self)@, addr@, status),
        ensures
            final(self).wf(),
            health_status_updated(old(self)@, final(self)@, addr@, status),
    {
        let ghost v = self@;
        proof {
            lemma_key_index(v.nodes, addr@);
        }
        match find_key(&self.nodes, addr) {
            Some(i) => {
                let (key, mut node) = self.nodes.remove(i);
                node.last_health_check = Some(instant_now());
                let healthy = match &status {
                    HealthCheckStatus::Healthy => true,
                    HealthCheckStatus::Unhealthy(_) => false,
                };
                node.last_health_check_status = Some(status);
                if healthy {
                    node.consecutive_failures = 0;
                    if node.circuit_state == CircuitBreakerState::HalfOpen {
                        node.transition_circuit_state(CircuitBreakerState::Closed);
                    }
                } else {
                    node.consecutive_failures = node.consecutive_failures + 1;
                    match node.circuit_state {
                        CircuitBreakerState::Closed => {
                            if node.consecutive_failures >= self.circuit_config.failure_threshold {
                                node.transition_circuit_state(CircuitBreakerState::Open);
                            }
                        },
                        CircuitBreakerState::HalfOpen => {
                            node.transition_circuit_state(CircuitBreakerState::Open);
                        },
                        CircuitBreakerState::Open => {},
                    }
                }
                self.nodes.insert(i, (key, node));
                proof {
                    assert(forall|j: int| 0 <= j < v.nodes.len() && j != i ==> self@.nodes[j] == v.nodes[j]);
                    lemma_inv_after_node_update(v.nodes, v.enabled, i as int, self@.nodes);
                }
            },
            None => {},
        }
    }

    /// Moves to half-open each open circuit that has waited its backoff timeout,
    /// `elapsed[i]` being the time in milliseconds since the circuit of node `i`
    /// opened (see `half_open_due_spec`). Returns whether any circuit moved.
    pub fn check_circuit_timeouts_at(&mut self, elapsed: &Vec<Option<u128>>) -> (any: bool)
        requires
            old(self).wf(),
            elapsed@.len() == old(self)@.nodes.len(),
        ensures
            final(self).wf(),
            circuits_checked(old(self)@, final(self)@, elapsed@, any),
    {
        let ghost v = self@;
        let mut any = false;
        let mut i: usize = 0;
        while i < self.nodes.len()
            invariant
                i <= self@.nodes.len(),
                self@.nodes.len() == v.nodes.len(),
                elapsed@.len() == v.nodes.len(),
                self@.enabled == v.enabled,
                self@.config == v.config,
                self@.index == v.index,
                self.circuit_config == v.config,
                self.wf(),
                forall|k: int| i <= k < v.nodes.len() ==> self@.nodes[k] == v.nodes[k],
                forall|k: int| 0 <= k < i ==> #[trigger] self@.nodes[k] == circuit_after(v, elapsed@, k),
                any == exists|k: int| 0 <= k < i && #[trigger] half_open_due_spec(v.nodes[k].1, v.config, elapsed@[k]),
            decreases self@.nodes.len() - i,
        {
            proof {
                assert(self@.nodes[i as int] == v.nodes[i as int]);
            }
            if self.nodes[i].1.half_open_due(&self.circuit_config, elapsed[i]) {
                let ghost before = self@.nodes;
                let (key, mut node) = self.nodes.remove(i);
                node.transition_circuit_state(CircuitBreakerState::HalfOpen);
                self.nodes.insert(i, (key, node));
                proof {
                    assert(self@.nodes[i as int] == circuit_after(v, elapsed@, i as int));
                    assert(forall|k: int| 0 <= k < before.len() && k != i ==> self@.nodes[k] == before[k]);
                    lemma_inv_after_node_update(before, v.enabled, i as int, self@.nodes);
                }
                any = true;
            }
            i = i + 1;
        }
        any
    }

    /// Moves to half-open each open circuit that has waited its backoff timeout
    /// by the wall clock now. The time since each circuit opened is read from
    /// the clock; which circuits move is then decided as in
    /// `check_circuit_timeouts_at`.
    pub fn check_circuit_timeouts(&mut self) -> (any: bool)
        requires
            old(self).wf(),
        ensures
            final(self).wf(),
            exists|elapsed: Seq<Option<u128>>|
                elapsed.len() == old(self)@.nodes.len()
                && #[trigger] circuits_checked(old(self)@, final(self)@, elapsed, any),
    {
        let mut elapsed: Vec<Option<u128>> = Vec::new();
        let mut i: usize = 0;
        while i < self.nodes.len()
            invariant
                i <= self.nodes@.len(),
                elapsed@.len() == i,
            decreases self.nodes@.len() - i,
        {
            let reading = match &self.nodes[i].1.circuit_opened_at {
                Some(t) => system_elapsed_ms(t),
                None => None,
            };
            elapsed.push(reading);
            i = i + 1;
        }
        let any = self.check_circuit_timeouts_at(&elapsed);
        assert(circuits_checked(old(self)@, self@, elapsed@, any));
        any
    }

    /// The circuit state of a node, if it exists.
    pub fn circuit_state(&self, addr: &str) -> (r: Option<CircuitBreakerState>)
        requires
            self.wf(),
        ensures
            r == if key_index(self@.nodes, addr@) >= 0 {
                Some(self@.nodes[key_index(self@.nodes, addr@)].1.circuit_state)
            } else {
                None::<CircuitBreakerState>
            },
    {
        match find_key(&self.nodes, addr) {
            Some(i) => Some(self.nodes[i].1.circuit_state),
            None => None,
        }
    }

    fn addrs_matching(&self, state: Option<CircuitBreakerState>) -> (r: Vec<String>)
        ensures
            r@ == addrs_where(self@.nodes, match state {
                Some(s) => in_state(s),
                None => is_disabled(),
            }),
    {
        let ghost p = match state {
            Some(s) => in_state(s),
            None => is_disabled(),
        };
        let mut r: Vec<String> = Vec::new();
        let mut i: usize = 0;
        proof {
            reveal(Seq::filter);
            assert(self.nodes@.take(0) =~= Seq::<(String, Node)>::empty());
            assert(addrs_where(self.nodes@.take(0), p) =~= Seq::<String>::empty());
        }
        while i < self.nodes.len()
            invariant
                i <= self.nodes@.len(),
                r@ == addrs_where(self.nodes@.take(i as int), p),
                p == match state {
                    Some(s) => in_state(s),
                    None => is_disabled(),
                },
            decreases self.nodes@.len() - i,
        {
            let matches = match state {
                Some(s) => self.nodes[i].1.circuit_state == s,
                None => !self.nodes[i].1.enabled,
            };
            proof {
                reveal(Seq::filter);
                assert(self.nodes@.take(i + 1).drop_last() =~= self.nodes@.take(i as int));
                assert(matches == p(self.nodes@[i as int]));
            }
            if matches {
                r.push(self.nodes[i].0.clone());
            }
            proof {
                assert(r@ =~= addrs_where(self.nodes@.take(i + 1), p));
            }
            i = i + 1;
        }
        proof {
            assert(self.nodes@.take(self.nodes@.len() as int) =~= self.nodes@);
        }
        r
    }

    /// Addresses of the nodes whose circuit is open, in table order.
    pub fn open_circuit_nodes(&self) -> (r: Vec<String>)
        ensures
            r@ == addrs_where(self@.nodes, in_state(CircuitBreakerState::Open)),
    {
        self.addrs_matching(Some(CircuitBreakerState::Open))
    }

    /// Addresses of the nodes whose circuit is half-open, in table order.
    pub fn half_open_circuit_nodes(&self) -> (r: Vec<String>)
        ensures
            r@ == addrs_where(self@.nodes, in_state(CircuitBreakerState::HalfOpen)),
    {
        self.addrs_matching(Some(CircuitBreakerState::HalfOpen))
    }

    /// Addresses of the disabled nodes, in table order.
    pub fn disabled_nodes(&self) -> (r: Vec<String>)
        ensures
            r@ == addrs_where(self@.nodes, is_disabled()),
    {
        self.addrs_matching(None)
    }

    /// Consecutive failed health checks of a node (0 for an unknown node).
    pub fn consecutive_failures(&self, addr: &str) -> (n: u32)
        ensures
            n == if key_index(self@.nodes, addr@) >= 0 {
                self@.nodes[key_index(self@.nodes, addr@)].1.consecutive_failures
            } else {
                0u32
            },
    {
        match find_key(&self.nodes, addr) {
            Some(i) => self.nodes[i].1.consecutive_failures,
            None => 0,
        }
    }

    /// All nodes with their state, in table order.
    pub fn all_nodes(&self) -> (r: Vec<Node>)
        ensures
            r@.len() == self@.nodes.len(),
            forall|i: int| 0 <= i < r@.len() ==> r@[i] == #[trigger] self@.nodes[i].1,
    {
        let mut r: Vec<Node> = Vec::new();
        let mut i: usize = 0;
        while i < self.nodes.len()
            invariant
                i <= self.nodes@.len(),
                r@.len() == i,
                forall|k: int| 0 <= k < i ==> r@[k] == #[trigger] self.nodes@[k].1,
            decreases self.nodes@.len() - i,
        {
            r.push(self.nodes[i].1.clone());
            i = i + 1;
        }
        r
    }

    /// The enabled addresses, in round-robin order.
    pub fn enabled_nodes(&self) -> (r: Vec<String>)
        ensures
            r@ == self@.enabled,
    {
        let mut r: Vec<String> = Vec::new();
        let mut i: usize = 0;
        while i < self.enabled_nodes.len()
            invariant
                i <= self.enabled_nodes@.len(),
                r@ == self.enabled_nodes@.take(i as int),
            decreases self.enabled_nodes@.len() - i,
        {
            r.push(self.enabled_nodes[i].clone());
            proof {
                assert(self.enabled_nodes@.take(i + 1) =~= self.enabled_nodes@.take(i as int).push(self.enabled_nodes@[i as int]));
            }
            i = i + 1;
        }
        proof {
            assert(self.enabled_nodes@.take(self.enabled_nodes@.len() as int) =~= self.enabled_nodes@);
        }
        r
    }

    /// Adds an enabled node with a closed circuit; an address already present is ignored.
    pub fn add_node(&mut self, node_addr: String)
        requires
            old(self).wf(),
        ensures
            final(self).wf(),
            node_added(old(self)@, final(self)@, node_addr),
    {
        let ghost v = self@;
        proof {
            lemma_key_index(v.nodes, node_addr@);
        }
        if find_key(&self.nodes, node_addr.as_str()).is_none() {
            self.nodes.push((node_addr.clone(), Node::new(node_addr.clone())));
            self.enabled_nodes.push(node_addr);
            proof {
                assert(self@.nodes.drop_last() =~= v.nodes);
                lemma_inv_after_add(v.nodes, v.enabled, self@.nodes, self@.enabled);
            }
        }
    }

    /// Removes a node from the table and from the round robin.
    pub fn remove_node(&mut self, node_addr: &str)
        requires
            old(self).wf(),
        ensures
            final(self).wf(),
            node_removed(old(self)@, final(self)@, node_addr@),
    {
        let ghost v = self@;
        proof {
            lemma_key_index(v.nodes, node_addr@);
        }
        match find_key(&self.nodes, node_addr) {
            Some(i) => {
                self.nodes.remove(i);
            },
            None => {},
        }
        retain_other(&mut self.enabled_nodes, node_addr);
        proof {
            lemma_inv_after_remove(v.nodes, v.enabled, node_addr@, self@.nodes, self@.enabled);
        }
    }

    /// Number of nodes, enabled or not.
    pub fn node_count(&self) -> (n: usize)
        ensures
            n == self@.nodes.len(),
    {
        self.nodes.len()
    }

    /// Number of entries in the round robin.
    pub fn enabled_count(&self) -> (n: usize)
        ensures
            n == self@.enabled.len(),
    {
        self.enabled_nodes.len()
    }

    /// Addresses of all nodes, in table order.
    pub fn nodes(&self) -> (r: Vec<String>)
        ensures
            r@.len() == self@.nodes.len(),
            forall|i: int| 0 <= i < r@.len() ==> r@[i] == #[trigger] self@.nodes[i].0,
    {
        let mut r: Vec<String> = Vec::new();
        let mut i: usize = 0;
        while i < self.nodes.len()
            invariant
                i <= self.nodes@.len(),
                r@.len() == i,
                forall|k: int| 0 <= k < i ==> r@[k] == #[trigger] self.nodes@[k].0,
            decreases self.nodes@.len() - i,
        {
            r.push(self.nodes[i].0.clone());
            i = i + 1;
        }
        r
    }

    /// Applies `f` to the state of the node `addr`, if it exists. Only the
    /// health and circuit fields take `f`'s changes; the address, the enabled
    /// flag and the disable reason are kept.
    pub fn with_node_state<F: FnOnce(&mut Node)>(&mut self, addr: &str, f: F)
        requires
            old(self).wf(),
            forall|n: &mut Node| f.requires((n,)),
        ensures
            final(self).wf(),
            final(self)@.config == old(self)@.config,
            final(self)@.index == old(self)@.index,
            final(self)@.enabled == old(self)@.enabled,
            final(self)@.nodes.len() == old(self)@.nodes.len(),
            forall|j: int| 0 <= j < old(self)@.nodes.len() && j != key_index(old(self)@.nodes, addr@)
                ==> final(self)@.nodes[j] == old(self)@.nodes[j],
            key_index(old(self)@.nodes, addr@) >= 0 ==> {
                let i = key_index(old(self)@.nodes, addr@);
                &&& final(self)@.nodes[i].0 == old(self)@.nodes[i].0
                &&& final(self)@.nodes[i].1.addr == old(self)@.nodes[i].1.addr
                &&& final(self)@.nodes[i].1.enabled == old(self)@.nodes[i].1.enabled
                &&& final(self)@.nodes[i].1.disable_reason == old(self)@.nodes[i].1.disable_reason
                &&& exists|n: &mut Node| #![auto] f.ensures((n,), ()) && *n == old(self)@.nodes[i].1
                    && final(self)@.nodes[i].1 == (Node {
                        addr: old(self)@.nodes[i].1.addr,
                        enabled: old(self)@.nodes[i].1.enabled,
                        disable_reason: old(self)@.nodes[i].1.disable_reason,
                        ..*final(n)
                    })
            },
            key_index(old(self)@.nodes, addr@) < 0 ==> final(self)@ == old(self)@,
    {
        let ghost v = self@;
        proof {
            lemma_key_index(v.nodes, addr@);
        }
        match find_key(&self.nodes, addr) {
            Some(i) => {
                let (key, mut node) = self.nodes.remove(i);
                let kept_addr = node.addr.clone();
                let kept_enabled = node.enabled;
                let kept_reason = node.disable_reason;
                f(&mut node);
                node.addr = kept_addr;
                node.enabled = kept_enabled;
                node.disable_reason = kept_reason;
                self.nodes.insert(i, (key, node));
                proof {
                    assert(forall|j: int| 0 <= j < v.nodes.len() && j != i ==> self@.nodes[j] == v.nodes[j]);
                    lemma_inv_after_node_update(v.nodes, v.enabled, i as int, self@.nodes);
                }
            },
            None => {},
        }
    }
}

/// Changing fields of node `i` other than its address, enabled flag and
/// disable reason keeps the invariant.
proof fn lemma_inv_after_node_update(nodes: Seq<(String, Node)>, enabled: Seq<String>, i: int, nodes2: Seq<(String, Node)>)
    requires
        lb_inv(nodes, enabled),
        0 <= i < nodes.len(),
        nodes2.len() == nodes.len(),
        forall|j: int| 0 <= j < nodes.len() && j != i ==> nodes2[j] == nodes[j],
        nodes2[i].0 == nodes[i].0,
        nodes2[i].1.addr == nodes[i].1.addr,
        nodes2[i].1.enabled == nodes[i].1.enabled,
        nodes2[i].1.disable_reason == nodes[i].1.disable_reason,
    ensures
        lb_inv(nodes2, enabled),
{
    assert forall|a: int, b: int| 0 <= a < b < nodes2.len() implies nodes2[a].0@ != nodes2[b].0@ by {
        assert(nodes[a].0@ != nodes[b].0@);
    }
    assert forall|x: Seq<char>| key_index(nodes2, x) == key_index(nodes, x) by {
        lemma_key_index(nodes, x);
        lemma_key_index(nodes2, x);
        if key_index(nodes, x) >= 0 {
            lemma_key_index_unique(nodes2, x, key_index(nodes, x));
        }
    }
    assert forall|j: int| 0 <= j < enabled.len() implies key_index(nodes2, (#[trigger] enabled[j])@) >= 0
        && nodes2[key_index(nodes2, enabled[j]@)].1.enabled by {
        let k = key_index(nodes, enabled[j]@);
        assert(key_index(nodes2, enabled[j]@) == k);
        lemma_key_index(nodes, enabled[j]@);
        assert(nodes[k].1.enabled);
        if k != i {
            assert(nodes2[k] == nodes[k]);
        }
    }
    assert forall|k: int| 0 <= k < nodes2.len() && (#[trigger] nodes2[k]).1.enabled implies in_list(enabled, nodes2[k].0@) by {
        if k != i {
            assert(nodes2[k] == nodes[k]);
        }
        assert(nodes[k].1.enabled);
    }
}

/// Disabling node `i` (named `a`) and dropping `a` from the round robin keeps the invariant.
proof fn lemma_inv_after_disable(
    nodes: Seq<(String, Node)>,
    enabled: Seq<String>,
    a: Seq<char>,
    i: int,
    nodes2: Seq<(String, Node)>,
    enabled2: Seq<String>,
)
    requires
        lb_inv(nodes, enabled),
        0 <= i < nodes.len(),
        i == key_index(nodes, a),
        nodes2.len() == nodes.len(),
        forall|j: int| 0 <= j < nodes.len() && j != i ==> nodes2[j] == nodes[j],
        nodes2[i].0 == nodes[i].0,
        nodes2[i].1.addr == nodes[i].1.addr,
        !nodes2[i].1.enabled,
        nodes2[i].1.disable_reason is Some,
        enabled2 == enabled.filter(other_than(a)),
    ensures
        lb_inv(nodes2, enabled2),
{
    lemma_key_index(nodes, a);
    assert forall|a2: int, b: int| 0 <= a2 < b < nodes2.len() implies nodes2[a2].0@ != nodes2[b].0@ by {
        assert(nodes[a2].0@ != nodes[b].0@);
    }
    assert forall|x: Seq<char>| key_index(nodes2, x) == key_index(nodes, x) by {
        lemma_key_index(nodes, x);
        lemma_key_index(nodes2, x);
        if key_index(nodes, x) >= 0 {
            lemma_key_index_unique(nodes2, x, key_index(nodes, x));
        }
    }
    assert forall|j: int| 0 <= j < enabled2.len() implies key_index(nodes2, (#[trigger] enabled2[j])@) >= 0
        && nodes2[key_index(nodes2, enabled2[j]@)].1.enabled by {
        assert(enabled2.contains(enabled2[j]));
        enabled.lemma_filter_contains_rev(other_than(a), enabled2[j]);
        let q = choose|q: int| 0 <= q < enabled.len() && enabled[q] == enabled2[j];
        enabled.lemma_filter_pred(other_than(a), j);
        assert(enabled2[j]@ != a);
        assert(key_index(nodes, enabled[q]@) >= 0);
        lemma_key_index(nodes, enabled[q]@);
    }
    assert forall|k: int| 0 <= k < nodes2.len() && (#[trigger] nodes2[k]).1.enabled implies in_list(enabled2, nodes2[k].0@) by {
        assert(k != i);
        assert(in_list(enabled, nodes[k].0@));
        let q = choose|q: int| 0 <= q < enabled.len() && (#[trigger] enabled[q])@ == nodes[k].0@;
        assert(nodes[k].0@ != a) by {
            assert(nodes[i].0@ == a);
            assert(nodes[k].0@ != nodes[i].0@);
        }
        enabled.lemma_filter_contains(other_than(a), q);
        assert(enabled2.contains(enabled[q]));
        let r = choose|r: int| 0 <= r < enabled2.len() && enabled2[r] == enabled[q];
        assert(enabled2[r]@ == nodes2[k].0@);
    }
}

/// Enabling node `i` (named `a`) and listing it once keeps the invariant.
proof fn lemma_inv_after_enable(
    nodes: Seq<(String, Node)>,
    enabled: Seq<String>,
    a: Seq<char>,
    i: int,
    nodes2: Seq<(String, Node)>,
    enabled2: Seq<String>,
)
    requires
        lb_inv(nodes, enabled),
        0 <= i < nodes.len(),
        i == key_index(nodes, a),
        nodes2.len() == nodes.len(),
        forall|j: int| 0 <= j < nodes.len() && j != i ==> nodes2[j] == nodes[j],
        nodes2[i].0 == nodes[i].0,
        nodes2[i].1.addr == nodes[i].1.addr,
        nodes2[i].1.enabled,
        nodes2[i].1.disable_reason is None,
        enabled2 == if in_list(enabled, a) { enabled } else { enabled.push(nodes[i].0) },
    ensures
        lb_inv(nodes2, enabled2),
{
    lemma_key_index(nodes, a);
    assert forall|a2: int, b: int| 0 <= a2 < b < nodes2.len() implies nodes2[a2].0@ != nodes2[b].0@ by {
        assert(nodes[a2].0@ != nodes[b].0@);
    }
    assert forall|x: Seq<char>| key_index(nodes2, x) == key_index(nodes, x) by {
        lemma_key_index(nodes, x);
        lemma_key_index(nodes2, x);
        if key_index(nodes, x) >= 0 {
            lemma_key_index_unique(nodes2, x, key_index(nodes, x));
        }
    }
    assert forall|j: int| 0 <= j < enabled2.len() implies key_index(nodes2, (#[trigger] enabled2[j])@) >= 0
        && nodes2[key_index(nodes2, enabled2[j]@)].1.enabled by {
        if j < enabled.len() {
            assert(enabled2[j] == enabled[j]);
            lemma_key_index(nodes, enabled[j]@);
        } else {
            assert(enabled2[j]@ == a);
        }
    }
    assert forall|k: int| 0 <= k < nodes2.len() && (#[trigger] nodes2[k]).1.enabled implies in_list(enabled2, nodes2[k].0@) by {
        if k == i {
            if in_list(enabled, a) {
            } else {
                assert(enabled2[enabled.len() as int]@ == a);
            }
        } else {
            assert(in_list(enabled, nodes[k].0@));
            let q = choose|q: int| 0 <= q < enabled.len() && (#[trigger] enabled[q])@ == nodes[k].0@;
            assert(enabled2[q] == enabled[q]);
        }
    }
}

/// Appending a fresh node and listing it keeps the invariant.
proof fn lemma_inv_after_add(
    nodes: Seq<(String, Node)>,
    enabled: Seq<String>,
    nodes2: Seq<(String, Node)>,
    enabled2: Seq<String>,
)
    requires
        lb_inv(nodes, enabled),
        nodes2.len() == nodes.len() + 1,
        nodes2.drop_last() == nodes,
        key_index(nodes, nodes2.last().0@) < 0,
        nodes2.last().0 == nodes2.last().1.addr,
        nodes2.last().1.enabled,
        nodes2.last().1.disable_reason is None,
        enabled2 == enabled.push(nodes2.last().0),
    ensures
        lb_inv(nodes2, enabled2),
{
    let n = nodes.len() as int;
    lemma_key_index(nodes, nodes2.last().0@);
    assert(forall|j: int| 0 <= j < n ==> nodes2[j] == nodes[j]);
    assert forall|a2: int, b: int| 0 <= a2 < b < nodes2.len() implies nodes2[a2].0@ != nodes2[b].0@ by {
        if b < n {
            assert(nodes[a2].0@ != nodes[b].0@);
        }
    }
    assert forall|j: int| 0 <= j < enabled2.len() implies key_index(nodes2, (#[trigger] enabled2[j])@) >= 0
        && nodes2[key_index(nodes2, enabled2[j]@)].1.enabled by {
        lemma_key_index(nodes2, enabled2[j]@);
        if j < enabled.len() {
            assert(enabled2[j] == enabled[j]);
            lemma_key_index(nodes, enabled[j]@);
            lemma_key_index_unique(nodes2, enabled[j]@, key_index(nodes, enabled[j]@));
        } else {
            lemma_key_index_unique(nodes2, enabled2[j]@, n);
        }
    }
    assert forall|k: int| 0 <= k < nodes2.len() && (#[trigger] nodes2[k]).1.enabled implies in_list(enabled2, nodes2[k].0@) by {
        if k == n {
            assert(enabled2[enabled.len() as int]@ == nodes2[k].0@);
        } else {
            assert(in_list(enabled, nodes[k].0@));
            let q = choose|q: int| 0 <= q < enabled.len() && (#[trigger] enabled[q])@ == nodes[k].0@;
            assert(enabled2[q] == enabled[q]);
        }
    }
}

/// Removing the node named `a` (if any) and dropping `a` from the round robin keeps the invariant.
proof fn lemma_inv_after_remove(
    nodes: Seq<(String, Node)>,
    enabled: Seq<String>,
    a: Seq<char>,
    nodes2: Seq<(String, Node)>,
    enabled2: Seq<String>,
)
    requires
        lb_inv(nodes, enabled),
        nodes2 == if key_index(nodes, a) >= 0 { nodes.remove(key_index(nodes, a)) } else { nodes },
        enabled2 == enabled.filter(other_than(a)),
    ensures
        lb_inv(nodes2, enabled2),
{
    lemma_key_index(nodes, a);
    let i = key_index(nodes, a);
    let idx = |j: int| if i >= 0 && j >= i { j + 1 } else { j };
    assert forall|j: int| 0 <= j < nodes2.len() implies nodes2[j] == nodes[idx(j)] by {}
    assert forall|a2: int, b: int| 0 <= a2 < b < nodes2.len() implies nodes2[a2].0@ != nodes2[b].0@ by {
        assert(nodes[idx(a2)].0@ != nodes[idx(b)].0@);
    }
    assert forall|j: int| 0 <= j < enabled2.len() implies key_index(nodes2, (#[trigger] enabled2[j])@) >= 0
        && nodes2[key_index(nodes2, enabled2[j]@)].1.enabled by {
        assert(enabled2.contains(enabled2[j]));
        enabled.lemma_filter_contains_rev(other_than(a), enabled2[j]);
        enabled.lemma_filter_pred(other_than(a), j);
        let q = choose|q: int| 0 <= q < enabled.len() && enabled[q] == enabled2[j];
        let x = enabled[q]@;
        assert(x != a);
        lemma_key_index(nodes, x);
        let p = key_index(nodes, x);
        assert(p != i);
        let p2 = if i >= 0 && p > i { p - 1 } else { p };
        assert(nodes2[p2] == nodes[p]);
        lemma_key_index_unique(nodes2, x, p2);
    }
    assert forall|k: int| 0 <= k < nodes2.len() && (#[trigger] nodes2[k]).1.enabled implies in_list(enabled2, nodes2[k].0@) by {
        let k0 = idx(k);
        assert(nodes2[k] == nodes[k0]);
        assert(in_list(enabled, nodes[k0].0@));
        let q = choose|q: int| 0 <= q < enabled.len() && (#[trigger] enabled[q])@ == nodes[k0].0@;
        assert(nodes[k0].0@ != a) by {
            if i >= 0 {
                assert(k0 != i);
                assert(nodes[k0].0@ != nodes[i].0@);
            }
        }
        enabled.lemma_filter_contains(other_than(a), q);
        assert(enabled2.contains(enabled[q]));
        let r = choose|r: int| 0 <= r < enabled2.len() && enabled2[r] == enabled[q];
        assert(enabled2[r]@ == nodes2[k].0@);
    }
}

/// Starting inside the list, the round robin visits the positions in
/// circular order: after `j` steps from position `i` it stands at
/// `(i + j) % len`, so every entry is visited once in each `len` steps.
pub proof fn lemma_round_robin_cycle(i: usize, len: nat, j: nat)
    requires
        0 < len <= usize::MAX,
        i < len,
    ensures
        rr_iter(i, len, j) == (i + j) % (len as int),
    decreases j,
{
    if j == 0 {
        vstd::arithmetic::div_mod::lemma_small_mod(i as nat, len);
    } else {
        lemma_round_robin_cycle(i, len, (j - 1) as nat);
        let x = rr_iter(i, len, (j - 1) as nat);
        assert(x == (i + j - 1) % (len as int));
        assert(x < len);
        if len == 1 {
            assert(rr_iter(i, len, j) == rr_step(x, len));
            vstd::arithmetic::div_mod::lemma_mod_multiples_basic((x + 1) as int, 1);
            vstd::arithmetic::div_mod::lemma_mod_multiples_basic((i + j) as int, 1);
        } else {
            vstd::arithmetic::div_mod::lemma_add_mod_noop(i + j - 1, 1, len as int);
            vstd::arithmetic::div_mod::lemma_small_mod(1, len);
            assert(((i + j - 1) % (len as int) + 1) % (len as int) == (i + j) % (len as int));
            assert(rr_iter(i, len, j) == rr_step(x, len));
        }
    }
}

/// A node disabled manually and then enabled manually is enabled again,
/// its disable reason and failure count cleared, and back in the round robin.
pub proof fn lemma_disable_then_enable(v: LbView, w: LbView, x: LbView, addr: Seq<char>)
    requires
        lb_inv(v.nodes, v.enabled),
        manually_disabled(v, w, addr, true),
        manually_enabled(w, x, addr, true),
    ensures
        key_index(x.nodes, addr) == key_index(v.nodes, addr),
        x.nodes[key_index(x.nodes, addr)].1.enabled,
        x.nodes[key_index(x.nodes, addr)].1.disable_reason is None,
        x.nodes[key_index(x.nodes, addr)].1.consecutive_failures == 0,
        x.nodes[key_index(x.nodes, addr)].0 == v.nodes[key_index(v.nodes, addr)].0,
        in_list(x.enabled, addr),
{
    let i = key_index(v.nodes, addr);
    lemma_key_index(v.nodes, addr);
    assert forall|j: int| 0 <= j < v.nodes.len() implies v.nodes[j].0@ == w.nodes[j].0@ by {
        if j != i {
            assert(w.nodes[j] == v.nodes[j]);
        }
    }
    crate::named_map::lemma_key_index_same_keys(v.nodes, w.nodes, addr);
    assert forall|j: int| 0 <= j < w.nodes.len() implies w.nodes[j].0@ == x.nodes[j].0@ by {
        if j != i {
            assert(x.nodes[j] == w.nodes[j]);
        }
    }
    crate::named_map::lemma_key_index_same_keys(w.nodes, x.nodes, addr);
    if !in_list(w.enabled, addr) {
        assert(x.enabled == w.enabled.push(w.nodes[i].0));
        assert(x.enabled[w.enabled.len() as int]@ == addr);
    }
}

/// With no open circuit among the enabled nodes, `next_node` returns the
/// enabled address at the round-robin index and moves the index one step:
/// the balancer cycles through the enabled nodes in order.
pub proof fn lemma_round_robin_without_open_circuits(v: LbView, r: Option<String>, index: usize)
    requires
        lb_inv(v.nodes, v.enabled),
        0 < v.enabled.len() <= usize::MAX,
        forall|j: int| 0 <= j < v.enabled.len() ==>
            v.nodes[key_index(v.nodes, (#[trigger] v.enabled[j])@)].1.circuit_state != CircuitBreakerState::Open,
        next_node_chosen(v, r, index),
    ensures
        r matches Some(a) && a@ == v.enabled[(v.index % (v.enabled.len() as usize)) as int]@,
        index == rr_step(v.index, v.enabled.len()),
{
    let len = v.enabled.len();
    let p = (v.index % (len as usize)) as int;
    vstd::arithmetic::div_mod::lemma_mod_pos_bound(v.index as int, len as int);
    assert(0 <= p < len);
    assert(rr_iter(v.index, len, 0) == v.index);
    assert(key_index(v.nodes, v.enabled[p]@) >= 0);
    assert(v.nodes[key_index(v.nodes, v.enabled[p]@)].1.circuit_state != CircuitBreakerState::Open);
    assert(available_at(v, rr_iter(v.index, len, 0)));
    match r {
        Some(a) => {
            let k = choose|k: nat|
                k < len
                && (forall|j: nat| j < k ==> !#[trigger] available_at(v, rr_iter(v.index, len, j)))
                && #[trigger] available_at(v, rr_iter(v.index, len, k))
                && a@ == v.enabled[(rr_iter(v.index, len, k) % (len as usize)) as int]@
                && index == rr_iter(v.index, len, k + 1);
            if k > 0 {
                assert(!available_at(v, rr_iter(v.index, len, 0)));
            }
            assert(rr_iter(v.index, len, 1) == rr_step(rr_iter(v.index, len, 0), len));
        },
        None => {
            assert(!available_at(v, rr_iter(v.index, len, 0)));
        },
    }
}

/// One of the calls `s` to `s + n - 1` returned the address `a`.
pub open spec fn returned_within(rs: Seq<Option<String>>, s: int, n: int, a: Seq<char>) -> bool {
    exists|t: int| s <= t < s + n && returned(#[trigger] rs[t], a)
}

/// A call returned the address `a`.
pub open spec fn returned(r: Option<String>, a: Seq<char>) -> bool {
    r matches Some(x) && x@ == a
}

/// `rs` are the results of `rs.len()` consecutive `next_node` calls on the
/// balancer `vs[0]`, `vs[t + 1]` being the balancer after call `t`.
pub open spec fn consecutive_next_nodes(vs: Seq<LbView>, rs: Seq<Option<String>>) -> bool {
    &&& vs.len() == rs.len() + 1
    &&& forall|t: int| 0 <= t < rs.len() ==> {
        &&& vs[t + 1].nodes == vs[t].nodes
        &&& vs[t + 1].enabled == vs[t].enabled
        &&& vs[t + 1].config == vs[t].config
        &&& next_node_chosen(vs[t], #[trigger] rs[t], vs[t + 1].index)
    }
}

/// No enabled node of `v` has an open circuit.
pub open spec fn no_open_circuit(v: LbView) -> bool {
    forall|j: int| 0 <= j < v.enabled.len() ==>
        v.nodes[key_index(v.nodes, (#[trigger] v.enabled[j])@)].1.circuit_state != CircuitBreakerState::Open
}

/// Along consecutive calls the tables stay those of `vs[0]` and, after the
/// first call, the index is `(vs[0].index + t) % len`.
proof fn lemma_calls_prefix(vs: Seq<LbView>, rs: Seq<Option<String>>, t: int)
    requires
        consecutive_next_nodes(vs, rs),
        lb_inv(vs[0].nodes, vs[0].enabled),
        0 < vs[0].enabled.len() <= usize::MAX,
        vs[0].index < usize::MAX,
        no_open_circuit(vs[0]),
        0 <= t <= rs.len(),
    ensures
        vs[t].nodes == vs[0].nodes,
        vs[t].enabled == vs[0].enabled,
        t >= 1 ==> vs[t].index == (vs[0].index + t) % (vs[0].enabled.len() as int),
    decreases t,
{
    if t > 0 {
        lemma_calls_prefix(vs, rs, t - 1);
        let len = vs[0].enabled.len() as int;
        let u = vs[t - 1];
        assert(next_node_chosen(u, rs[t - 1], vs[t].index));
        lemma_round_robin_without_open_circuits(u, rs[t - 1], vs[t].index);
        if t == 1 {
            assert(vs[t].index == rr_step(vs[0].index, vs[0].enabled.len()));
        } else {
            let x = (vs[0].index + t - 1) % len;
            vstd::arithmetic::div_mod::lemma_mod_pos_bound(vs[0].index + t - 1, len);
            assert(u.index == x);
            assert(vs[t].index == (x + 1) % len);
            vstd::arithmetic::div_mod::lemma_add_mod_noop(vs[0].index + t - 1, 1, len);
            if len > 1 {
                vstd::arithmetic::div_mod::lemma_small_mod(1, len as nat);
            } else {
                vstd::arithmetic::div_mod::lemma_small_mod(0, 1);
                assert(1int % 1 == 0);
            }
        }
    }
}

/// Positions less than `m` apart are different modulo `m`.
proof fn lemma_mod_window_distinct(a: int, b: int, m: int)
    requires
        0 < m,
        0 <= a < b < a + m,
    ensures
        a % m != b % m,
{
    vstd::arithmetic::div_mod::lemma_fundamental_div_mod(a, m);
    vstd::arithmetic::div_mod::lemma_fundamental_div_mod(b, m);
    vstd::arithmetic::div_mod::lemma_mod_pos_bound(a, m);
    vstd::arithmetic::div_mod::lemma_mod_pos_bound(b, m);
    if a % m == b % m {
        assert(b - a == m * (b / m - a / m)) by (nonlinear_arith)
            requires
                a == m * (a / m) + a % m,
                b == m * (b / m) + b % m,
                a % m == b % m,
        ;
        assert(false) by (nonlinear_arith)
            requires
                b - a == m * (b / m - a / m),
                0 < b - a < m,
        ;
    }
}

/// With no open circuit among the enabled nodes, consecutive `next_node`
/// calls return the enabled addresses in circular order from the index, so
/// any `len` consecutive calls return each enabled address, and, the enabled
/// addresses being distinct, each exactly once.
pub proof fn lemma_round_robin_fair(vs: Seq<LbView>, rs: Seq<Option<String>>)
    requires
        consecutive_next_nodes(vs, rs),
        lb_inv(vs[0].nodes, vs[0].enabled),
        0 < vs[0].enabled.len() <= usize::MAX,
        vs[0].index < usize::MAX,
        no_open_circuit(vs[0]),
    ensures
        forall|t: int| 0 <= t < rs.len() ==> returned(#[trigger] rs[t], vs[0].enabled[(vs[0].index + t) % (vs[0].enabled.len() as int)]@),
        forall|s: int, p: int| 0 <= s && s + vs[0].enabled.len() <= rs.len() && 0 <= p < vs[0].enabled.len()
            ==> #[trigger] returned_within(rs, s, vs[0].enabled.len() as int, vs[0].enabled[p]@),
        (forall|i: int, j: int| 0 <= i < j < vs[0].enabled.len() ==> vs[0].enabled[i]@ != vs[0].enabled[j]@)
            ==> forall|t1: int, t2: int| 0 <= t1 < t2 < rs.len() && t2 < t1 + vs[0].enabled.len()
                ==> (#[trigger] rs[t1])->0@ != (#[trigger] rs[t2])->0@,
{
    let e = vs[0].enabled;
    let len = e.len() as int;
    let i0 = vs[0].index as int;
    assert forall|t: int| 0 <= t < rs.len() implies returned(#[trigger] rs[t], e[(i0 + t) % len]@) by {
        lemma_calls_prefix(vs, rs, t);
        lemma_round_robin_without_open_circuits(vs[t], rs[t], vs[t + 1].index);
        if t >= 1 {
            vstd::arithmetic::div_mod::lemma_mod_twice(i0 + t, len);
        }
    }
    assert forall|s: int, p: int| 0 <= s && s + len <= rs.len() && 0 <= p < len
        implies #[trigger] returned_within(rs, s, len, e[p]@) by {
        let d = (p - (i0 + s)) % len;
        vstd::arithmetic::div_mod::lemma_mod_bound(p - (i0 + s), len);
        assert(0 <= d < len);
        let t = s + d;
        vstd::arithmetic::div_mod::lemma_add_mod_noop_right(i0 + s, p - (i0 + s), len);
        vstd::arithmetic::div_mod::lemma_small_mod(p as nat, len as nat);
        assert((i0 + t) % len == p);
        assert(returned(rs[t], e[(i0 + t) % len]@));
    }
    if forall|i: int, j: int| 0 <= i < j < len ==> e[i]@ != e[j]@ {
        assert forall|t1: int, t2: int| 0 <= t1 < t2 < rs.len() && t2 < t1 + len
            implies (#[trigger] rs[t1])->0@ != (#[trigger] rs[t2])->0@ by {
            lemma_mod_window_distinct(i0 + t1, i0 + t2, len);
            vstd::arithmetic::div_mod::lemma_mod_pos_bound(i0 + t1, len);
            vstd::arithmetic::div_mod::lemma_mod_pos_bound(i0 + t2, len);
            let q1 = (i0 + t1) % len;
            let q2 = (i0 + t2) % len;
            assert(returned(rs[t1], e[q1]@));
            assert(returned(rs[t2], e[q2]@));
            if q1 < q2 {
                assert(e[q1]@ != e[q2]@);
            } else {
                assert(e[q2]@ != e[q1]@);
            }
        }
    }
}

} // verus!
