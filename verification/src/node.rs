//! A compute node as the load balancer sees it, with its circuit breaker.

use vstd::prelude::*;
use std::time::{Duration, Instant, SystemTime};
use crate::clock::{duration_from_millis, duration_of_millis, system_now, system_elapsed_ms};

verus! {

/// Why a node is disabled.
#[derive(Debug, Clone, Copy, PartialEq, Eq, Structural)]
pub enum DisableReason {
    /// Manually disabled by the user: never re-enabled automatically
    Manual,
    /// Disabled after failed health checks: re-enabled on recovery
    HealthCheck,
}

/// Result of a health check.
#[derive(Debug, PartialEq, Eq)]
pub enum HealthCheckStatus {
    Healthy,
    Unhealthy(String),
}

impl Clone for HealthCheckStatus {
    fn clone(&self) -> (r: Self)
        ensures
            r == *self,
    {
        match self {
            HealthCheckStatus::Healthy => HealthCheckStatus::Healthy,
            HealthCheckStatus::Unhealthy(msg) => HealthCheckStatus::Unhealthy(msg.clone()),
        }
    }
}

/// Circuit breaker state of a node.
#[derive(Debug, Clone, Copy, PartialEq, Eq, Structural)]
pub enum CircuitBreakerState {
    /// Normal operation, requests flow through
    Closed,
    /// Tripped: requests skip the node
    Open,
    /// Testing whether the node has recovered
    HalfOpen,
}

/// Circuit breaker configuration.
///
/// The backoff multiplier is a whole factor: the open-circuit timeout after `n`
/// consecutive failures is `base * multiplier^(n-1)`, capped at the maximum.
#[derive(Debug, Clone, Copy)]
pub struct CircuitBreakerConfig {
    /// Consecutive failures that trip the circuit
    pub failure_threshold: u32,
    /// Base timeout before trying half-open (seconds)
    pub base_timeout_secs: u64,
    /// Cap on the timeout (seconds)
    pub max_timeout_secs: u64,
    /// Exponential backoff factor
    pub backoff_multiplier: u32,
}

/// `b` to the power `e`.
pub open spec fn power(b: nat, e: nat) -> nat
    decreases e,
{
    if e == 0 {
        1
    } else {
        b * power(b, (e - 1) as nat)
    }
}

/// The smaller of two numbers.
pub open spec fn min_nat(a: nat, b: nat) -> nat {
    if a <= b { a } else { b }
}

/// The open-circuit timeout in milliseconds after `n` consecutive failures:
/// `base * multiplier^(n-1)` capped at the maximum; with no failure, the base
/// divided by the multiplier (when the multiplier is zero: the maximum, or
/// zero for a zero base).
pub open spec fn timeout_ms(c: CircuitBreakerConfig, n: u32) -> nat {
    let base: nat = (c.base_timeout_secs * 1000) as nat;
    let max: nat = (c.max_timeout_secs * 1000) as nat;
    let m: nat = c.backoff_multiplier as nat;
    if n == 0 {
        if m == 0 { if base == 0 { 0 } else { max } } else { min_nat(base / m, max) }
    } else {
        min_nat(base * power(m, (n - 1) as nat), max)
    }
}

/// Powers of a factor of at least one grow with the exponent.
pub proof fn lemma_power_mono(b: nat, e1: nat, e2: nat)
    requires
        b >= 1,
        e1 <= e2,
    ensures
        power(b, e1) <= power(b, e2),
    decreases e2,
{
    if e1 < e2 {
        lemma_power_mono(b, e1, (e2 - 1) as nat);
        assert(power(b, (e2 - 1) as nat) <= b * power(b, (e2 - 1) as nat)) by (nonlinear_arith)
            requires
                b >= 1,
        ;
    }
}

impl CircuitBreakerConfig {
    /// The timeouts, in milliseconds, fit in 64 bits.
    pub open spec fn wf(&self) -> bool {
        &&& self.base_timeout_secs * 1000 <= u64::MAX
        &&& self.max_timeout_secs * 1000 <= u64::MAX
    }

    /// The open-circuit timeout in milliseconds after `consecutive_failures` failures.
    pub fn calculate_timeout_ms(&self, consecutive_failures: u32) -> (t: u64)
        requires
            self.wf(),
        ensures
            t == timeout_ms(*self, consecutive_failures),
    {
        let base = self.base_timeout_secs * 1000;
        let max = self.max_timeout_secs * 1000;
        let m = self.backoff_multiplier as u64;
        let n = consecutive_failures;
        if n == 0 {
            if m == 0 {
                return if base == 0 { 0 } else { max };
            }
            let b = base / m;
            return if b <= max { b } else { max };
        }
        if m == 0 {
            proof {
                if n > 1 {
                    assert(power(0, (n - 1) as nat) == 0 * power(0, (n - 2) as nat));
                    assert(power(0, (n - 1) as nat) == 0);
                    assert((base as nat) * power(0, (n - 1) as nat) == 0);
                    assert(timeout_ms(*self, consecutive_failures) == 0);
                }
            }
            if n == 1 {
                assert(power(0, 0) == 1);
                assert((base as nat) * power(0, 0) == base);
                assert(timeout_ms(*self, consecutive_failures) == min_nat(base as nat, max as nat));
                return if base <= max { base } else { max };
            } else {
                return 0;
            }
        }
        if base == 0 {
            proof {
                assert(0 * power(m as nat, (n - 1) as nat) == 0);
            }
            return 0;
        }
        let mut t: u64 = base;
        let mut k: u32 = 1;
        assert(power(m as nat, 0) == 1);
        assert(base * power(m as nat, 0) == base);
        assert(t == base * power(m as nat, (k - 1) as nat));
        while k < n && t < max
            invariant
                1 <= k <= n,
                m >= 1,
                base >= 1,
                t == base * power(m as nat, (k - 1) as nat),
                base == self.base_timeout_secs * 1000,
                max == self.max_timeout_secs * 1000,
                n == consecutive_failures,
                m == self.backoff_multiplier as u64,
            decreases n - k,
        {
            if t > max / m {
                proof {
                    assert(t * m > max) by (nonlinear_arith)
                        requires
                            t > max / m,
                            m >= 1,
                    ;
                    assert(base * power(m as nat, k as nat) == t * m) by (nonlinear_arith)
                        requires
                            t == base * power(m as nat, (k - 1) as nat),
                            power(m as nat, k as nat) == m * power(m as nat, (k - 1) as nat),
                    ;
                    lemma_power_mono(m as nat, k as nat, (n - 1) as nat);
                    assert(base * power(m as nat, k as nat) <= base * power(m as nat, (n - 1) as nat)) by (nonlinear_arith)
                        requires
                            power(m as nat, k as nat) <= power(m as nat, (n - 1) as nat),
                    ;
                    assert((base as nat) * power(m as nat, (n - 1) as nat) > max);

                }
                return max;
            }
            proof {
                assert(t * m <= max) by (nonlinear_arith)
                    requires
                        t <= max / m,
                        m >= 1,
                ;
                assert(base * power(m as nat, k as nat) == t * m) by (nonlinear_arith)
                    requires
                        t == base * power(m as nat, (k - 1) as nat),
                        power(m as nat, k as nat) == m * power(m as nat, (k - 1) as nat),
                ;
            }
            t = t * m;
            k = k + 1;
        }
        if t >= max {
            proof {
                lemma_power_mono(m as nat, (k - 1) as nat, (n - 1) as nat);
                assert(base * power(m as nat, (k - 1) as nat) <= base * power(m as nat, (n - 1) as nat)) by (nonlinear_arith)
                    requires
                        power(m as nat, (k - 1) as nat) <= power(m as nat, (n - 1) as nat),
                ;
            }
            max
        } else {
            t
        }
    }

    /// The open-circuit timeout after `consecutive_failures` failures.
    pub fn calculate_timeout(&self, consecutive_failures: u32) -> (d: Duration)
        requires
            self.wf(),
        ensures
            d == duration_of_millis(timeout_ms(*self, consecutive_failures) as u64),
    {
        duration_from_millis(self.calculate_timeout_ms(consecutive_failures))
    }
}

impl Default for CircuitBreakerConfig {
    /// Five failures trip the circuit; 30 s base timeout doubling up to 5 minutes.
    fn default() -> (c: Self)
        ensures
            c.failure_threshold == 5,
            c.base_timeout_secs == 30,
            c.max_timeout_secs == 300,
            c.backoff_multiplier == 2,
    {
        CircuitBreakerConfig { failure_threshold: 5, base_timeout_secs: 30, max_timeout_secs: 300, backoff_multiplier: 2 }
    }
}

/// A node with its state.
#[derive(Debug)]
pub struct Node {
    pub addr: String,
    pub enabled: bool,
    pub disable_reason: Option<DisableReason>,
    pub consecutive_failures: u32,
    pub last_health_check: Option<Instant>,
    pub last_health_check_status: Option<HealthCheckStatus>,
    /// Circuit breaker state
    pub circuit_state: CircuitBreakerState,
    /// When the circuit was opened
    pub circuit_opened_at: Option<SystemTime>,
}

impl Clone for Node {
    fn clone(&self) -> (r: Self)
        ensures
            r == *self,
    {
        Node {
            addr: self.addr.clone(),
            enabled: self.enabled,
            disable_reason: self.disable_reason,
            consecutive_failures: self.consecutive_failures,
            last_health_check: self.last_health_check,
            last_health_check_status: match &self.last_health_check_status {
                Some(s) => Some(s.clone()),
                None => None,
            },
            circuit_state: self.circuit_state,
            circuit_opened_at: self.circuit_opened_at,
        }
    }
}

/// Whether a node with circuit `state`, opened at `opened` (present or not),
/// `elapsed_ms` since then (`None`: unknown, counted as zero), is due to try half-open.
pub open spec fn half_open_due_spec(n: Node, config: CircuitBreakerConfig, elapsed_ms: Option<u128>) -> bool {
    &&& n.circuit_state == CircuitBreakerState::Open
    &&& n.circuit_opened_at is Some
    &&& match elapsed_ms {
        Some(e) => e >= timeout_ms(config, n.consecutive_failures),
        None => timeout_ms(config, n.consecutive_failures) == 0,
    }
}

impl Node {
    /// A fresh node: enabled, no failures, no health check yet, circuit closed.
    pub fn new(addr: String) -> (n: Self)
        ensures
            n.addr == addr,
            n.enabled,
            n.disable_reason is None,
            n.consecutive_failures == 0,
            n.last_health_check is None,
            n.last_health_check_status is None,
            n.circuit_state == CircuitBreakerState::Closed,
            n.circuit_opened_at is None,
    {
        Node {
            addr,
            enabled: true,
            disable_reason: None,
            consecutive_failures: 0,
            last_health_check: None,
            last_health_check_status: None,
            circuit_state: CircuitBreakerState::Closed,
            circuit_opened_at: None,
        }
    }

    /// Whether an open circuit whose opening lies `elapsed_ms` in the past has
    /// waited its backoff timeout (`None`, a clock that went backwards, counts as zero).
    pub fn half_open_due(&self, config: &CircuitBreakerConfig, elapsed_ms: Option<u128>) -> (r: bool)
        requires
            config.wf(),
        ensures
            r == half_open_due_spec(*self, *config, elapsed_ms),
    {
        if self.circuit_state != CircuitBreakerState::Open {
            return false;
        }
        match self.circuit_opened_at {
            Some(_) => {
                let e: u128 = match elapsed_ms {
                    Some(e) => e,
                    None => 0,
                };
                let timeout = config.calculate_timeout_ms(self.consecutive_failures);
                e >= timeout as u128
            },
            None => false,
        }
    }

    /// Whether the circuit is open and has waited its backoff timeout, by the
    /// wall clock now.
    pub fn should_attempt_half_open(&self, config: &CircuitBreakerConfig) -> (r: bool)
        requires
            config.wf(),
        ensures
            r ==> self.circuit_state == CircuitBreakerState::Open && self.circuit_opened_at is Some,
            self.circuit_state == CircuitBreakerState::Open && self.circuit_opened_at is Some
                && timeout_ms(*config, self.consecutive_failures) == 0 ==> r,
    {
        let elapsed = match &self.circuit_opened_at {
            Some(t) => system_elapsed_ms(t),
            None => None,
        };
        self.half_open_due(config, elapsed)
    }

    /// Moves the circuit to `new_state`; opening it records the current time,
    /// closing it or moving it to half-open clears that time.
    pub fn transition_circuit_state(&mut self, new_state: CircuitBreakerState)
        ensures
            final(self).circuit_state == new_state,
            final(self).circuit_opened_at is Some <==> new_state == CircuitBreakerState::Open,
            final(self).addr == old(self).addr,
            final(self).enabled == old(self).enabled,
            final(self).disable_reason == old(self).disable_reason,
            final(self).consecutive_failures == old(self).consecutive_failures,
            final(self).last_health_check == old(self).last_health_check,
            final(self).last_health_check_status == old(self).last_health_check_status,
    {
        self.circuit_state = new_state;
        match new_state {
            CircuitBreakerState::Open => {
                self.circuit_opened_at = Some(system_now());
            },
            CircuitBreakerState::Closed | CircuitBreakerState::HalfOpen => {
                self.circuit_opened_at = None;
            },
        }
    }
}

} // verus!
