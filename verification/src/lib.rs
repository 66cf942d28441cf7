//! MaDRPC: the verified core of a distributed JSON-RPC system: load
//! balancing with circuit breakers, health-check decisions, metrics
//! bookkeeping, message framing, authentication and protocol values.

pub mod text;
pub mod latency;
pub mod named_map;
pub mod builtin;
pub mod clock;
pub mod table;
pub mod registry;
pub mod node;
pub mod load_balancer;
pub mod error;
pub mod protocol;
pub mod auth;
pub mod collector;
pub mod transport;
pub mod health;
pub mod orchestrator;
pub mod pool;
pub mod client;
pub mod admission;
pub mod rate_limit;
pub mod cli;
