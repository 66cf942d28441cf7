//! The error type of the library, its classification and its message.

use vstd::prelude::*;
use crate::text::{decimal, push_str, u64_to_decimal};

verus! {

/// Errors of the RPC system.
///
/// Errors of outside libraries (JSON, I/O) are carried by their message.
#[derive(Debug, Clone, PartialEq, Eq)]
pub enum MadrpcError {
    /// Low-level transport error (e.g., socket read/write failures)
    Transport(String),
    /// JSON serialization or deserialization error
    JsonSerialization(String),
    /// Request timeout after the given number of milliseconds
    Timeout(u64),
    /// Node is unavailable or unreachable
    NodeUnavailable(String),
    /// JavaScript execution error on the compute node
    JavaScriptExecution(String),
    /// Invalid response received from a node
    InvalidResponse(String),
    /// All nodes in the pool failed to process the request
    AllNodesFailed,
    /// Invalid request format or parameters
    InvalidRequest(String),
    /// Standard IO error (file, network, etc.)
    Io(String),
    /// TCP connection error
    Connection(String),
    /// Timeout while acquiring a connection from the pool (milliseconds)
    PoolTimeout(u64),
    /// Connection pool exhausted (all connections in use)
    PoolExhausted(String),
}

/// Transient errors, which may succeed when retried: transport, timeouts,
/// unavailable nodes, I/O, connections and pool timeouts.
pub open spec fn retryable(e: MadrpcError) -> bool {
    match e {
        MadrpcError::Transport(_) => true,
        MadrpcError::Timeout(_) => true,
        MadrpcError::NodeUnavailable(_) => true,
        MadrpcError::Io(_) => true,
        MadrpcError::Connection(_) => true,
        MadrpcError::PoolTimeout(_) => true,
        _ => false,
    }
}

/// The text of an error.
pub open spec fn error_message(e: MadrpcError) -> Seq<char> {
    match e {
        MadrpcError::Transport(s) => "Transport error: "@ + s@,
        MadrpcError::JsonSerialization(s) => "JSON serialization error: "@ + s@,
        MadrpcError::Timeout(ms) => "Request timeout after "@ + decimal(ms as nat) + "ms"@,
        MadrpcError::NodeUnavailable(s) => "Node unavailable: "@ + s@,
        MadrpcError::JavaScriptExecution(s) => "JavaScript execution error: "@ + s@,
        MadrpcError::InvalidResponse(s) => "Invalid response: "@ + s@,
        MadrpcError::AllNodesFailed => "All nodes failed"@,
        MadrpcError::InvalidRequest(s) => "Invalid request: "@ + s@,
        MadrpcError::Io(s) => "IO error: "@ + s@,
        MadrpcError::Connection(s) => "Connection error: "@ + s@,
        MadrpcError::PoolTimeout(ms) => "Pool acquisition timeout after "@ + decimal(ms as nat) + "ms"@,
        MadrpcError::PoolExhausted(s) => "Connection pool exhausted for "@ + s@,
    }
}

/// `prefix` followed by `rest`.
fn concat(prefix: &str, rest: &str) -> (s: String)
    ensures
        s@ == prefix@ + rest@,
{
    let mut s = prefix.to_owned();
    push_str(&mut s, rest);
    s
}

/// `prefix`, `n` in decimal, then `suffix`.
fn with_number(prefix: &str, n: u64, suffix: &str) -> (s: String)
    ensures
        s@ == prefix@ + decimal(n as nat) + suffix@,
{
    let mut s = prefix.to_owned();
    let digits = u64_to_decimal(n);
    push_str(&mut s, digits.as_str());
    push_str(&mut s, suffix);
    s
}

impl MadrpcError {
    /// Whether the error is transient and the operation may be retried.
    pub fn is_retryable(&self) -> (r: bool)
        ensures
            r == retryable(*self),
    {
        match self {
            MadrpcError::Transport(_) => true,
            MadrpcError::Timeout(_) => true,
            MadrpcError::NodeUnavailable(_) => true,
            MadrpcError::Io(_) => true,
            MadrpcError::Connection(_) => true,
            MadrpcError::PoolTimeout(_) => true,
            _ => false,
        }
    }

    /// The text of the error, as displayed.
    pub fn message(&self) -> (m: String)
        ensures
            m@ == error_message(*self),
    {
        match self {
            MadrpcError::Transport(s) => concat("Transport error: ", s.as_str()),
            MadrpcError::JsonSerialization(s) => concat("JSON serialization error: ", s.as_str()),
            MadrpcError::Timeout(ms) => with_number("Request timeout after ", *ms, "ms"),
            MadrpcError::NodeUnavailable(s) => concat("Node unavailable: ", s.as_str()),
            MadrpcError::JavaScriptExecution(s) => concat("JavaScript execution error: ", s.as_str()),
            MadrpcError::InvalidResponse(s) => concat("Invalid response: ", s.as_str()),
            MadrpcError::AllNodesFailed => "All nodes failed".to_owned(),
            MadrpcError::InvalidRequest(s) => concat("Invalid request: ", s.as_str()),
            MadrpcError::Io(s) => concat("IO error: ", s.as_str()),
            MadrpcError::Connection(s) => concat("Connection error: ", s.as_str()),
            MadrpcError::PoolTimeout(ms) => with_number("Pool acquisition timeout after ", *ms, "ms"),
            MadrpcError::PoolExhausted(s) => concat("Connection pool exhausted for ", s.as_str()),
        }
    }
}

} // verus!
