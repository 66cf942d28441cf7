//! Protocol values: requests and responses of the framed protocol, JSON-RPC
//! 2.0 messages, node registration, and request identifiers.

use vstd::prelude::*;
use serde_json::Value;
use crate::clock::{secs_since_epoch, system_now};
use crate::text::{decimal, push_str, u64_to_decimal};

verus! {

/// `serde_json::Value`, carried as an opaque value.
#[verifier::external_type_specification]
#[verifier::external_body]
pub struct ExValue(Value);

/// The JSON number `n` (`serde_json::Value::from(n)`, a `Value::Number`).
pub uninterp spec fn json_of_u64(n: u64) -> Value;

/// Whether `v` is the JSON `null` (`serde_json::Value::is_null`).
pub uninterp spec fn json_is_null(v: Value) -> bool;

/// `serde_json::Value::from(n)`: the JSON number `n`. Its result is named
/// `json_of_u64(n)`; nothing more is stated of it.
#[verifier::external_body]
pub(crate) fn value_from_u64(n: u64) -> (v: Value)
    ensures
        v == json_of_u64(n),
{
    Value::from(n)
}

/// `serde_json::Value::Null`, the JSON `null`.
#[verifier::external_body]
pub(crate) fn json_null() -> (v: Value)
    ensures
        json_is_null(v),
{
    Value::Null
}

/// The identifier of a request: the low 32 bits of the wall-clock second in
/// the upper half, the low 32 bits of a per-generator counter in the lower half.
pub open spec fn request_id_of(timestamp_secs: u64, counter: u64) -> u64 {
    (timestamp_secs << 32u64) | (counter & 0xffff_ffffu64)
}

/// The counter `k` draws after `c`, wrapping at 2^64.
pub open spec fn counter_after(c: u64, k: nat) -> u64 {
    ((c + k) % 0x1_0000_0000_0000_0000int) as u64
}

/// Builds a request identifier from a timestamp and a counter value.
pub fn compose_request_id(timestamp_secs: u64, counter: u64) -> (id: u64)
    ensures
        id == request_id_of(timestamp_secs, counter),
        id & 0xffff_ffffu64 == counter & 0xffff_ffffu64,
        id >> 32u64 == timestamp_secs & 0xffff_ffffu64,
{
    let id = (timestamp_secs << 32u64) | (counter & 0xffff_ffffu64);
    assert(id & 0xffff_ffffu64 == counter & 0xffff_ffffu64) by (bit_vector)
        requires
            id == (timestamp_secs << 32u64) | (counter & 0xffff_ffffu64),
    ;
    assert(id >> 32u64 == timestamp_secs & 0xffff_ffffu64) by (bit_vector)
        requires
            id == (timestamp_secs << 32u64) | (counter & 0xffff_ffffu64),
    ;
    id
}

/// Two identifiers drawn from one generator fewer than 2^32 draws apart
/// differ, whatever the clock read at each draw.
pub proof fn lemma_request_ids_distinct(t1: u64, t2: u64, c: u64, k: nat)
    requires
        0 < k < 0x1_0000_0000,
    ensures
        request_id_of(t1, c) != request_id_of(t2, counter_after(c, k)),
{
    let d = counter_after(c, k);
    let kk = k as u64;
    assert(d == ((c + kk) % 0x1_0000_0000_0000_0000int) as u64);
    assert(((c + kk) % 0x1_0000_0000_0000_0000int) as u64 & 0xffff_ffffu64 != c & 0xffff_ffffu64) by (bit_vector)
        requires
            0 < kk < 0x1_0000_0000u64,
    ;
    assert(request_id_of(t1, c) & 0xffff_ffffu64 == c & 0xffff_ffffu64) by (bit_vector);
    assert(request_id_of(t2, d) & 0xffff_ffffu64 == d & 0xffff_ffffu64) by (bit_vector);
}

/// Source of request identifiers: a counter that advances by one per draw.
#[derive(Debug)]
pub struct RequestIdGenerator {
    counter: u64,
}

impl View for RequestIdGenerator {
    type V = u64;

    closed spec fn view(&self) -> u64 {
        self.counter
    }
}

impl RequestIdGenerator {
    /// A generator whose counter starts at zero.
    pub fn new() -> (g: Self)
        ensures
            g@ == 0,
    {
        RequestIdGenerator { counter: 0 }
    }

    /// The counter value the next draw uses.
    pub fn counter(&self) -> (c: u64)
        ensures
            c == self@,
    {
        self.counter
    }
}

/// Draws a request identifier: the current wall-clock second (zero when the
/// clock reads before the epoch) combined with the generator's counter, which
/// then advances by one. The second depends on when the call is made.
pub fn generate_request_id(ids: &mut RequestIdGenerator) -> (id: u64)
    ensures
        exists|t: u64| id == request_id_of(t, old(ids)@),
        id & 0xffff_ffffu64 == old(ids)@ & 0xffff_ffffu64,
        final(ids)@ == counter_after(old(ids)@, 1),
{
    let now = system_now();
    let timestamp = match secs_since_epoch(&now) {
        Some(s) => s,
        None => 0,
    };
    let counter = ids.counter;
    ids.counter = counter.wrapping_add(1);
    let id = compose_request_id(timestamp, counter);
    assert(id == request_id_of(timestamp, old(ids)@));
    id
}

/// A request of the framed protocol.
#[derive(Debug)]
pub struct Request {
    /// Unique identifier for this request
    pub id: u64,
    /// Name of the method to call
    pub method: String,
    /// Arguments as a JSON value
    pub args: Value,
    /// Optional timeout in milliseconds
    pub timeout_ms: Option<u64>,
    /// Optional idempotency key for safe retries
    pub idempotency_key: Option<String>,
}

impl Request {
    /// A request for `method` with `args`, identified by a fresh identifier
    /// from `ids`, with no timeout and no idempotency key.
    pub fn new(method: &str, args: Value, ids: &mut RequestIdGenerator) -> (r: Self)
        ensures
            r.method@ == method@,
            r.args == args,
            r.timeout_ms is None,
            r.idempotency_key is None,
            exists|t: u64| r.id == request_id_of(t, old(ids)@),
            final(ids)@ == counter_after(old(ids)@, 1),
    {
        let id = generate_request_id(ids);
        Request { id, method: method.to_owned(), args, timeout_ms: None, idempotency_key: None }
    }

    /// The same request with a timeout of `timeout_ms` milliseconds.
    pub fn with_timeout(self, timeout_ms: u64) -> (r: Self)
        ensures
            r == (Request { timeout_ms: Some(timeout_ms), ..self }),
    {
        Request { timeout_ms: Some(timeout_ms), ..self }
    }

    /// The same request with `key` as idempotency key.
    pub fn with_idempotency_key(self, key: &str) -> (r: Self)
        ensures
            r.id == self.id,
            r.method == self.method,
            r.args == self.args,
            r.timeout_ms == self.timeout_ms,
            r.idempotency_key matches Some(k) && k@ == key@,
    {
        Request { idempotency_key: Some(key.to_owned()), ..self }
    }
}

/// A response of the framed protocol.
#[derive(Debug)]
pub struct Response {
    /// Request identifier this response corresponds to
    pub id: u64,
    /// Result value (present on success)
    pub result: Option<Value>,
    /// Error message (present on failure)
    pub error: Option<String>,
    /// Whether the request succeeded
    pub success: bool,
}

impl Response {
    /// A successful response to request `id` carrying `result`.
    pub fn success(id: u64, result: Value) -> (r: Self)
        ensures
            r == (Response { id, result: Some(result), error: None, success: true }),
    {
        Response { id, result: Some(result), error: None, success: true }
    }

    /// A failed response to request `id` carrying the message `error`.
    pub fn error(id: u64, error: &str) -> (r: Self)
        ensures
            r.id == id,
            r.result is None,
            r.error matches Some(e) && e@ == error@,
            !r.success,
    {
        Response { id, result: None, error: Some(error.to_owned()), success: false }
    }
}

/// Invalid JSON was received.
pub const PARSE_ERROR: i32 = -32700;
/// The JSON sent is not a valid request object.
pub const INVALID_REQUEST: i32 = -32600;
/// The method does not exist.
pub const METHOD_NOT_FOUND: i32 = -32601;
/// Invalid method parameters.
pub const INVALID_PARAMS: i32 = -32602;
/// Internal JSON-RPC error.
pub const INTERNAL_ERROR: i32 = -32603;
/// The request body exceeds the size limit.
pub const REQUEST_TOO_LARGE: i32 = -32001;
/// Generic server error.
pub const SERVER_ERROR: i32 = -32000;

/// A JSON-RPC 2.0 request.
#[derive(Debug)]
pub struct JsonRpcRequest {
    /// Protocol version, "2.0"
    pub jsonrpc: String,
    /// Method name
    pub method: String,
    /// Parameters
    pub params: Value,
    /// Request identifier
    pub id: Value,
}

/// A JSON-RPC 2.0 error object.
#[derive(Debug)]
pub struct JsonRpcError {
    /// Error code
    pub code: i32,
    /// Short description
    pub message: String,
    /// Additional data
    pub data: Option<Value>,
}

/// A JSON-RPC 2.0 response.
#[derive(Debug)]
pub struct JsonRpcResponse {
    /// Protocol version, "2.0"
    pub jsonrpc: String,
    /// Result (on success)
    pub result: Option<Value>,
    /// Error (on failure)
    pub error: Option<JsonRpcError>,
    /// Identifier of the request answered
    pub id: Value,
}

/// The error object with `code` and `message` and no data.
pub open spec fn rpc_error(e: JsonRpcError, code: i32, message: Seq<char>) -> bool {
    e.code == code && e.message@ == message && e.data is None
}

/// The message of a request-too-large error.
pub open spec fn too_large_message(limit: nat) -> Seq<char> {
    "Request body too large (max "@ + decimal(limit) + " bytes)"@
}

impl JsonRpcError {
    /// Invalid JSON was received (-32700).
    pub fn parse_error() -> (e: Self)
        ensures
            rpc_error(e, PARSE_ERROR, "Parse error"@),
    {
        JsonRpcError { code: PARSE_ERROR, message: "Parse error".to_owned(), data: None }
    }

    /// Not a valid request object (-32600).
    pub fn invalid_request() -> (e: Self)
        ensures
            rpc_error(e, INVALID_REQUEST, "Invalid Request"@),
    {
        JsonRpcError { code: INVALID_REQUEST, message: "Invalid Request".to_owned(), data: None }
    }

    /// The method does not exist (-32601).
    pub fn method_not_found() -> (e: Self)
        ensures
            rpc_error(e, METHOD_NOT_FOUND, "Method not found"@),
    {
        JsonRpcError { code: METHOD_NOT_FOUND, message: "Method not found".to_owned(), data: None }
    }

    /// Invalid parameters (-32602) with the message `msg`.
    pub fn invalid_params(msg: &str) -> (e: Self)
        ensures
            rpc_error(e, INVALID_PARAMS, msg@),
    {
        JsonRpcError { code: INVALID_PARAMS, message: msg.to_owned(), data: None }
    }

    /// Internal error (-32603) with the message `msg`.
    pub fn internal_error(msg: &str) -> (e: Self)
        ensures
            rpc_error(e, INTERNAL_ERROR, msg@),
    {
        JsonRpcError { code: INTERNAL_ERROR, message: msg.to_owned(), data: None }
    }

    /// Server error (-32000) with the message `msg`.
    pub fn server_error(msg: &str) -> (e: Self)
        ensures
            rpc_error(e, SERVER_ERROR, msg@),
    {
        JsonRpcError { code: SERVER_ERROR, message: msg.to_owned(), data: None }
    }

    /// The request body exceeds `limit` bytes (-32001).
    pub fn request_too_large(limit: usize) -> (e: Self)
        ensures
            rpc_error(e, REQUEST_TOO_LARGE, too_large_message(limit as nat)),
    {
        let mut message = "Request body too large (max ".to_owned();
        let digits = u64_to_decimal(limit as u64);
        push_str(&mut message, digits.as_str());
        push_str(&mut message, " bytes)");
        JsonRpcError { code: REQUEST_TOO_LARGE, message, data: None }
    }
}

impl JsonRpcResponse {
    /// A successful response to request `id` carrying `result`.
    pub fn success(id: Value, result: Value) -> (r: Self)
        ensures
            r.jsonrpc@ == "2.0"@,
            r.result == Some(result),
            r.error is None,
            r.id == id,
    {
        JsonRpcResponse { jsonrpc: "2.0".to_owned(), result: Some(result), error: None, id }
    }

    /// A failed response to request `id` carrying `error`.
    pub fn error(id: Value, error: JsonRpcError) -> (r: Self)
        ensures
            r.jsonrpc@ == "2.0"@,
            r.result is None,
            r.error == Some(error),
            r.id == id,
    {
        JsonRpcResponse { jsonrpc: "2.0".to_owned(), result: None, error: Some(error), id }
    }
}

/// Node registration request: sent by a node to register itself with an orchestrator.
#[derive(Debug, Clone)]
pub struct NodeRegistrationRequest {
    /// The URL where the node is accessible
    pub node_url: String,
}

/// Node registration response.
#[derive(Debug, Clone)]
pub struct NodeRegistrationResponse {
    /// The URL that was registered (may differ from the request URL)
    pub registered_url: String,
    /// Whether this is a new registration or a duplicate
    pub is_new_registration: bool,
}

} // verus!
