//! Client-side decisions: building calls, reading the answer of a server,
//! classifying failures and deciding when to retry. The HTTP exchange and the
//! waiting between attempts are done by the application.

use vstd::prelude::*;
use vstd::utf8::encode_utf8;
use serde_json::Value;
use crate::error::{retryable, MadrpcError};
use crate::protocol::{json_is_null, json_null, json_of_u64, value_from_u64, JsonRpcRequest, JsonRpcResponse};
use crate::text::{bytes_contain, decimal, push_str, str_contains, u64_to_decimal};

verus! {

/// Source of JSON-RPC call identifiers: 0, 1, 2, ... (wrapping).
#[derive(Debug)]
pub struct RequestCounter {
    next: u64,
}

impl View for RequestCounter {
    type V = u64;

    closed spec fn view(&self) -> u64 {
        self.next
    }
}

impl RequestCounter {
    /// A counter starting at zero.
    pub fn new() -> (c: Self)
        ensures
            c@ == 0,
    {
        RequestCounter { next: 0 }
    }

    /// The next identifier; the counter advances by one (wrapping).
    pub fn next_id(&mut self) -> (id: u64)
        ensures
            id == old(self)@,
            final(self)@ == (if old(self)@ == u64::MAX { 0 } else { (old(self)@ + 1) as u64 }),
    {
        let id = self.next;
        self.next = self.next.wrapping_add(1);
        id
    }
}

/// A JSON-RPC 2.0 call of `method` with `params`, identified by the number `id`.
pub fn build_call_request(method: &str, params: Value, id: u64) -> (r: JsonRpcRequest)
    ensures
        r.jsonrpc@ == "2.0"@,
        r.method@ == method@,
        r.params == params,
        r.id == json_of_u64(id),
{
    JsonRpcRequest { jsonrpc: "2.0".to_owned(), method: method.to_owned(), params, id: value_from_u64(id) }
}

/// The error a JSON-RPC error answer stands for: codes at or below -32000
/// (server errors, and also the standard codes, which all lie below) are an
/// unavailable node when the message mentions "timeout" or "unavailable",
/// else an execution error; any other code is an execution error.
pub open spec fn rpc_error_class(code: i32, message: Seq<char>, e: MadrpcError) -> bool {
    let bytes = encode_utf8(message);
    if code <= -32000 {
        if bytes_contain(bytes, encode_utf8("timeout"@)) || bytes_contain(bytes, encode_utf8("unavailable"@)) {
            e matches MadrpcError::NodeUnavailable(m) && m@ == message
        } else {
            e matches MadrpcError::JavaScriptExecution(m) && m@ == message
        }
    } else {
        e matches MadrpcError::JavaScriptExecution(m) && m@ == message
    }
}

/// Classifies a JSON-RPC error answer (see `rpc_error_class`).
pub fn classify_rpc_error(code: i32, message: &str) -> (e: MadrpcError)
    ensures
        rpc_error_class(code, message@, e),
{
    if code <= -32000 {
        if str_contains(message, "timeout") || str_contains(message, "unavailable") {
            MadrpcError::NodeUnavailable(message.to_owned())
        } else {
            MadrpcError::JavaScriptExecution(message.to_owned())
        }
    } else {
        MadrpcError::JavaScriptExecution(message.to_owned())
    }
}

/// The error an HTTP status stands for, if any: none for 2xx; a transport
/// error for 5xx; an invalid response otherwise. `status_text` is the
/// status as displayed (e.g. "503 Service Unavailable").
pub fn http_status_error(status: u16, status_text: &str) -> (r: Option<MadrpcError>)
    ensures
        200 <= status < 300 <==> r is None,
        500 <= status < 600 ==> (r matches Some(MadrpcError::Transport(m)) && m@ == "HTTP error: "@ + status_text@),
        !(200 <= status < 300) && !(500 <= status < 600) ==> (r matches Some(MadrpcError::InvalidResponse(m))
            && m@ == "HTTP error: "@ + status_text@),
{
    if 200 <= status && status < 300 {
        return None;
    }
    let mut m = "HTTP error: ".to_owned();
    push_str(&mut m, status_text);
    if 500 <= status && status < 600 {
        Some(MadrpcError::Transport(m))
    } else {
        Some(MadrpcError::InvalidResponse(m))
    }
}

/// The outcome of a call from the server's JSON-RPC answer: its error
/// classified (see `rpc_error_class`), else its result (`null` when absent).
pub fn response_outcome(response: JsonRpcResponse) -> (r: Result<Value, MadrpcError>)
    ensures
        match response.error {
            Some(err) => r matches Err(e) && rpc_error_class(err.code, err.message@, e),
            None => match response.result {
                Some(v) => r == Ok::<Value, MadrpcError>(v),
                None => r matches Ok(v) && json_is_null(v),
            },
        },
{
    match response.error {
        Some(err) => Err(classify_rpc_error(err.code, err.message.as_str())),
        None => match response.result {
            Some(v) => Ok(v),
            None => Ok(json_null()),
        },
    }
}

/// What a call does after attempt `attempt` of `max_attempts`.
#[derive(Debug)]
pub enum CallDecision {
    /// The call is over, with this result
    Return(Result<Value, MadrpcError>),
    /// Wait the delay of this attempt number, then try again
    Retry(u32),
}

/// After attempt `attempt` (from 1) of `max_attempts`: a success or a
/// non-retryable failure ends the call; a retryable failure is retried
/// while attempts remain, and otherwise ends the call with that failure.
pub fn retry_decision(attempt: u32, max_attempts: u32, result: Result<Value, MadrpcError>) -> (d: CallDecision)
    requires
        1 <= attempt <= max_attempts,
    ensures
        match result {
            Ok(v) => d == CallDecision::Return(Ok(v)),
            Err(e) => if retryable(e) && attempt < max_attempts {
                d == CallDecision::Retry(attempt)
            } else {
                d == CallDecision::Return(Err(e))
            },
        },
{
    match result {
        Ok(v) => CallDecision::Return(Ok(v)),
        Err(e) => {
            if e.is_retryable() && attempt < max_attempts {
                CallDecision::Retry(attempt)
            } else {
                CallDecision::Return(Err(e))
            }
        },
    }
}

/// The failure of a call allowed no attempt at all.
pub fn exhausted_error() -> (e: MadrpcError)
    ensures
        e matches MadrpcError::InvalidResponse(m) && m@ == "All retry attempts exhausted"@,
{
    MadrpcError::InvalidResponse("All retry attempts exhausted".to_owned())
}

/// The error when the client cannot be built for `base_url`.
pub fn client_creation_error(detail: &str) -> (e: MadrpcError)
    ensures
        e matches MadrpcError::Transport(m) && m@ == "Failed to create RPC client: "@ + detail@,
{
    let mut m = "Failed to create RPC client: ".to_owned();
    push_str(&mut m, detail);
    MadrpcError::Transport(m)
}

/// The error when the HTTP request cannot be built; `detail` is the builder's text.
pub fn invalid_http_request_error(detail: &str) -> (e: MadrpcError)
    ensures
        e matches MadrpcError::InvalidRequest(m) && m@ == "Invalid HTTP request: "@ + detail@,
{
    let mut m = "Invalid HTTP request: ".to_owned();
    push_str(&mut m, detail);
    MadrpcError::InvalidRequest(m)
}

/// The error when the HTTP request cannot be sent; `detail` is the client's text.
pub fn request_failed_error(detail: &str) -> (e: MadrpcError)
    ensures
        e matches MadrpcError::Transport(m) && m@ == "HTTP request failed: "@ + detail@,
{
    let mut m = "HTTP request failed: ".to_owned();
    push_str(&mut m, detail);
    MadrpcError::Transport(m)
}

/// The error when the response body cannot be read; `detail` is the reader's text.
pub fn body_read_error(detail: &str) -> (e: MadrpcError)
    ensures
        e matches MadrpcError::Transport(m) && m@ == "Failed to read response body: "@ + detail@,
{
    let mut m = "Failed to read response body: ".to_owned();
    push_str(&mut m, detail);
    MadrpcError::Transport(m)
}

/// The error when the response body is not a JSON-RPC response; `detail` is
/// the parser's text.
pub fn unparsable_response_error(detail: &str) -> (e: MadrpcError)
    ensures
        e matches MadrpcError::InvalidResponse(m) && m@ == "Failed to parse JSON-RPC response: "@ + detail@,
{
    let mut m = "Failed to parse JSON-RPC response: ".to_owned();
    push_str(&mut m, detail);
    MadrpcError::InvalidResponse(m)
}

} // verus!
