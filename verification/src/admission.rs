//! The HTTP server's decisions: admission of JSON-RPC requests
//! (authentication first, then the content type), routing by method, and
//! the JSON-RPC reply to a handled call.

use vstd::prelude::*;
use vstd::utf8::encode_utf8;
use vstd::string::StringSliceAdditionalSpecFns;
use crate::auth::{key_accepted, AuthConfig};
use crate::error::{error_message, MadrpcError};
use crate::protocol::{rpc_error, JsonRpcError, JsonRpcResponse, SERVER_ERROR};
use crate::text::{bytes_contain, str_contains, str_eq};
use serde_json::Value;

verus! {

/// What the server does with a request before reading its body.
#[derive(Debug, Clone, Copy, PartialEq, Eq, Structural)]
pub enum Admission {
    /// Handle the request
    Accept,
    /// Answer 401: the API key is missing or wrong
    Unauthorized,
    /// Answer 415: the content type is not JSON
    UnsupportedMediaType,
}

/// The admission of a request presenting the API key header `api_key` and
/// the content type `content_type` (an unreadable header counts as empty):
/// a wrong or missing key when authentication is on gives `Unauthorized`;
/// otherwise a content type that does not mention "application/json" gives
/// `UnsupportedMediaType`; an absent content type is accepted.
pub open spec fn admission_of(expected: Option<Seq<char>>, api_key: Option<Seq<char>>, content_type: Option<Seq<char>>) -> Admission {
    let key = match api_key {
        Some(k) => k,
        None => Seq::<char>::empty(),
    };
    if expected is Some && !key_accepted(expected, key) {
        Admission::Unauthorized
    } else if content_type matches Some(ct) && !bytes_contain(encode_utf8(ct), encode_utf8("application/json"@)) {
        Admission::UnsupportedMediaType
    } else {
        Admission::Accept
    }
}

/// The view of an optional string slice.
pub open spec fn opt_view(s: Option<&str>) -> Option<Seq<char>> {
    match s {
        Some(t) => Some(t@),
        None => None,
    }
}

/// Decides the admission of a request (see `admission_of`).
pub fn admit_request(auth: &AuthConfig, api_key: Option<&str>, content_type: Option<&str>) -> (a: Admission)
    ensures
        a == admission_of(auth@, opt_view(api_key), opt_view(content_type)),
{
    if auth.requires_auth() {
        let key = match api_key {
            Some(k) => k,
            None => "",
        };
        proof {
            if api_key is None {
                assert(""@.len() == 0) by {
                    reveal_strlit("");
                }
                assert(""@ =~= Seq::<char>::empty());
            }
        }
        if !auth.validate_api_key(key) {
            return Admission::Unauthorized;
        }
    }
    match content_type {
        Some(ct) => {
            if !str_contains(ct, "application/json") {
                return Admission::UnsupportedMediaType;
            }
        },
        None => {},
    }
    Admission::Accept
}

/// The body answered with status 401.
pub fn unauthorized_body() -> (s: &'static str)
    ensures
        s@ == "{\"jsonrpc\":\"2.0\",\"error\":{\"code\":-401,\"message\":\"Unauthorized: Invalid or missing API key\"},\"id\":null}"@,
{
    "{\"jsonrpc\":\"2.0\",\"error\":{\"code\":-401,\"message\":\"Unauthorized: Invalid or missing API key\"},\"id\":null}"
}

/// The body answered with status 415.
pub fn unsupported_media_type_body() -> (s: &'static str)
    ensures
        s@ == "Content-Type must be application/json"@,
{
    "Content-Type must be application/json"
}

/// Where the server sends a JSON-RPC call.
#[derive(Debug, Clone, Copy, PartialEq, Eq, Structural)]
pub enum Route {
    /// `_metrics`: the orchestrator's metrics
    Metrics,
    /// `_info`: the orchestrator's information
    Info,
    /// Any other method: forwarded to a node
    Forward,
}

/// The route of `method`.
pub fn route_of(method: &str) -> (r: Route)
    ensures
        r == if method@ == "_metrics"@ {
            Route::Metrics
        } else if method@ == "_info"@ {
            Route::Info
        } else {
            Route::Forward
        },
{
    if str_eq(method, "_metrics") {
        Route::Metrics
    } else if str_eq(method, "_info") {
        Route::Info
    } else {
        Route::Forward
    }
}

/// The JSON-RPC reply to call `id` whose handling gave `result`: its value,
/// or a server error (-32000) carrying the failure's text.
pub fn rpc_reply(id: Value, result: Result<Value, MadrpcError>) -> (r: JsonRpcResponse)
    ensures
        r.jsonrpc@ == "2.0"@,
        r.id == id,
        match result {
            Ok(v) => r.result == Some(v) && r.error is None,
            Err(e) => r.result is None && (r.error matches Some(err) && rpc_error(err, SERVER_ERROR, error_message(e))),
        },
{
    match result {
        Ok(v) => JsonRpcResponse::success(id, v),
        Err(e) => {
            let m = e.message();
            JsonRpcResponse::error(id, JsonRpcError::server_error(m.as_str()))
        },
    }
}

} // verus!
