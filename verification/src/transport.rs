//! Transports: the length-prefixed framing of the TCP transport, the
//! classification of its I/O failures, and the JSON-RPC request builder of the
//! HTTP transport. Sockets and serialization are driven by the application.

use vstd::prelude::*;
use serde_json::Value;
use crate::error::MadrpcError;
use crate::error::error_message;
use crate::protocol::{JsonRpcRequest, Response};
use crate::text::{decimal, push_str, u64_to_decimal};

verus! {

/// Largest message accepted on a TCP stream (100 MiB).
pub const MAX_MESSAGE_SIZE: usize = 104857600;

/// Read and write timeout of TCP streams, in milliseconds.
pub const DEFAULT_TIMEOUT_MS: u64 = 5000;

/// The four big-endian bytes of `n`.
pub open spec fn be_bytes(n: u32) -> Seq<u8> {
    seq![(n >> 24u32) as u8, (n >> 16u32) as u8, (n >> 8u32) as u8, n as u8]
}

/// The number whose big-endian bytes are `b[0..4]`.
pub open spec fn be_value(b: Seq<u8>) -> nat {
    (b[0] as nat) * 0x100_0000 + (b[1] as nat) * 0x1_0000 + (b[2] as nat) * 0x100 + (b[3] as nat)
}

/// The length written in the prefix of a message of `len` bytes: `len` as a
/// 32-bit number (only the low 32 bits are kept).
pub open spec fn prefix_len(len: nat) -> u32 {
    (len % 0x1_0000_0000) as u32
}

/// The bytes sent for a message `data`: the big-endian length, then the data.
pub open spec fn framed(data: Seq<u8>) -> Seq<u8> {
    be_bytes(prefix_len(data.len())) + data
}

/// Reading back the four bytes of `n` gives `n`.
pub proof fn lemma_be_roundtrip(n: u32)
    ensures
        be_value(be_bytes(n)) == n,
{
    let b0 = (n >> 24u32) as u8;
    let b1 = (n >> 16u32) as u8;
    let b2 = (n >> 8u32) as u8;
    let b3 = n as u8;
    assert(b0 as u32 * 0x100_0000u32 + b1 as u32 * 0x1_0000u32 + b2 as u32 * 0x100u32 + b3 as u32 == n)
        by (bit_vector)
        requires
            b0 == (n >> 24u32) as u8,
            b1 == (n >> 16u32) as u8,
            b2 == (n >> 8u32) as u8,
            b3 == n as u8,
    ;
}

/// A framed message of at most `MAX_MESSAGE_SIZE` bytes reads back as its
/// length followed by its data: the prefix gives the data's length, which the
/// receiver accepts, and the bytes after the prefix are the data.
pub proof fn lemma_frame_roundtrip(data: Seq<u8>)
    requires
        data.len() <= MAX_MESSAGE_SIZE,
    ensures
        be_value(framed(data).take(4)) == data.len(),
        framed(data).skip(4) == data,
        be_value(framed(data).take(4)) <= MAX_MESSAGE_SIZE,
{
    let n = prefix_len(data.len());
    assert(n == data.len());
    lemma_be_roundtrip(n);
    assert(framed(data).take(4) =~= be_bytes(n));
    assert(framed(data).skip(4) =~= data);
}

/// The four big-endian bytes of `n`.
pub fn encode_length(n: u32) -> (b: Vec<u8>)
    ensures
        b@ == be_bytes(n),
{
    let mut b: Vec<u8> = Vec::new();
    b.push((n >> 24u32) as u8);
    b.push((n >> 16u32) as u8);
    b.push((n >> 8u32) as u8);
    b.push(n as u8);
    proof {
        assert(b@ =~= be_bytes(n));
    }
    b
}

/// The length prefix of a message of `len` bytes (the length truncated to
/// 32 bits, big-endian).
pub fn length_prefix(len: usize) -> (b: Vec<u8>)
    ensures
        b@ == be_bytes(prefix_len(len as nat)),
{
    let n: u32 = ((len as u64) % 0x1_0000_0000u64) as u32;
    proof {
        assert(n == prefix_len(len as nat));
    }
    encode_length(n)
}

/// The bytes sent for the message `data`: its length prefix, then the data.
pub fn frame_message(data: &[u8]) -> (b: Vec<u8>)
    ensures
        b@ == framed(data@),
{
    let mut b = length_prefix(data.len());
    let mut i: usize = 0;
    while i < data.len()
        invariant
            i <= data@.len(),
            b@ == be_bytes(prefix_len(data@.len())) + data@.take(i as int),
        decreases data@.len() - i,
    {
        b.push(data[i]);
        proof {
            assert(data@.take(i + 1) =~= data@.take(i as int).push(data@[i as int]));
        }
        i = i + 1;
    }
    proof {
        assert(data@.take(data@.len() as int) =~= data@);
    }
    b
}

/// The length carried by a four-byte prefix.
pub fn decode_length(prefix: &[u8]) -> (n: u32)
    requires
        prefix@.len() == 4,
    ensures
        n == be_value(prefix@),
{
    let b0 = prefix[0] as u32;
    let b1 = prefix[1] as u32;
    let b2 = prefix[2] as u32;
    let b3 = prefix[3] as u32;
    let n = (b0 << 24u32) | (b1 << 16u32) | (b2 << 8u32) | b3;
    assert(n == b0 * 0x100_0000 + b1 * 0x1_0000 + b2 * 0x100 + b3) by (bit_vector)
        requires
            b0 < 256,
            b1 < 256,
            b2 < 256,
            b3 < 256,
            n == (b0 << 24u32) | (b1 << 16u32) | (b2 << 8u32) | b3,
    ;
    n
}

/// The text of the error for an announced length above the limit.
pub open spec fn too_large_text(len: nat) -> Seq<char> {
    "Message too large: "@ + decimal(len) + " bytes (max 104857600 bytes)"@
}

/// Accepts an announced message length of at most `MAX_MESSAGE_SIZE` bytes;
/// a larger one is an invalid response.
pub fn check_message_len(len: u32) -> (r: Result<usize, MadrpcError>)
    ensures
        len <= MAX_MESSAGE_SIZE ==> r == Ok::<usize, MadrpcError>(len as usize),
        len > MAX_MESSAGE_SIZE ==> (r matches Err(MadrpcError::InvalidResponse(m)) && m@ == too_large_text(len as nat)),
{
    if len as usize > MAX_MESSAGE_SIZE {
        let mut m = "Message too large: ".to_owned();
        let digits = u64_to_decimal(len as u64);
        push_str(&mut m, digits.as_str());
        push_str(&mut m, " bytes (max 104857600 bytes)");
        Err(MadrpcError::InvalidResponse(m))
    } else {
        Ok(len as usize)
    }
}

/// The kinds of I/O failure the transport tells apart.
#[derive(Debug, Clone, Copy, PartialEq, Eq, Structural)]
pub enum IoErrorKind {
    /// The operation timed out
    TimedOut,
    /// The operation would block
    WouldBlock,
    /// The peer reset the connection
    ConnectionReset,
    /// The connection was aborted
    ConnectionAborted,
    /// The socket is not connected
    NotConnected,
    /// Any other failure
    Other,
}

/// The error an I/O failure of kind `kind` is reported as: a timeout of
/// `DEFAULT_TIMEOUT_MS` for timeouts and would-block, a lost connection
/// (naming `context`) for resets, aborts and disconnections, else an I/O
/// error with the failure's own text `detail`.
pub open spec fn io_error_of(kind: IoErrorKind, context: Seq<char>, detail: Seq<char>, e: MadrpcError) -> bool {
    match kind {
        IoErrorKind::TimedOut | IoErrorKind::WouldBlock => e == MadrpcError::Timeout(DEFAULT_TIMEOUT_MS),
        IoErrorKind::ConnectionReset | IoErrorKind::ConnectionAborted | IoErrorKind::NotConnected =>
            e matches MadrpcError::Connection(m) && m@ == context + ": Connection lost"@,
        IoErrorKind::Other => e matches MadrpcError::Io(m) && m@ == detail,
    }
}

/// Classifies an I/O failure met while `context` (e.g. "reading data").
pub fn map_io_error(kind: IoErrorKind, context: &str, detail: &str) -> (e: MadrpcError)
    ensures
        io_error_of(kind, context@, detail@, e),
{
    match kind {
        IoErrorKind::TimedOut | IoErrorKind::WouldBlock => MadrpcError::Timeout(DEFAULT_TIMEOUT_MS),
        IoErrorKind::ConnectionReset | IoErrorKind::ConnectionAborted | IoErrorKind::NotConnected => {
            let mut m = context.to_owned();
            push_str(&mut m, ": Connection lost");
            MadrpcError::Connection(m)
        },
        IoErrorKind::Other => MadrpcError::Io(detail.to_owned()),
    }
}

/// The error when no address of `addr` could be connected: names the last
/// failure, or "Unknown error" when there was no address to try.
pub fn connect_failure(addr: &str, last_error: Option<&str>) -> (e: MadrpcError)
    ensures
        e matches MadrpcError::Connection(m) && m@ == "Failed to connect to "@ + addr@ + ": "@
            + match last_error {
                Some(t) => t@,
                None => "Unknown error"@,
            },
{
    let mut m = "Failed to connect to ".to_owned();
    push_str(&mut m, addr);
    push_str(&mut m, ": ");
    match last_error {
        Some(t) => push_str(&mut m, t),
        None => push_str(&mut m, "Unknown error"),
    }
    MadrpcError::Connection(m)
}

/// The error when `addr` does not resolve; `detail` is the resolver's text.
pub fn invalid_address(addr: &str, detail: &str) -> (e: MadrpcError)
    ensures
        e matches MadrpcError::Connection(m) && m@ == "Invalid address '"@ + addr@ + "': "@ + detail@,
{
    let mut m = "Invalid address '".to_owned();
    push_str(&mut m, addr);
    push_str(&mut m, "': ");
    push_str(&mut m, detail);
    MadrpcError::Connection(m)
}

/// Blocking TCP transport with length-prefixed JSON messages.
#[derive(Debug, Clone, Copy)]
pub struct TcpTransport;

impl TcpTransport {
    /// A transport; creation never fails.
    pub fn new() -> (r: Result<Self, MadrpcError>)
        ensures
            r is Ok,
    {
        Ok(TcpTransport)
    }
}

impl Default for TcpTransport {
    fn default() -> (t: Self) {
        TcpTransport
    }
}

/// Asynchronous TCP transport with length-prefixed JSON messages.
#[derive(Debug, Clone, Copy)]
pub struct TcpTransportAsync;

impl TcpTransportAsync {
    /// A transport; creation never fails.
    pub fn new() -> (r: Result<Self, MadrpcError>)
        ensures
            r is Ok,
    {
        Ok(TcpTransportAsync)
    }
}

impl Default for TcpTransportAsync {
    fn default() -> (t: Self) {
        TcpTransportAsync
    }
}

/// JSON encoding of protocol messages.
#[derive(Debug, Clone, Copy)]
pub struct JsonCodec;

/// The message encodings; JSON is the only one.
#[derive(Debug, Clone, Copy)]
pub enum Codec {
    /// JSON encoding
    Json(JsonCodec),
}

impl Codec {
    /// The JSON codec.
    pub fn new() -> (c: Self)
        ensures
            c is Json,
    {
        Codec::Json(JsonCodec)
    }
}

impl Default for Codec {
    /// The JSON codec.
    fn default() -> (c: Self)
        ensures
            c is Json,
    {
        Codec::new()
    }
}

/// HTTP transport of JSON-RPC messages.
#[derive(Debug, Clone, Copy)]
pub struct HttpTransport;

impl HttpTransport {
    /// A JSON-RPC 2.0 request for `method` with `params` and identifier `id`.
    pub fn build_request(method: &str, params: Value, id: Value) -> (r: JsonRpcRequest)
        ensures
            r.jsonrpc@ == "2.0"@,
            r.method@ == method@,
            r.params == params,
            r.id == id,
    {
        JsonRpcRequest { jsonrpc: "2.0".to_owned(), method: method.to_owned(), params, id }
    }
}

/// The answer to a request `request_id` whose handler gave `result`: the
/// handler's response, or an error response carrying the failure's text.
pub fn handler_response(request_id: u64, result: Result<Response, MadrpcError>) -> (r: Response)
    ensures
        match result {
            Ok(resp) => r == resp,
            Err(e) => r.id == request_id && !r.success && r.result is None
                && (r.error matches Some(m) && m@ == error_message(e)),
        },
{
    match result {
        Ok(resp) => resp,
        Err(e) => {
            let m = e.message();
            Response::error(request_id, m.as_str())
        },
    }
}

/// The answer to a request that could not be decoded: an error response to
/// request 0 carrying the failure's text.
pub fn undecodable_request_response(error: &MadrpcError) -> (r: Response)
    ensures
        r.id == 0 && !r.success && r.result is None,
        r.error matches Some(m) && m@ == error_message(*error),
{
    let m = error.message();
    Response::error(0, m.as_str())
}

} // verus!
