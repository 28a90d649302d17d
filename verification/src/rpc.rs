//! JSON-RPC quantities: the `0x`-prefixed hexadecimal numbers that an EVM
//! node returns.

use vstd::prelude::*;
use vstd::string::{StringExecFns, StringSliceAdditionalSpecFns};
use crate::numeral::{parse_uint, spec_parse_uint, strip_0x, strip_0x_bytes, IntErrorKind, int_error_text};

verus! {

/// A quantity returned by the node could not be read.
#[derive(Clone, Copy, Debug, PartialEq, Eq, Structural)]
pub enum RpcValueError {
    /// Not a hexadecimal `u64` (block numbers, timestamps, chain ids).
    InvalidHex(IntErrorKind),
    /// Not a hexadecimal `u128` amount of wei.
    InvalidWei(IntErrorKind),
}

/// `hex` with every leading `0x` removed, read as a hexadecimal `u64`.
pub open spec fn spec_hex_to_u64(hex: Seq<u8>) -> Result<u64, RpcValueError> {
    match spec_parse_uint(strip_0x(hex), 16, u64::MAX as nat) {
        Ok(v) => Ok(v as u64),
        Err(k) => Err(RpcValueError::InvalidHex(k)),
    }
}

/// `hex` with every leading `0x` removed, read as a hexadecimal `u128`.
pub open spec fn spec_wei_hex_to_wei(hex: Seq<u8>) -> Result<u128, RpcValueError> {
    match spec_parse_uint(strip_0x(hex), 16, u128::MAX as nat) {
        Ok(v) => Ok(v as u128),
        Err(k) => Err(RpcValueError::InvalidWei(k)),
    }
}

/// Converts a hex string (`0x`-prefixed or bare) to a `u64`.
pub fn hex_to_u64(hex: &str) -> (r: Result<u64, RpcValueError>)
    ensures
        r == spec_hex_to_u64(hex.spec_bytes()),
{
    let digits = strip_0x_bytes(hex.as_bytes());
    match parse_uint(digits, 16, u64::MAX as u128) {
        Ok(v) => Ok(v as u64),
        Err(k) => Err(RpcValueError::InvalidHex(k)),
    }
}

/// Reads an amount of wei given as a hex string (`0x`-prefixed or bare).
/// Turning it into ether is a floating-point division left to the caller.
pub fn wei_hex_to_wei(hex: &str) -> (r: Result<u128, RpcValueError>)
    ensures
        r == spec_wei_hex_to_wei(hex.spec_bytes()),
{
    let digits = strip_0x_bytes(hex.as_bytes());
    match parse_uint(digits, 16, u128::MAX) {
        Ok(v) => Ok(v),
        Err(k) => Err(RpcValueError::InvalidWei(k)),
    }
}

/// A hex quantity as a `u128`, or `0` where it cannot be read (how the gas and
/// token commands treat a reply they cannot parse).
pub fn hex_u128_or_zero(hex: &str) -> (r: u128)
    ensures
        r == match spec_wei_hex_to_wei(hex.spec_bytes()) {
            Ok(v) => v,
            Err(_) => 0,
        },
{
    match wei_hex_to_wei(hex) {
        Ok(v) => v,
        Err(_) => 0,
    }
}

/// The text of an `RpcValueError`.
pub open spec fn rpc_value_error_text(e: RpcValueError) -> Seq<char> {
    match e {
        RpcValueError::InvalidHex(k) => "Invalid hex: "@ + int_error_text(k),
        RpcValueError::InvalidWei(k) => "Invalid wei: "@ + int_error_text(k),
    }
}

impl RpcValueError {
    /// The error as a line of text.
    pub fn message(&self) -> (r: String)
        ensures
            r@ == rpc_value_error_text(*self),
    {
        let (prefix, kind) = match self {
            RpcValueError::InvalidHex(k) => ("Invalid hex: ", *k),
            RpcValueError::InvalidWei(k) => ("Invalid wei: ", *k),
        };
        let mut s = String::from_str(prefix);
        s.append(kind.message());
        s
    }
}


/// A JSON value (serde_json's), carried through as it is.
#[verifier::external_type_specification]
#[verifier::external_body]
pub struct ExJsonValue(serde_json::Value);

/// What `serde_json::from_str::<serde_json::Value>` gives for `text`: the
/// value parsed, or the text of the error it reports. It depends on the text
/// alone.
pub uninterp spec fn json_parse(text: Seq<char>) -> Result<serde_json::Value, Seq<char>>;

/// `serde_json::from_str::<serde_json::Value>`. Trusted: its result is the
/// one named by `json_parse` for the text, the error given as its text.
#[verifier::external_body]
pub(crate) fn parse_json(text: &str) -> (r: Result<serde_json::Value, String>)
    ensures
        match r {
            Ok(v) => json_parse(text@) matches Ok(w) && w == v,
            Err(m) => json_parse(text@) matches Err(t) && t == m@,
        },
{
    serde_json::from_str::<serde_json::Value>(text).map_err(|e| e.to_string())
}

/// One parameter of a JSON-RPC request.
#[derive(Clone, Debug, PartialEq, Eq)]
pub enum RpcParam {
    /// A JSON string.
    Text(String),
    /// A JSON boolean.
    Flag(bool),
    /// An `eth_call` transaction object `{"to": .., "data": ..}`.
    Call { to: String, data: String },
}

/// A JSON-RPC request to send: a method and its positional parameters.
#[derive(Clone, Debug, PartialEq, Eq)]
pub struct RpcRequest {
    pub method: String,
    pub params: Vec<RpcParam>,
}

/// `r` is `method` with no parameters.
pub open spec fn is_bare_request(r: RpcRequest, method: Seq<char>) -> bool {
    r.method@ == method && r.params@.len() == 0
}

/// `r` is `eth_call` of `data` on `to`, at the latest block.
pub open spec fn is_eth_call(r: RpcRequest, to: Seq<char>, data: Seq<char>) -> bool {
    &&& r.method@ == "eth_call"@
    &&& r.params@.len() == 2
    &&& r.params@[0] matches RpcParam::Call { to: t, data: d } && t@ == to && d@ == data
    &&& r.params@[1] matches RpcParam::Text(b) && b@ == "latest"@
}

/// A request with no parameters.
pub fn bare_request(method: &str) -> (r: RpcRequest)
    ensures
        is_bare_request(r, method@),
{
    RpcRequest { method: method.to_owned(), params: Vec::new() }
}

/// The `eth_call` of `data` on the contract `to`, at the latest block.
pub fn eth_call_request(to: &str, data: &str) -> (r: RpcRequest)
    ensures
        is_eth_call(r, to@, data@),
{
    let mut params = Vec::new();
    params.push(RpcParam::Call { to: to.to_owned(), data: data.to_owned() });
    params.push(RpcParam::Text(String::from_str("latest")));
    RpcRequest { method: String::from_str("eth_call"), params }
}

/// Why a JSON-RPC reply gave no result.
#[derive(Clone, Debug, PartialEq, Eq)]
pub enum RpcReplyError {
    /// The reply has an `error` member (given as JSON text).
    Node(String),
    /// The reply has neither `error` nor `result`.
    NoResult,
}

/// The text of an `RpcReplyError`.
pub open spec fn rpc_reply_error_text(e: RpcReplyError) -> Seq<char> {
    match e {
        RpcReplyError::Node(t) => "RPC error: "@ + t@,
        RpcReplyError::NoResult => "No result field in RPC response"@,
    }
}

impl RpcReplyError {
    /// The error as a line of text.
    pub fn message(&self) -> (r: String)
        ensures
            r@ == rpc_reply_error_text(*self),
    {
        match self {
            RpcReplyError::Node(t) => {
                let mut s = String::from_str("RPC error: ");
                s.append(t.as_str());
                s
            },
            RpcReplyError::NoResult => String::from_str("No result field in RPC response"),
        }
    }
}

/// What a JSON-RPC reply answers, from its `error` member (as JSON text) and
/// its `result` member: an error wins; otherwise the result; a reply with
/// neither is refused.
pub fn rpc_result(error: Option<String>, result: Option<serde_json::Value>) -> (r: Result<serde_json::Value, RpcReplyError>)
    ensures
        match error {
            Some(t) => r == Err::<serde_json::Value, RpcReplyError>(RpcReplyError::Node(t)),
            None => match result {
                Some(v) => r == Ok::<serde_json::Value, RpcReplyError>(v),
                None => r == Err::<serde_json::Value, RpcReplyError>(RpcReplyError::NoResult),
            },
        },
{
    match error {
        Some(t) => Err(RpcReplyError::Node(t)),
        None => match result {
            Some(v) => Ok(v),
            None => Err(RpcReplyError::NoResult),
        },
    }
}

} // verus!
