//! What the proxy makes of an upstream's HTTP reply: the verdict on a health
//! probe and the outcome of a forwarded call. The exchange itself is done by
//! the caller, who hands over what came back.

use crate::json::{integer_of, json_as_i64, json_as_str, json_get, json_is_null, json_model,
    json_parsed, json_render, json_rendered, member, parse_json, text_of, JsonModel};
use vstd::prelude::*;
use vstd::string::*;

verus! {

/// The JSON-RPC code with which a node says that it does not know a method.
pub const METHOD_NOT_FOUND: i64 = -32601;

/// The body of the health probe: a token-account query, which a full RPC
/// node answers and a light node refuses. The owner is an arbitrary
/// well-formed key; the program is the SPL Token program.
pub const PROBE_REQUEST: &'static str =
    "{\"jsonrpc\":\"2.0\",\"id\":1,\"method\":\"getTokenAccountsByOwner\",\"params\":[\"A1TMhSGzQxMr1TboBKtgixKz1sS6REASMxPo1qsyTSJd\",{\"programId\":\"TokenkegQfeZyiNwAJbNbGKPFXCWuBvf9Ss623VQ5DA\"},{\"encoding\":\"jsonParsed\"}]}";

/// How one HTTP exchange with an upstream ended.
#[derive(Debug)]
pub enum HttpOutcome {
    /// No reply: a network error or the timeout.
    Failed,
    /// A reply with its status code and its body.
    Replied { status: u16, body: String },
}

/// Why a probed node is not taken for a full RPC node.
#[derive(Debug, Clone, Copy, PartialEq, Eq, Structural)]
pub enum ProbeFailure {
    /// No reply came.
    Unreachable,
    /// The reply's status was not a success.
    HttpStatus(u16),
    /// The body was not a JSON document.
    MalformedBody,
    /// The body held neither a result nor a usable error.
    InvalidResponse,
    /// The node refused the method: a light node.
    MethodNotSupported,
}

/// Why a forwarded call gave no body to hand to the client.
#[derive(Debug, Clone, Copy, PartialEq, Eq, Structural)]
pub enum ForwardFailure {
    /// No reply came.
    Unreachable,
    /// The reply's status was not a success.
    HttpStatus(u16),
}

/// Whether an HTTP status is a success, 200 to 299.
pub open spec fn is_success(status: u16) -> bool {
    200 <= status < 300
}

/// The member of a document under a key, unless it is absent or `null`.
pub open spec fn present_member(doc: JsonModel, key: Seq<char>) -> Option<JsonModel> {
    match member(doc, key) {
        Some(m) => if m is Null {
            None
        } else {
            Some(m)
        },
        None => None,
    }
}

/// The verdict on what a probe's reply held: a result makes the node a full
/// one; so does an error with any code but "method not found"; a reply with
/// neither, or with an error that has no integer code, is invalid.
pub open spec fn verdict_of(result_present: bool, error_present: bool, error_code: Option<i64>)
    -> Result<(), ProbeFailure> {
    if result_present {
        Ok(())
    } else if error_present {
        match error_code {
            Some(code) => if code == METHOD_NOT_FOUND {
                Err(ProbeFailure::MethodNotSupported)
            } else {
                Ok(())
            },
            None => Err(ProbeFailure::InvalidResponse),
        }
    } else {
        Err(ProbeFailure::InvalidResponse)
    }
}

/// The code of a reply's `error` member, where it has one that is an integer.
pub open spec fn error_code_of(doc: JsonModel) -> Option<i64> {
    match present_member(doc, "error"@) {
        Some(e) => match member(e, "code"@) {
            Some(c) => integer_of(c),
            None => None,
        },
        None => None,
    }
}

/// The verdict on a probe's reply document.
pub open spec fn document_verdict(doc: JsonModel) -> Result<(), ProbeFailure> {
    verdict_of(
        present_member(doc, "result"@) is Some,
        present_member(doc, "error"@) is Some,
        error_code_of(doc),
    )
}

/// The verdict on a probe's exchange as a whole.
pub open spec fn probe_verdict(outcome: HttpOutcome) -> Result<(), ProbeFailure> {
    match outcome {
        HttpOutcome::Failed => Err(ProbeFailure::Unreachable),
        HttpOutcome::Replied { status, body } => if !is_success(status) {
            Err(ProbeFailure::HttpStatus(status))
        } else {
            match json_parsed(body@) {
                Some(doc) => document_verdict(doc),
                None => Err(ProbeFailure::MalformedBody),
            }
        },
    }
}

/// Whether a status code is a success.
pub fn status_is_success(status: u16) -> (r: bool)
    ensures
        r == is_success(status),
{
    200 <= status && status < 300
}

/// The verdict from the three facts that a reply is read for.
pub fn classify_reply(result_present: bool, error_present: bool, error_code: Option<i64>) -> (r:
    Result<(), ProbeFailure>)
    ensures
        r == verdict_of(result_present, error_present, error_code),
{
    if result_present {
        return Ok(());
    }
    if !error_present {
        return Err(ProbeFailure::InvalidResponse);
    }
    match error_code {
        Some(code) => if code == METHOD_NOT_FOUND {
            Err(ProbeFailure::MethodNotSupported)
        } else {
            Ok(())
        },
        None => Err(ProbeFailure::InvalidResponse),
    }
}

/// The member under a key that is there and not `null`.
fn present<'a>(doc: &'a serde_json::Value, key: &str) -> (r: Option<&'a serde_json::Value>)
    ensures
        match r {
            Some(m) => present_member(json_model(*doc), key@) == Some(json_model(*m)),
            None => present_member(json_model(*doc), key@) is None,
        },
{
    match json_get(doc, key) {
        Some(m) => if json_is_null(m) {
            None
        } else {
            Some(m)
        },
        None => None,
    }
}

/// Reads a parsed reply for its result and its error code, and gives the verdict.
pub fn classify_document(doc: &serde_json::Value) -> (r: Result<(), ProbeFailure>)
    ensures
        r == document_verdict(json_model(*doc)),
{
    let result_present = present(doc, "result").is_some();
    let (error_present, error_code) = match present(doc, "error") {
        Some(e) => match json_get(e, "code") {
            Some(c) => (true, json_as_i64(c)),
            None => (true, None),
        },
        None => (false, None),
    };
    classify_reply(result_present, error_present, error_code)
}

/// Decides whether a probed node is a full RPC node, from how the probe's
/// exchange ended.
pub fn test_rpc_node(outcome: &HttpOutcome) -> (r: Result<(), ProbeFailure>)
    ensures
        r == probe_verdict(*outcome),
{
    match outcome {
        HttpOutcome::Failed => Err(ProbeFailure::Unreachable),
        HttpOutcome::Replied { status, body } => {
            if !status_is_success(*status) {
                return Err(ProbeFailure::HttpStatus(*status));
            }
            match parse_json(body.as_str()) {
                Ok(doc) => classify_document(&doc),
                Err(_) => Err(ProbeFailure::MalformedBody),
            }
        },
    }
}

/// What a forwarded call hands to the client.
pub open spec fn forward_result(outcome: HttpOutcome) -> Result<String, ForwardFailure> {
    match outcome {
        HttpOutcome::Failed => Err(ForwardFailure::Unreachable),
        HttpOutcome::Replied { status, body } => if is_success(status) {
            Ok(body)
        } else {
            Err(ForwardFailure::HttpStatus(status))
        },
    }
}

/// Turns the end of a forwarded exchange into the body for the client: the
/// upstream's body, untouched, when the status is a success.
pub fn forward_rpc_request_raw(outcome: HttpOutcome) -> (r: Result<String, ForwardFailure>)
    ensures
        r == forward_result(outcome),
{
    match outcome {
        HttpOutcome::Failed => Err(ForwardFailure::Unreachable),
        HttpOutcome::Replied { status, body } => if status_is_success(status) {
            Ok(body)
        } else {
            Err(ForwardFailure::HttpStatus(status))
        },
    }
}

/// How a request's `id` is written in a log line: a string as its own text,
/// anything else as its JSON text.
pub open spec fn id_text(id: serde_json::Value) -> Seq<char> {
    match text_of(json_model(id)) {
        Some(s) => s,
        None => json_rendered(id),
    }
}

/// The text that stands for a request's `id` in log lines.
pub fn request_id_text(id: &serde_json::Value) -> (r: String)
    ensures
        r@ == id_text(*id),
{
    match json_as_str(id) {
        Some(s) => String::from_str(s),
        None => json_render(id),
    }
}

} // verus!
