//! The records that the proxy keeps and exchanges.

use std::time::Duration;
use std::time::SystemTime;
use vstd::prelude::*;

verus! {

#[verifier::external_type_specification]
#[verifier::external_body]
pub struct ExSystemTime(std::time::SystemTime);

/// `SystemTime` is `Copy`: its `clone` returns the same instant.
pub assume_specification[ <std::time::SystemTime as Clone>::clone ](t: &SystemTime) -> (r: SystemTime)
    ensures
        r == *t,
;

/// The length of a `Duration` in nanoseconds.
pub uninterp spec fn duration_nanos(d: Duration) -> nat;

/// `Duration::as_nanos`: the whole length, in nanoseconds.
#[verifier::external_body]
pub(crate) fn nanos_of(d: &Duration) -> (n: u128)
    ensures
        n == duration_nanos(*d),
{
    d.as_nanos()
}

/// `SystemTime::now`: the wall clock, of which nothing is promised.
#[verifier::external_body]
pub(crate) fn wall_clock() -> SystemTime {
    SystemTime::now()
}

/// One upstream JSON-RPC server, keyed by its URL.
#[derive(Debug, Clone)]
pub struct RpcNode {
    pub endpoint: String,
    pub last_seen: SystemTime,
    pub response_time: Option<Duration>,
    pub is_active: bool,
}

impl RpcNode {
    /// A node that has not been probed yet: inactive, with no response time.
    pub fn new(endpoint: String) -> (node: Self)
        ensures
            node.endpoint == endpoint,
            node.response_time is None,
            !node.is_active,
    {
        Self { endpoint, last_seen: wall_clock(), response_time: None, is_active: false }
    }

    /// Whether the selector may rank this node: it is active and has a
    /// measured response time.
    pub open spec fn ranked(&self) -> bool {
        self.is_active && self.response_time is Some
    }

    /// The measured response time in nanoseconds; zero where there is none.
    pub open spec fn latency(&self) -> nat {
        match self.response_time {
            Some(d) => duration_nanos(d),
            None => 0,
        }
    }

    /// A copy with the same fields.
    pub fn duplicate(&self) -> (node: Self)
        ensures
            node == *self,
    {
        Self {
            endpoint: self.endpoint.clone(),
            last_seen: self.last_seen,
            response_time: self.response_time,
            is_active: self.is_active,
        }
    }
}

/// A JSON-RPC 2.0 request. `id` and `params` are carried, not interpreted.
#[derive(Debug)]
pub struct RpcRequest {
    pub jsonrpc: String,
    pub id: serde_json::Value,
    pub method: String,
    pub params: Option<serde_json::Value>,
}

/// A JSON-RPC 2.0 response.
#[derive(Debug)]
pub struct RpcResponse {
    pub jsonrpc: String,
    pub id: serde_json::Value,
    pub result: Option<serde_json::Value>,
    pub error: Option<RpcError>,
}

/// The `error` member of a JSON-RPC 2.0 response.
#[derive(Debug)]
pub struct RpcError {
    pub code: i32,
    pub message: String,
    pub data: Option<serde_json::Value>,
}

} // verus!
