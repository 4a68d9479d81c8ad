//! The forwarding path: the decisions that one client request goes through
//! between its arrival and its response, the error responses, and the views
//! of the admission queue. Waiting for a permit, selecting under the cache's
//! lock and the HTTP exchange are the caller's work; what to do next is
//! decided here.

use crate::json::{element, json_as_str, json_at, json_model, text_of};
use crate::rpc_client::{id_text, request_id_text};
use crate::text::text_chars;
use crate::types::{RpcError, RpcRequest, RpcResponse};
use vstd::prelude::*;
use vstd::string::*;

verus! {

/// The JSON-RPC code of a server-side refusal.
pub const CODE_SERVER_ERROR: i32 = -32000;

/// The JSON-RPC code of an internal error.
pub const CODE_INTERNAL_ERROR: i32 = -32603;

/// The HTTP status of a refusal for want of capacity or of nodes.
pub const STATUS_UNAVAILABLE: u16 = 503;

/// The HTTP status of a failed forward.
pub const STATUS_INTERNAL_ERROR: u16 = 500;

/// How many bytes of an account a log line shows.
pub const SUBJECT_SHOWN: usize = 8;

/// Why a request gets an error response.
#[derive(Debug, Clone, Copy, PartialEq, Eq, Structural)]
pub enum Failure {
    /// No permit came within the time a request may wait.
    QueueTimeout,
    /// The admission queue was closed.
    QueueClosed,
    /// The cache holds no active node.
    NoNodes,
    /// The forward failed: network error, timeout or a status that is no success.
    ForwardFailed,
}

/// The HTTP status that goes with a failure.
pub open spec fn failure_status(failure: Failure) -> u16 {
    match failure {
        Failure::ForwardFailed => STATUS_INTERNAL_ERROR,
        _ => STATUS_UNAVAILABLE,
    }
}

/// The JSON-RPC error code that goes with a failure.
pub open spec fn failure_code(failure: Failure) -> i32 {
    match failure {
        Failure::ForwardFailed => CODE_INTERNAL_ERROR,
        _ => CODE_SERVER_ERROR,
    }
}

/// The JSON-RPC error message that goes with a failure.
pub open spec fn failure_message(failure: Failure) -> Seq<char> {
    match failure {
        Failure::QueueTimeout => "Server overloaded, request queue full"@,
        Failure::QueueClosed => "Server shutting down"@,
        Failure::NoNodes => "No available RPC nodes"@,
        Failure::ForwardFailed => "Internal error"@,
    }
}

/// The error response for a request: its status and its body. The body
/// carries the request's own `id`, no result, and the code and message of
/// the failure; `data` goes along, except for a closed queue, which has none.
pub fn error_response(id: serde_json::Value, failure: Failure, data: Option<serde_json::Value>) -> (r:
    (u16, RpcResponse))
    ensures
        r.0 == failure_status(failure),
        r.1.jsonrpc@ == "2.0"@,
        r.1.id == id,
        r.1.result is None,
        r.1.error is Some,
        r.1.error->0.code == failure_code(failure),
        r.1.error->0.message@ == failure_message(failure),
        r.1.error->0.data == (if failure is QueueClosed {
            None::<serde_json::Value>
        } else {
            data
        }),
{
    let (status, code, message, data) = match failure {
        Failure::QueueTimeout => (
            STATUS_UNAVAILABLE,
            CODE_SERVER_ERROR,
            String::from_str("Server overloaded, request queue full"),
            data,
        ),
        Failure::QueueClosed => (
            STATUS_UNAVAILABLE,
            CODE_SERVER_ERROR,
            String::from_str("Server shutting down"),
            None,
        ),
        Failure::NoNodes => (
            STATUS_UNAVAILABLE,
            CODE_SERVER_ERROR,
            String::from_str("No available RPC nodes"),
            data,
        ),
        Failure::ForwardFailed => (
            STATUS_INTERNAL_ERROR,
            CODE_INTERNAL_ERROR,
            String::from_str("Internal error"),
            data,
        ),
    };
    let response = RpcResponse {
        jsonrpc: String::from_str("2.0"),
        id,
        result: None,
        error: Some(RpcError { code, message, data }),
    };
    (status, response)
}

/// The two timeouts that the forwarding path works with, in seconds.
#[derive(Debug, Clone, Copy, PartialEq, Eq, Structural)]
pub struct HandlerConfig {
    pub rpc_request_timeout: u64,
    pub max_queue_wait_time: u64,
}

/// Where a request stands.
#[derive(Debug)]
pub enum HandlerState {
    /// Just arrived; nothing asked yet.
    Received,
    /// A permit was asked for without waiting.
    Admitting,
    /// No permit was free; the request waits for one.
    Queued,
    /// The request holds a permit and needs a node.
    Holding,
    /// The request holds a permit and its forward is under way.
    Forwarding { endpoint: String },
    /// The forward failed; the node is being dropped from the cache.
    Evicting,
    /// The response is out and the permit is free again.
    Finished,
}

/// What happened since the last decision.
#[derive(Debug)]
pub enum HandlerEvent {
    /// The request came in.
    Arrived,
    /// A permit was granted.
    PermitGranted,
    /// No permit was free.
    PermitBusy,
    /// The wait for a permit ran out.
    QueueTimedOut,
    /// The admission queue was closed while the request waited.
    QueueClosed,
    /// The cache gave a node.
    NodeSelected { endpoint: String },
    /// The cache has no active node.
    NoNode,
    /// The upstream answered with a success; this is its body.
    ForwardSucceeded { body: String },
    /// The forward failed.
    ForwardFailed,
    /// The failed node is out of the cache.
    Evicted,
}

/// What the caller is to do next.
#[derive(Debug)]
pub enum HandlerAction {
    /// Ask for a permit without waiting.
    TryAcquire,
    /// Wait for a permit, this many seconds at most.
    AwaitPermit { max_wait_s: u64 },
    /// Ask the cache for a fast node.
    SelectNode,
    /// POST the request to this endpoint, with this timeout in seconds.
    Forward { endpoint: String, timeout_s: u64 },
    /// Remove this endpoint from the cache.
    Evict { endpoint: String },
    /// Answer 200 with this body, as it is.
    ReplyVerbatim { body: String },
    /// Answer with the error response of this failure.
    ReplyError { failure: Failure },
}

/// Whether a request in this state holds a permit of the admission queue.
pub open spec fn holds_permit(state: HandlerState) -> bool {
    state is Holding || state is Forwarding || state is Evicting
}

/// The table of the forwarding path: for a state and an event that belongs
/// to it, the next state and the action; `None` for an event out of place.
pub open spec fn transition(state: HandlerState, event: HandlerEvent, config: HandlerConfig)
    -> Option<(HandlerState, HandlerAction)> {
    match (state, event) {
        (HandlerState::Received, HandlerEvent::Arrived) => Some(
            (HandlerState::Admitting, HandlerAction::TryAcquire),
        ),
        (HandlerState::Admitting, HandlerEvent::PermitGranted) => Some(
            (HandlerState::Holding, HandlerAction::SelectNode),
        ),
        (HandlerState::Admitting, HandlerEvent::PermitBusy) => Some(
            (
                HandlerState::Queued,
                HandlerAction::AwaitPermit { max_wait_s: config.max_queue_wait_time },
            ),
        ),
        (HandlerState::Queued, HandlerEvent::PermitGranted) => Some(
            (HandlerState::Holding, HandlerAction::SelectNode),
        ),
        (HandlerState::Queued, HandlerEvent::QueueTimedOut) => Some(
            (HandlerState::Finished, HandlerAction::ReplyError { failure: Failure::QueueTimeout }),
        ),
        (HandlerState::Queued, HandlerEvent::QueueClosed) => Some(
            (HandlerState::Finished, HandlerAction::ReplyError { failure: Failure::QueueClosed }),
        ),
        (HandlerState::Holding, HandlerEvent::NodeSelected { endpoint }) => Some(
            (
                HandlerState::Forwarding { endpoint },
                HandlerAction::Forward { endpoint, timeout_s: config.rpc_request_timeout },
            ),
        ),
        (HandlerState::Holding, HandlerEvent::NoNode) => Some(
            (HandlerState::Finished, HandlerAction::ReplyError { failure: Failure::NoNodes }),
        ),
        (HandlerState::Forwarding { endpoint }, HandlerEvent::ForwardSucceeded { body }) => Some(
            (HandlerState::Finished, HandlerAction::ReplyVerbatim { body }),
        ),
        (HandlerState::Forwarding { endpoint }, HandlerEvent::ForwardFailed) => Some(
            (HandlerState::Evicting, HandlerAction::Evict { endpoint }),
        ),
        (HandlerState::Evicting, HandlerEvent::Evicted) => Some(
            (HandlerState::Finished, HandlerAction::ReplyError { failure: Failure::ForwardFailed }),
        ),
        _ => None,
    }
}

/// One decision of the forwarding path: from where the request stands and
/// what just happened to where it stands next and what to do.
pub fn rpc_handler(state: HandlerState, event: HandlerEvent, config: &HandlerConfig) -> (r: Option<
    (HandlerState, HandlerAction),
>)
    ensures
        r == transition(state, event, *config),
{
    match (state, event) {
        (HandlerState::Received, HandlerEvent::Arrived) => Some(
            (HandlerState::Admitting, HandlerAction::TryAcquire),
        ),
        (HandlerState::Admitting, HandlerEvent::PermitGranted) => Some(
            (HandlerState::Holding, HandlerAction::SelectNode),
        ),
        (HandlerState::Admitting, HandlerEvent::PermitBusy) => Some(
            (
                HandlerState::Queued,
                HandlerAction::AwaitPermit { max_wait_s: config.max_queue_wait_time },
            ),
        ),
        (HandlerState::Queued, HandlerEvent::PermitGranted) => Some(
            (HandlerState::Holding, HandlerAction::SelectNode),
        ),
        (HandlerState::Queued, HandlerEvent::QueueTimedOut) => Some(
            (HandlerState::Finished, HandlerAction::ReplyError { failure: Failure::QueueTimeout }),
        ),
        (HandlerState::Queued, HandlerEvent::QueueClosed) => Some(
            (HandlerState::Finished, HandlerAction::ReplyError { failure: Failure::QueueClosed }),
        ),
        (HandlerState::Holding, HandlerEvent::NodeSelected { endpoint }) => {
            let target = endpoint.clone();
            Some(
                (
                    HandlerState::Forwarding { endpoint },
                    HandlerAction::Forward { endpoint: target, timeout_s: config.rpc_request_timeout },
                ),
            )
        },
        (HandlerState::Holding, HandlerEvent::NoNode) => Some(
            (HandlerState::Finished, HandlerAction::ReplyError { failure: Failure::NoNodes }),
        ),
        (HandlerState::Forwarding { endpoint }, HandlerEvent::ForwardSucceeded { body }) => Some(
            (HandlerState::Finished, HandlerAction::ReplyVerbatim { body }),
        ),
        (HandlerState::Forwarding { endpoint }, HandlerEvent::ForwardFailed) => Some(
            (HandlerState::Evicting, HandlerAction::Evict { endpoint }),
        ),
        (HandlerState::Evicting, HandlerEvent::Evicted) => Some(
            (HandlerState::Finished, HandlerAction::ReplyError { failure: Failure::ForwardFailed }),
        ),
        _ => None,
    }
}

/// A forward is only ever started by a request that holds a permit, and the
/// request keeps the permit while the forward runs: forwards in flight never
/// outnumber the permits handed out.
pub proof fn lemma_forward_holds_permit(
    state: HandlerState,
    event: HandlerEvent,
    config: HandlerConfig,
)
    requires
        transition(state, event, config) is Some,
        ({
            let step = transition(state, event, config)->0;
            step.1 is Forward
        }),
    ensures
        ({
            let step = transition(state, event, config)->0;
            let next = step.0;
            let action = step.1;
            &&& holds_permit(state)
            &&& holds_permit(next)
            &&& event is NodeSelected
            &&& action->Forward_endpoint == event->NodeSelected_endpoint
            &&& action->timeout_s == config.rpc_request_timeout
        }),
{
}

/// The requests, among any number of them, that hold a permit.
pub open spec fn permit_holders(requests: Seq<HandlerState>) -> Seq<HandlerState> {
    requests.filter(|s: HandlerState| holds_permit(s))
}

/// The requests, among any number of them, whose forward is under way.
pub open spec fn forwards_in_flight(requests: Seq<HandlerState>) -> Seq<HandlerState> {
    requests.filter(|s: HandlerState| s is Forwarding)
}

/// Whatever the requests in the server are doing, the forwards under way
/// are no more than the permits held; so they stay within the capacity of an
/// admission queue that never has more permits out than its capacity.
pub proof fn lemma_forwards_within_permits(requests: Seq<HandlerState>, capacity: nat)
    requires
        permit_holders(requests).len() <= capacity,
    ensures
        forwards_in_flight(requests).len() <= permit_holders(requests).len(),
        forwards_in_flight(requests).len() <= capacity,
    decreases requests.len(),
{
    reveal(Seq::filter);
    if requests.len() > 0 {
        let rest = requests.drop_last();
        assert(requests == rest.push(requests.last()));
        rest.lemma_filter_push(requests.last(), |s: HandlerState| holds_permit(s));
        rest.lemma_filter_push(requests.last(), |s: HandlerState| s is Forwarding);
        lemma_forwards_within_permits(rest, capacity);
    }
}

/// A request is answered exactly when it finishes; a successful forward is
/// answered with the upstream's body as it came; and a failed forward is
/// answered only after the node it went to was handed over for eviction.
pub proof fn lemma_reply_ends_request(
    state: HandlerState,
    event: HandlerEvent,
    config: HandlerConfig,
)
    requires
        transition(state, event, config) is Some,
    ensures
        ({
            let step = transition(state, event, config)->0;
            let next = step.0;
            let action = step.1;
            &&& (action is ReplyVerbatim || action is ReplyError) == (next is Finished)
            &&& action is ReplyVerbatim ==> event is ForwardSucceeded && action->body
                == event->ForwardSucceeded_body
            &&& (action is ReplyError && action->failure is ForwardFailed) ==> state is Evicting
            &&& next is Evicting ==> state is Forwarding && action is Evict
                && action->Evict_endpoint == state->Forwarding_endpoint
            &&& !(state is Finished)
        }),
{
}

/// The occupancy of the admission queue.
#[derive(Debug, Clone, Copy, PartialEq, Eq, Structural)]
pub struct QueueStatus {
    pub max_concurrent_requests: usize,
    pub active_requests: usize,
    pub available_slots: usize,
    pub queue_full: bool,
}

/// The occupancy of an admission queue of `max_concurrent` permits of which
/// `available_permits` are free.
pub fn queue_status(max_concurrent: usize, available_permits: usize) -> (status: QueueStatus)
    requires
        available_permits <= max_concurrent,
    ensures
        status.max_concurrent_requests == max_concurrent,
        status.active_requests == max_concurrent - available_permits,
        status.available_slots == available_permits,
        status.queue_full == (available_permits == 0),
        status.active_requests <= max_concurrent,
{
    QueueStatus {
        max_concurrent_requests: max_concurrent,
        active_requests: max_concurrent - available_permits,
        available_slots: available_permits,
        queue_full: available_permits == 0,
    }
}

/// The text of the first parameter, where the parameters are an array that
/// starts with a string.
pub open spec fn first_param_text(params: Option<serde_json::Value>) -> Option<Seq<char>> {
    match params {
        Some(p) => match element(json_model(p), 0) {
            Some(first) => text_of(first),
            None => None,
        },
        None => None,
    }
}

/// The word under which a method's first parameter is shown, for the two
/// methods whose first parameter is shown at all.
pub open spec fn subject_label(method: Seq<char>) -> Option<Seq<char>> {
    if method == "getTokenAccountsByOwner"@ {
        Some("owner"@)
    } else if method == "getAccountInfo"@ {
        Some("account"@)
    } else {
        None
    }
}

/// The number of bytes that a character takes in UTF-8.
pub open spec fn utf8_len(c: char) -> int {
    let u = c as u32;
    if u < 0x80 {
        1
    } else if u < 0x800 {
        2
    } else if u < 0x10000 {
        3
    } else {
        4
    }
}

/// The end of the longest run of characters from `i` on that takes no more
/// than `budget` bytes in UTF-8.
pub open spec fn fitting_end(text: Seq<char>, i: int, budget: int) -> int
    decreases text.len() - i,
{
    if 0 <= i < text.len() && utf8_len(text[i]) <= budget {
        fitting_end(text, i + 1, budget - utf8_len(text[i]))
    } else {
        i
    }
}

/// The part of an account that a log line shows: its first characters, as
/// many as fit in `SUBJECT_SHOWN` bytes.
pub open spec fn shown_subject(text: Seq<char>) -> Seq<char> {
    text.subrange(0, fitting_end(text, 0, SUBJECT_SHOWN as int))
}

/// The short form of a request for log lines: `method(id=..)`, and for the
/// two account methods `method(owner=ABCDEFGH..., id=..)` with the first
/// bytes of the account.
pub open spec fn request_info(method: Seq<char>, subject: Option<Seq<char>>, id: Seq<char>) -> Seq<
    char,
> {
    match (subject_label(method), subject) {
        (Some(label), Some(text)) => method + "("@ + label + "="@ + shown_subject(text)
            + "..., id="@ + id + ")"@,
        _ => method + "(id="@ + id + ")"@,
    }
}

/// The number of bytes that a character takes in UTF-8.
fn char_utf8_len(c: char) -> (n: usize)
    ensures
        n == utf8_len(c),
        1 <= n <= 4,
{
    let u = c as u32;
    if u < 0x80 {
        1
    } else if u < 0x800 {
        2
    } else if u < 0x10000 {
        3
    } else {
        4
    }
}

/// How many of a text's first characters a log line shows.
fn shown_len(chars: &Vec<char>) -> (end: usize)
    ensures
        end == fitting_end(chars@, 0, SUBJECT_SHOWN as int),
        end <= chars.len(),
{
    let mut i: usize = 0;
    let mut budget: usize = SUBJECT_SHOWN;
    while i < chars.len() && char_utf8_len(chars[i]) <= budget
        invariant
            i <= chars.len(),
            budget <= SUBJECT_SHOWN,
            fitting_end(chars@, i as int, budget as int) == fitting_end(
                chars@,
                0,
                SUBJECT_SHOWN as int,
            ),
        decreases chars.len() - i,
    {
        budget -= char_utf8_len(chars[i]);
        i += 1;
    }
    i
}

/// Writes the short form of a request from its method, the text of its first
/// parameter if that is a string, and the text of its `id`.
pub fn describe_request(method: &str, subject: Option<&str>, id: &str) -> (info: String)
    ensures
        info@ == request_info(
            method@,
            match subject {
                Some(s) => Some(s@),
                None => None,
            },
            id@,
        ),
{
    let owner = String::from_str(method) == String::from_str("getTokenAccountsByOwner");
    let account = String::from_str(method) == String::from_str("getAccountInfo");
    let mut info = String::from_str(method);
    match subject {
        Some(text) => {
            if owner || account {
                let shown = shown_len(&text_chars(text));
                info.append("(");
                info.append(
                    if owner {
                        "owner"
                    } else {
                        "account"
                    },
                );
                info.append("=");
                info.append(text.substring_char(0, shown));
                info.append("..., id=");
                info.append(id);
                info.append(")");
                return info;
            }
        },
        None => {},
    }
    info.append("(id=");
    info.append(id);
    info.append(")");
    info
}

/// The short form of a request for log lines.
pub fn format_rpc_request_info(request: &RpcRequest) -> (info: String)
    ensures
        info@ == request_info(request.method@, first_param_text(request.params), id_text(request.id)),
{
    let id = request_id_text(&request.id);
    let subject: Option<&str> = match &request.params {
        Some(p) => match json_at(p, 0) {
            Some(first) => json_as_str(first),
            None => None,
        },
        None => None,
    };
    describe_request(request.method.as_str(), subject, id.as_str())
}

} // verus!
