use serde_json::Value;
use std::time::Duration;
use x1_rpc_proxy::proxy::{
    describe_request, error_response, format_rpc_request_info, queue_status, rpc_handler, Failure,
    HandlerAction, HandlerConfig, HandlerEvent, HandlerState,
};
use x1_rpc_proxy::rpc_client::{forward_rpc_request_raw, HttpOutcome};
use x1_rpc_proxy::{NodeCache, RpcNode, RpcRequest};

const CONFIG: HandlerConfig = HandlerConfig { rpc_request_timeout: 60, max_queue_wait_time: 1 };

fn request(text: &str) -> RpcRequest {
    let doc: Value = serde_json::from_str(text).unwrap();
    RpcRequest {
        jsonrpc: doc.get("jsonrpc").and_then(|v| v.as_str()).unwrap_or("2.0").to_string(),
        id: doc.get("id").cloned().unwrap_or(Value::Null),
        method: doc.get("method").and_then(|v| v.as_str()).unwrap().to_string(),
        params: doc.get("params").cloned(),
    }
}

fn step(state: HandlerState, event: HandlerEvent) -> (HandlerState, HandlerAction) {
    rpc_handler(state, event, &CONFIG).unwrap()
}

/// Runs one request against a cache and a canned upstream, as the server does.
fn serve(cache: &mut NodeCache, permit_free: bool, upstream: HttpOutcome) -> (HandlerState, HandlerAction) {
    let (state, action) = step(HandlerState::Received, HandlerEvent::Arrived);
    assert!(matches!(action, HandlerAction::TryAcquire));
    let (state, action) = if permit_free {
        step(state, HandlerEvent::PermitGranted)
    } else {
        let (state, action) = step(state, HandlerEvent::PermitBusy);
        assert!(matches!(action, HandlerAction::AwaitPermit { max_wait_s: 1 }));
        return step(state, HandlerEvent::QueueTimedOut);
    };
    assert!(matches!(action, HandlerAction::SelectNode));
    let event = match cache.get_random_fast_node() {
        Some(node) => HandlerEvent::NodeSelected { endpoint: node.endpoint },
        None => HandlerEvent::NoNode,
    };
    let (state, action) = step(state, event);
    let endpoint = match action {
        HandlerAction::Forward { endpoint, timeout_s } => {
            assert_eq!(timeout_s, 60);
            endpoint
        }
        other => return (state, other),
    };
    assert!(matches!(&state, HandlerState::Forwarding { endpoint: e } if *e == endpoint));
    let event = match forward_rpc_request_raw(upstream) {
        Ok(body) => HandlerEvent::ForwardSucceeded { body },
        Err(_) => HandlerEvent::ForwardFailed,
    };
    let (state, action) = step(state, event);
    match action {
        HandlerAction::Evict { endpoint: evicted } => {
            assert_eq!(evicted, endpoint);
            cache.remove_node(&evicted);
            step(state, HandlerEvent::Evicted)
        }
        other => (state, other),
    }
}

fn seeded() -> NodeCache {
    let mut cache = NodeCache::new();
    cache.update_node_status(RpcNode::new("http://u:1".to_string()), true, Duration::from_millis(5));
    cache
}

#[test]
fn happy_path() {
    let mut cache = seeded();
    let body = r#"{"jsonrpc":"2.0","id":7,"result":12345}"#;
    let upstream = HttpOutcome::Replied { status: 200, body: body.to_string() };
    let (state, action) = serve(&mut cache, true, upstream);
    assert!(matches!(state, HandlerState::Finished));
    match action {
        HandlerAction::ReplyVerbatim { body: sent } => assert_eq!(sent, body),
        other => panic!("unexpected action {:?}", other),
    }
    assert_eq!(cache.get_node_stats(), (1, 1));
}

#[test]
fn empty_cache() {
    let mut cache = NodeCache::new();
    let (state, action) = serve(&mut cache, true, HttpOutcome::Failed);
    assert!(matches!(state, HandlerState::Finished));
    let failure = match action {
        HandlerAction::ReplyError { failure } => failure,
        other => panic!("unexpected action {:?}", other),
    };
    assert_eq!(failure, Failure::NoNodes);
    let req = request(r#"{"jsonrpc":"2.0","id":"x","method":"getSlot"}"#);
    let (status, response) = error_response(req.id, failure, Some(Value::from(3)));
    assert_eq!(status, 503);
    assert_eq!(response.jsonrpc, "2.0");
    assert_eq!(response.id, Value::String("x".to_string()));
    assert!(response.result.is_none());
    let error = response.error.unwrap();
    assert_eq!(error.code, -32000);
    assert_eq!(error.message, "No available RPC nodes");
    assert_eq!(error.data, Some(Value::from(3)));
}

#[test]
fn eviction_on_failure() {
    let mut cache = seeded();
    let upstream = HttpOutcome::Replied { status: 500, body: "boom".to_string() };
    let (state, action) = serve(&mut cache, true, upstream);
    assert!(matches!(state, HandlerState::Finished));
    let failure = match action {
        HandlerAction::ReplyError { failure } => failure,
        other => panic!("unexpected action {:?}", other),
    };
    assert_eq!(failure, Failure::ForwardFailed);
    let (status, response) = error_response(Value::from(7), failure, None);
    assert_eq!(status, 500);
    let error = response.error.unwrap();
    assert_eq!(error.code, -32603);
    assert_eq!(error.message, "Internal error");
    assert_eq!(error.data, None);
    assert_eq!(cache.get_node_stats(), (0, 0));
}

#[test]
fn eviction_on_network_failure() {
    let mut cache = seeded();
    let (_, action) = serve(&mut cache, true, HttpOutcome::Failed);
    assert!(matches!(action, HandlerAction::ReplyError { failure: Failure::ForwardFailed }));
    assert_eq!(cache.get_node_stats().1, 0);
}

#[test]
fn overload_shedding() {
    let mut cache = seeded();
    let (state, action) = serve(&mut cache, false, HttpOutcome::Failed);
    assert!(matches!(state, HandlerState::Finished));
    let failure = match action {
        HandlerAction::ReplyError { failure } => failure,
        other => panic!("unexpected action {:?}", other),
    };
    assert_eq!(failure, Failure::QueueTimeout);
    let (status, response) = error_response(Value::from(2), failure, None);
    assert_eq!(status, 503);
    let error = response.error.unwrap();
    assert_eq!(error.code, -32000);
    assert_eq!(error.message, "Server overloaded, request queue full");
    assert_eq!(cache.get_node_stats(), (1, 1));
}

#[test]
fn queued_request_goes_on_when_a_permit_comes() {
    let (state, _) = step(HandlerState::Received, HandlerEvent::Arrived);
    let (state, action) = step(state, HandlerEvent::PermitBusy);
    assert!(matches!(state, HandlerState::Queued));
    assert!(matches!(action, HandlerAction::AwaitPermit { max_wait_s: 1 }));
    let (state, action) = step(state, HandlerEvent::PermitGranted);
    assert!(matches!(state, HandlerState::Holding));
    assert!(matches!(action, HandlerAction::SelectNode));
}

#[test]
fn closed_queue() {
    let (state, action) = step(HandlerState::Queued, HandlerEvent::QueueClosed);
    assert!(matches!(state, HandlerState::Finished));
    assert!(matches!(action, HandlerAction::ReplyError { failure: Failure::QueueClosed }));
    let (status, response) = error_response(Value::Null, Failure::QueueClosed, Some(Value::from(1)));
    assert_eq!(status, 503);
    assert_eq!(response.id, Value::Null);
    let error = response.error.unwrap();
    assert_eq!(error.code, -32000);
    assert_eq!(error.message, "Server shutting down");
    assert_eq!(error.data, None);
}

#[test]
fn events_out_of_place_are_refused() {
    assert!(rpc_handler(HandlerState::Received, HandlerEvent::PermitGranted, &CONFIG).is_none());
    assert!(rpc_handler(HandlerState::Received, HandlerEvent::NoNode, &CONFIG).is_none());
    assert!(rpc_handler(HandlerState::Admitting, HandlerEvent::QueueTimedOut, &CONFIG).is_none());
    assert!(rpc_handler(HandlerState::Queued, HandlerEvent::PermitBusy, &CONFIG).is_none());
    assert!(rpc_handler(HandlerState::Holding, HandlerEvent::ForwardFailed, &CONFIG).is_none());
    assert!(rpc_handler(HandlerState::Holding, HandlerEvent::Evicted, &CONFIG).is_none());
    assert!(rpc_handler(HandlerState::Evicting, HandlerEvent::ForwardFailed, &CONFIG).is_none());
    assert!(rpc_handler(HandlerState::Finished, HandlerEvent::Arrived, &CONFIG).is_none());
    assert!(rpc_handler(HandlerState::Finished, HandlerEvent::Evicted, &CONFIG).is_none());
    let forwarding = HandlerState::Forwarding { endpoint: "http://u:1".to_string() };
    assert!(rpc_handler(forwarding, HandlerEvent::NoNode, &CONFIG).is_none());
}

#[test]
fn error_response_keeps_the_id() {
    let ids = [
        Value::from(7),
        Value::String("x".to_string()),
        Value::Null,
        serde_json::from_str::<Value>("18446744073709551615").unwrap(),
        serde_json::from_str::<Value>("-1.5").unwrap(),
    ];
    for id in ids {
        for failure in [Failure::QueueTimeout, Failure::QueueClosed, Failure::NoNodes, Failure::ForwardFailed] {
            let (_, response) = error_response(id.clone(), failure, None);
            assert_eq!(response.id, id);
            assert_eq!(response.id.to_string(), id.to_string());
            assert!(response.result.is_none());
        }
    }
}

#[test]
fn no_forward_without_a_permit() {
    for state in [HandlerState::Received, HandlerState::Admitting, HandlerState::Queued, HandlerState::Finished] {
        let event = HandlerEvent::NodeSelected { endpoint: "http://u:1".to_string() };
        assert!(rpc_handler(state, event, &CONFIG).is_none());
    }
    let event = HandlerEvent::NodeSelected { endpoint: "http://u:1".to_string() };
    let (state, action) = step(HandlerState::Holding, event);
    assert!(matches!(state, HandlerState::Forwarding { endpoint } if endpoint == "http://u:1"));
    assert!(matches!(action, HandlerAction::Forward { endpoint, timeout_s: 60 } if endpoint == "http://u:1"));
}

#[test]
fn queue_occupancy() {
    let status = queue_status(100, 100);
    assert_eq!(
        (status.max_concurrent_requests, status.active_requests, status.available_slots, status.queue_full),
        (100, 0, 100, false)
    );
    let status = queue_status(100, 37);
    assert_eq!((status.active_requests, status.available_slots, status.queue_full), (63, 37, false));
    let status = queue_status(1, 0);
    assert_eq!((status.active_requests, status.available_slots, status.queue_full), (1, 0, true));
    let status = queue_status(0, 0);
    assert_eq!((status.active_requests, status.available_slots, status.queue_full), (0, 0, true));
}

#[test]
fn request_info_plain() {
    let req = request(r#"{"jsonrpc":"2.0","id":7,"method":"getSlot"}"#);
    assert_eq!(format_rpc_request_info(&req), "getSlot(id=7)");
    let req = request(r#"{"jsonrpc":"2.0","id":"x","method":"sendTransaction","params":["AAAAAAAAAAAAAAAA"]}"#);
    assert_eq!(format_rpc_request_info(&req), "sendTransaction(id=x)");
    let req = request(r#"{"jsonrpc":"2.0","id":null,"method":"custom"}"#);
    assert_eq!(format_rpc_request_info(&req), "custom(id=null)");
}

#[test]
fn request_info_with_account() {
    let req = request(
        r#"{"id":3,"method":"getAccountInfo","params":["A1TMhSGzQxMr1TboBKtgixKz1sS6REASMxPo1qsyTSJd",{"encoding":"base64"}]}"#,
    );
    assert_eq!(format_rpc_request_info(&req), "getAccountInfo(account=A1TMhSGz..., id=3)");
    let req = request(r#"{"id":"q","method":"getTokenAccountsByOwner","params":["abc"]}"#);
    assert_eq!(format_rpc_request_info(&req), "getTokenAccountsByOwner(owner=abc..., id=q)");
    let req = request(r#"{"id":"q","method":"getTokenAccountsByOwner","params":["12345678"]}"#);
    assert_eq!(format_rpc_request_info(&req), "getTokenAccountsByOwner(owner=12345678..., id=q)");
    let req = request(r#"{"id":"q","method":"getAccountInfo","params":[""]}"#);
    assert_eq!(format_rpc_request_info(&req), "getAccountInfo(account=..., id=q)");
}

#[test]
fn request_info_without_a_text_parameter() {
    for params in ["[]", "[5]", "{\"0\":\"abc\"}", "\"abc\"", "[[\"abc\"]]", "null"] {
        let text = format!(r#"{{"id":1,"method":"getAccountInfo","params":{}}}"#, params);
        assert_eq!(format_rpc_request_info(&request(&text)), "getAccountInfo(id=1)");
    }
    let req = request(r#"{"id":1,"method":"getTokenAccountsByOwner"}"#);
    assert_eq!(format_rpc_request_info(&req), "getTokenAccountsByOwner(id=1)");
}

#[test]
fn describe_request_forms() {
    assert_eq!(describe_request("getSlot", None, "7"), "getSlot(id=7)");
    assert_eq!(describe_request("getSlot", Some("ABCDEFGHIJ"), "7"), "getSlot(id=7)");
    assert_eq!(
        describe_request("getAccountInfo", Some("ABCDEFGHIJ"), "7"),
        "getAccountInfo(account=ABCDEFGH..., id=7)"
    );
    assert_eq!(
        describe_request("getTokenAccountsByOwner", Some("\u{e9}\u{e9}\u{e9}\u{e9}\u{e9}\u{e9}"), "7"),
        "getTokenAccountsByOwner(owner=\u{e9}\u{e9}\u{e9}\u{e9}..., id=7)"
    );
    assert_eq!(
        describe_request("getAccountInfo", Some("abcdefg\u{e9}z"), "7"),
        "getAccountInfo(account=abcdefg..., id=7)"
    );
    assert_eq!(
        describe_request("getAccountInfo", Some("\u{1F600}\u{20AC}ab"), "7"),
        "getAccountInfo(account=\u{1F600}\u{20AC}a..., id=7)"
    );
    assert_eq!(describe_request("", None, ""), "(id=)");
}
