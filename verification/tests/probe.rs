use serde_json::Value;
use x1_rpc_proxy::rpc_client::{
    classify_document, classify_reply, forward_rpc_request_raw, request_id_text, status_is_success,
    test_rpc_node, ForwardFailure, HttpOutcome, ProbeFailure, METHOD_NOT_FOUND, PROBE_REQUEST,
};

fn reply(status: u16, body: &str) -> HttpOutcome {
    HttpOutcome::Replied { status, body: body.to_string() }
}

fn doc(text: &str) -> Value {
    serde_json::from_str::<Value>(text).unwrap()
}

#[test]
fn success_statuses_are_the_two_hundreds() {
    assert!(!status_is_success(199));
    assert!(status_is_success(200));
    assert!(status_is_success(204));
    assert!(status_is_success(299));
    assert!(!status_is_success(300));
    assert!(!status_is_success(500));
}

#[test]
fn verdict_table() {
    assert_eq!(METHOD_NOT_FOUND, -32601);
    assert_eq!(classify_reply(true, false, None), Ok(()));
    assert_eq!(classify_reply(true, true, Some(-32601)), Ok(()));
    assert_eq!(classify_reply(false, true, Some(-32601)), Err(ProbeFailure::MethodNotSupported));
    assert_eq!(classify_reply(false, true, Some(-32602)), Ok(()));
    assert_eq!(classify_reply(false, true, Some(0)), Ok(()));
    assert_eq!(classify_reply(false, true, None), Err(ProbeFailure::InvalidResponse));
    assert_eq!(classify_reply(false, false, None), Err(ProbeFailure::InvalidResponse));
    assert_eq!(classify_reply(false, false, Some(-32602)), Err(ProbeFailure::InvalidResponse));
}

#[test]
fn probe_with_result_is_a_full_node() {
    let body = r#"{"jsonrpc":"2.0","id":1,"result":{"context":{"slot":1},"value":[]}}"#;
    assert_eq!(test_rpc_node(&reply(200, body)), Ok(()));
    assert_eq!(classify_document(&doc(body)), Ok(()));
}

#[test]
fn probe_light_node_rejection() {
    let body = r#"{"error":{"code":-32601,"message":"Method not found"}}"#;
    assert_eq!(test_rpc_node(&reply(200, body)), Err(ProbeFailure::MethodNotSupported));
}

#[test]
fn probe_invalid_params_acceptance() {
    let body = r#"{"error":{"code":-32602,"message":"Invalid params"}}"#;
    assert_eq!(test_rpc_node(&reply(200, body)), Ok(()));
}

#[test]
fn probe_without_result_or_error_is_invalid() {
    assert_eq!(test_rpc_node(&reply(200, r#"{"jsonrpc":"2.0","id":1}"#)), Err(ProbeFailure::InvalidResponse));
    assert_eq!(
        test_rpc_node(&reply(200, r#"{"jsonrpc":"2.0","id":1,"result":null}"#)),
        Err(ProbeFailure::InvalidResponse)
    );
    assert_eq!(
        test_rpc_node(&reply(200, r#"{"result":null,"error":null}"#)),
        Err(ProbeFailure::InvalidResponse)
    );
    assert_eq!(test_rpc_node(&reply(200, "[1,2]")), Err(ProbeFailure::InvalidResponse));
    assert_eq!(test_rpc_node(&reply(200, "7")), Err(ProbeFailure::InvalidResponse));
}

#[test]
fn probe_error_without_integer_code_is_invalid() {
    assert_eq!(
        test_rpc_node(&reply(200, r#"{"error":{"message":"odd"}}"#)),
        Err(ProbeFailure::InvalidResponse)
    );
    assert_eq!(
        test_rpc_node(&reply(200, r#"{"error":{"code":"-32601"}}"#)),
        Err(ProbeFailure::InvalidResponse)
    );
    assert_eq!(
        test_rpc_node(&reply(200, r#"{"error":{"code":1.5}}"#)),
        Err(ProbeFailure::InvalidResponse)
    );
    assert_eq!(test_rpc_node(&reply(200, r#"{"error":"down"}"#)), Err(ProbeFailure::InvalidResponse));
}

#[test]
fn probe_result_wins_over_error() {
    let body = r#"{"result":0,"error":{"code":-32601,"message":"Method not found"}}"#;
    assert_eq!(test_rpc_node(&reply(200, body)), Ok(()));
}

#[test]
fn probe_malformed_body() {
    assert_eq!(test_rpc_node(&reply(200, "<html>")), Err(ProbeFailure::MalformedBody));
    assert_eq!(test_rpc_node(&reply(200, "")), Err(ProbeFailure::MalformedBody));
    assert_eq!(test_rpc_node(&reply(200, r#"{"result":1} x"#)), Err(ProbeFailure::MalformedBody));
}

#[test]
fn probe_http_failure() {
    assert_eq!(test_rpc_node(&reply(404, r#"{"result":1}"#)), Err(ProbeFailure::HttpStatus(404)));
    assert_eq!(test_rpc_node(&reply(500, "")), Err(ProbeFailure::HttpStatus(500)));
    assert_eq!(test_rpc_node(&HttpOutcome::Failed), Err(ProbeFailure::Unreachable));
}

#[test]
fn forward_hands_the_body_over_untouched() {
    let body = r#"{"jsonrpc":"2.0","id":7,"result":12345}"#;
    assert_eq!(forward_rpc_request_raw(reply(200, body)), Ok(body.to_string()));
    let wide = "{\"jsonrpc\":\"2.0\", \"id\":7,\n \"result\":18446744073709551615 }";
    assert_eq!(forward_rpc_request_raw(reply(200, wide)), Ok(wide.to_string()));
    assert_eq!(forward_rpc_request_raw(reply(201, "not json")), Ok("not json".to_string()));
}

#[test]
fn forward_failure_kinds() {
    assert_eq!(forward_rpc_request_raw(reply(500, "x")), Err(ForwardFailure::HttpStatus(500)));
    assert_eq!(forward_rpc_request_raw(reply(302, "x")), Err(ForwardFailure::HttpStatus(302)));
    assert_eq!(forward_rpc_request_raw(HttpOutcome::Failed), Err(ForwardFailure::Unreachable));
}

#[test]
fn id_text_forms() {
    assert_eq!(request_id_text(&Value::String("x".to_string())), "x");
    assert_eq!(request_id_text(&Value::from(7)), "7");
    assert_eq!(request_id_text(&Value::Null), "null");
    assert_eq!(request_id_text(&Value::Bool(true)), "true");
    assert_eq!(request_id_text(&doc("[1,\"a\"]")), "[1,\"a\"]");
    assert_eq!(request_id_text(&doc("18446744073709551615")), "18446744073709551615");
}

#[test]
fn probe_request_asks_for_token_accounts() {
    let request = doc(PROBE_REQUEST);
    assert_eq!(request["jsonrpc"], "2.0");
    assert_eq!(request["id"], 1);
    assert_eq!(request["method"], "getTokenAccountsByOwner");
    let params = request["params"].as_array().unwrap();
    assert_eq!(params.len(), 3);
    assert_eq!(params[0], "A1TMhSGzQxMr1TboBKtgixKz1sS6REASMxPo1qsyTSJd");
    assert_eq!(params[1]["programId"], "TokenkegQfeZyiNwAJbNbGKPFXCWuBvf9Ss623VQ5DA");
    assert_eq!(params[2]["encoding"], "jsonParsed");
    assert_eq!(request.to_string().len(), PROBE_REQUEST.len());
}
