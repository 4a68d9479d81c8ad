use std::time::Duration;
use x1_rpc_proxy::discovery::{test_and_update_node, tick_report};
use x1_rpc_proxy::node_cache::TOP_FASTEST;
use x1_rpc_proxy::rpc_client::{HttpOutcome, ProbeFailure};
use x1_rpc_proxy::{NodeCache, RpcNode};

fn node(endpoint: &str) -> RpcNode {
    RpcNode::new(endpoint.to_string())
}

fn reply(status: u16, body: &str) -> HttpOutcome {
    HttpOutcome::Replied { status, body: body.to_string() }
}

#[test]
fn new_node_is_unprobed() {
    let n = RpcNode::new("http://u:1".to_string());
    assert_eq!(n.endpoint, "http://u:1");
    assert!(!n.is_active);
    assert!(n.response_time.is_none());
    let copy = n.duplicate();
    assert_eq!(copy.endpoint, n.endpoint);
    assert_eq!(copy.last_seen, n.last_seen);
    assert_eq!(copy.is_active, n.is_active);
    assert_eq!(copy.response_time, n.response_time);
}

#[test]
fn empty_cache_has_nothing() {
    let cache = NodeCache::new();
    assert_eq!(cache.get_node_stats(), (0, 0));
    assert_eq!(cache.get_performance_stats(), (0, 0, None, None));
    assert!(cache.get_active_nodes().is_empty());
    assert!(cache.get_random_active_node().is_none());
    assert!(cache.get_random_fast_node().is_none());
    assert!(cache.fastest_nodes().is_empty());
}

#[test]
fn stored_active_node_is_in_the_snapshot() {
    let mut cache = NodeCache::new();
    cache.update_node_status(node("http://u:1"), true, Duration::from_millis(5));
    let active = cache.get_active_nodes();
    assert_eq!(active.len(), 1);
    assert_eq!(active[0].endpoint, "http://u:1");
    assert!(active[0].is_active);
    assert_eq!(active[0].response_time, Some(Duration::from_millis(5)));
    assert_eq!(cache.get_node_stats(), (1, 1));
}

#[test]
fn inactive_node_keeps_no_response_time() {
    let mut cache = NodeCache::new();
    cache.update_node_status(node("http://u:1"), true, Duration::from_millis(5));
    cache.update_node_status(node("http://u:1"), false, Duration::from_secs(0));
    assert_eq!(cache.get_node_stats(), (1, 0));
    assert!(cache.get_active_nodes().is_empty());
    assert!(cache.get_random_fast_node().is_none());
    assert_eq!(cache.get_performance_stats(), (1, 0, None, None));
}

#[test]
fn one_entry_per_endpoint() {
    let mut cache = NodeCache::new();
    cache.update_node_status(node("http://a:1"), true, Duration::from_millis(9));
    cache.update_node_status(node("http://b:1"), true, Duration::from_millis(3));
    cache.update_node_status(node("http://a:1"), true, Duration::from_millis(2));
    assert_eq!(cache.get_node_stats(), (2, 2));
    let active = cache.get_active_nodes();
    assert_eq!(active[0].endpoint, "http://a:1");
    assert_eq!(active[0].response_time, Some(Duration::from_millis(2)));
    assert_eq!(active[1].endpoint, "http://b:1");
    assert_eq!(active[1].response_time, Some(Duration::from_millis(3)));
}

#[test]
fn removed_node_is_not_seen_until_stored_again() {
    let mut cache = NodeCache::new();
    cache.update_node_status(node("http://a:1"), true, Duration::from_millis(9));
    cache.update_node_status(node("http://b:1"), true, Duration::from_millis(3));
    cache.remove_node("http://a:1");
    assert_eq!(cache.get_node_stats(), (1, 1));
    for _ in 0..50 {
        assert_eq!(cache.get_random_fast_node().unwrap().endpoint, "http://b:1");
        assert_eq!(cache.get_random_active_node().unwrap().endpoint, "http://b:1");
    }
    assert!(cache.get_active_nodes().iter().all(|n| n.endpoint != "http://a:1"));
    cache.remove_node("http://missing:1");
    assert_eq!(cache.get_node_stats(), (1, 1));
    cache.update_node_status(node("http://a:1"), true, Duration::from_millis(1));
    assert_eq!(cache.get_node_stats(), (2, 2));
    assert_eq!(cache.fastest_nodes()[0].endpoint, "http://a:1");
}

#[test]
fn selection_is_always_active() {
    let mut cache = NodeCache::new();
    cache.update_node_status(node("http://down:1"), false, Duration::from_millis(1));
    cache.update_node_status(node("http://up:1"), true, Duration::from_millis(700));
    for _ in 0..50 {
        let chosen = cache.get_random_fast_node().unwrap();
        assert!(chosen.is_active);
        assert_eq!(chosen.endpoint, "http://up:1");
    }
}

#[test]
fn selection_stays_within_the_fastest() {
    let mut cache = NodeCache::new();
    for i in (1..=30u64).rev() {
        cache.update_node_status(node(&format!("http://n{}:8899", i)), true, Duration::from_millis(i));
    }
    let top = cache.fastest_nodes();
    assert_eq!(top.len(), TOP_FASTEST);
    for (p, n) in top.iter().enumerate() {
        assert_eq!(n.response_time, Some(Duration::from_millis(p as u64 + 1)));
        assert_eq!(n.endpoint, format!("http://n{}:8899", p + 1));
    }
    let mut seen = std::collections::HashSet::new();
    for _ in 0..400 {
        let chosen = cache.get_random_fast_node().unwrap();
        assert!(chosen.response_time.unwrap() <= Duration::from_millis(20));
        seen.insert(chosen.endpoint);
    }
    assert!(seen.len() > 1);
}

#[test]
fn fastest_list_orders_by_whole_duration() {
    let mut cache = NodeCache::new();
    cache.update_node_status(node("http://slow:1"), true, Duration::new(2, 1));
    cache.update_node_status(node("http://mid:1"), true, Duration::new(1, 999_999_999));
    cache.update_node_status(node("http://fast:1"), true, Duration::from_nanos(7));
    cache.update_node_status(node("http://tie:1"), true, Duration::new(1, 999_999_999));
    let top = cache.fastest_nodes();
    let order: Vec<&str> = top.iter().map(|n| n.endpoint.as_str()).collect();
    assert_eq!(order, vec!["http://fast:1", "http://mid:1", "http://tie:1", "http://slow:1"]);
}

#[test]
fn performance_stats_give_the_extremes() {
    let mut cache = NodeCache::new();
    cache.update_node_status(node("http://a:1"), true, Duration::from_millis(40));
    cache.update_node_status(node("http://b:1"), true, Duration::from_millis(5));
    cache.update_node_status(node("http://c:1"), true, Duration::from_millis(90));
    cache.update_node_status(node("http://d:1"), false, Duration::from_millis(1));
    assert_eq!(
        cache.get_performance_stats(),
        (4, 3, Some(Duration::from_millis(5)), Some(Duration::from_millis(90)))
    );
    let report = tick_report(&cache);
    assert_eq!(report.total, 4);
    assert_eq!(report.active, 3);
    assert_eq!(report.fastest, Some(Duration::from_millis(5)));
    assert_eq!(report.slowest, Some(Duration::from_millis(90)));
    assert!(!report.no_active_nodes);
}

#[test]
fn tick_report_warns_without_active_nodes() {
    let mut cache = NodeCache::new();
    cache.update_node_status(node("http://a:1"), false, Duration::from_millis(40));
    let report = tick_report(&cache);
    assert_eq!((report.total, report.active), (1, 0));
    assert!(report.no_active_nodes);
    assert_eq!(report.fastest, None);
}

#[test]
fn light_node_is_stored_inactive() {
    let mut cache = NodeCache::new();
    cache.update_node_status(node("http://u:1"), true, Duration::from_millis(5));
    let outcome = reply(200, r#"{"error":{"code":-32601,"message":"Method not found"}}"#);
    let verdict = test_and_update_node(&mut cache, node("http://u:1"), &outcome, Duration::from_millis(3));
    assert_eq!(verdict, Err(ProbeFailure::MethodNotSupported));
    assert_eq!(cache.get_node_stats(), (1, 0));
}

#[test]
fn invalid_params_node_is_stored_active() {
    let mut cache = NodeCache::new();
    let outcome = reply(200, r#"{"error":{"code":-32602,"message":"Invalid params"}}"#);
    let verdict = test_and_update_node(&mut cache, node("http://u:1"), &outcome, Duration::from_millis(3));
    assert_eq!(verdict, Ok(()));
    let active = cache.get_active_nodes();
    assert_eq!(active.len(), 1);
    assert_eq!(active[0].response_time, Some(Duration::from_millis(3)));
}

#[test]
fn unreachable_node_is_stored_inactive() {
    let mut cache = NodeCache::new();
    let verdict = test_and_update_node(&mut cache, node("http://u:1"), &HttpOutcome::Failed, Duration::from_secs(2));
    assert_eq!(verdict, Err(ProbeFailure::Unreachable));
    assert_eq!(cache.get_node_stats(), (1, 0));
}
