//! What one tick of discovery does with the cache: it stores the outcome of
//! each probe and sums up what the cache then holds.

use crate::node_cache::{active_entries, is_extreme, slot, upserted, NodeCache};
use crate::rpc_client::{probe_verdict, test_rpc_node, HttpOutcome, ProbeFailure};
use crate::types::RpcNode;
use std::time::Duration;
use vstd::prelude::*;

verus! {

/// The state of the cache after a tick.
#[derive(Debug, Clone, Copy)]
pub struct TickReport {
    pub total: usize,
    pub active: usize,
    pub fastest: Option<Duration>,
    pub slowest: Option<Duration>,
    /// No node is active: nothing can be forwarded.
    pub no_active_nodes: bool,
}

/// Judges a probe and stores the outcome: the node becomes active with the
/// time the probe took when the verdict is good, inactive with no response
/// time otherwise. Returns the verdict.
pub fn test_and_update_node(
    cache: &mut NodeCache,
    node: RpcNode,
    outcome: &HttpOutcome,
    elapsed: Duration,
) -> (verdict: Result<(), ProbeFailure>)
    requires
        old(cache).wf(),
        node.endpoint@.len() > 0,
    ensures
        verdict == probe_verdict(*outcome),
        final(cache).wf(),
        ({
            let at = slot(old(cache).entries(), node.endpoint@);
            let stored = final(cache).entries()[at];
            &&& 0 <= at < final(cache).entries().len()
            &&& stored.endpoint == node.endpoint
            &&& stored.is_active == (verdict is Ok)
            &&& stored.response_time == (if verdict is Ok {
                Some(elapsed)
            } else {
                None::<Duration>
            })
            &&& final(cache).entries() == upserted(old(cache).entries(), stored)
        }),
{
    let verdict = test_rpc_node(outcome);
    cache.update_node_status(node, verdict.is_ok(), elapsed);
    verdict
}

/// Sums up the cache at the end of a tick.
pub fn tick_report(cache: &NodeCache) -> (report: TickReport)
    ensures
        report.total == cache.entries().len(),
        report.active == active_entries(cache.entries()).len(),
        is_extreme(cache.entries(), report.fastest, true),
        is_extreme(cache.entries(), report.slowest, false),
        report.no_active_nodes == (report.active == 0),
{
    let (total, active, fastest, slowest) = cache.get_performance_stats();
    TickReport { total, active, fastest, slowest, no_active_nodes: active == 0 }
}

} // verus!
