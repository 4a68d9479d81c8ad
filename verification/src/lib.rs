//! Control plane of a JSON-RPC reverse proxy: discovery parsing, probe
//! classification, the latency-ranked node cache and the per-request
//! forwarding decisions, each with a machine-checked contract.

pub mod discovery;
pub mod gossip;
pub mod json;
pub mod node_cache;
pub mod proxy;
pub mod rpc_client;
pub mod text;
pub mod types;

pub use gossip::GossipClient;
pub use node_cache::NodeCache;
pub use types::{RpcError, RpcNode, RpcRequest, RpcResponse};
