//! Discovery of candidate upstream endpoints: the text of the gossip tool,
//! the reply to `getClusterNodes`, and the built-in list, tried in that
//! order until one of them gives something.

use crate::json::{json_as_array, json_as_str, json_get, json_model, json_parsed, member, parse_json,
    text_of, JsonModel};
use crate::rpc_client::{is_success, status_is_success, HttpOutcome};
use crate::text::{decimal, decimal_value, is_digit, lemma_run_end, run_end, scan, slice_chars,
    text_chars, Stop};
use crate::types::RpcNode;
use vstd::prelude::*;
use vstd::string::*;

verus! {

/// The body of the call that asks the cluster for its nodes.
pub const CLUSTER_NODES_REQUEST: &'static str =
    "{\"id\":1,\"jsonrpc\":\"2.0\",\"method\":\"getClusterNodes\"}";

/// The ports on which an RPC service is looked for.
pub open spec fn rpc_port(port: nat) -> bool {
    port == 8899 || port == 8900 || port == 8001 || port == 9090
}

/// An RPC port in decimal.
pub open spec fn port_text(port: nat) -> Seq<char> {
    if port == 8899 {
        "8899"@
    } else if port == 8900 {
        "8900"@
    } else if port == 8001 {
        "8001"@
    } else {
        "9090"@
    }
}

/// The endpoint of a host and an RPC port.
pub open spec fn endpoint_text(host: Seq<char>, port: nat) -> Seq<char> {
    "http://"@ + host + ":"@ + port_text(port)
}

/// Where the host of a word ends and which port follows it: the word has a
/// colon, and what follows the first one begins with the digits of an RPC port.
pub open spec fn token_port(token: Seq<char>) -> Option<(int, nat)> {
    let colon = run_end(token, 0, Stop::Colon);
    if colon < token.len() {
        let digits = token.subrange(colon + 1, run_end(token, colon + 1, Stop::NonDigit));
        if digits.len() > 0 && rpc_port(decimal(digits)) {
            Some((colon, decimal(digits)))
        } else {
            None
        }
    } else {
        None
    }
}

/// The endpoint that a word of gossip output stands for: the word is a host,
/// a colon and a port that begins with the digits of an RPC port.
pub open spec fn token_endpoint(token: Seq<char>) -> Option<Seq<char>> {
    match token_port(token) {
        Some((colon, port)) => Some(endpoint_text(token.take(colon), port)),
        None => None,
    }
}

/// The endpoint of the first word, from `i` on, that stands for one.
pub open spec fn first_endpoint(line: Seq<char>, i: int) -> Option<Seq<char>>
    decreases line.len() - i,
{
    if 0 <= i < line.len() {
        let end = run_end(line, i, Stop::Space);
        if i < end <= line.len() {
            match token_endpoint(line.subrange(i, end)) {
                Some(endpoint) => Some(endpoint),
                None => first_endpoint(line, end),
            }
        } else {
            first_endpoint(line, i + 1)
        }
    } else {
        None
    }
}

/// Whether the text `Nodes:` stands at position `k`.
pub open spec fn marker_at(line: Seq<char>, k: int) -> bool {
    &&& 0 <= k
    &&& k + 6 <= line.len()
    &&& line[k] == 'N'
    &&& line[k + 1] == 'o'
    &&& line[k + 2] == 'd'
    &&& line[k + 3] == 'e'
    &&& line[k + 4] == 's'
    &&& line[k + 5] == ':'
}

/// Whether a line is one that only counts the nodes.
pub open spec fn is_count_line(line: Seq<char>) -> bool {
    exists|k: int| marker_at(line, k)
}

/// The endpoint that one line of gossip output gives, if any.
pub open spec fn line_endpoint(line: Seq<char>) -> Option<Seq<char>> {
    if is_count_line(line) {
        None
    } else {
        first_endpoint(line, 0)
    }
}

/// The endpoints of the lines that start at `i` or later, in order.
pub open spec fn endpoints_from(text: Seq<char>, i: int) -> Seq<Seq<char>>
    decreases text.len() - i,
{
    if 0 <= i < text.len() {
        let end = run_end(text, i, Stop::Newline);
        if i <= end <= text.len() {
            let rest = if end < text.len() {
                endpoints_from(text, end + 1)
            } else {
                Seq::empty()
            };
            match line_endpoint(text.subrange(i, end)) {
                Some(endpoint) => seq![endpoint] + rest,
                None => rest,
            }
        } else {
            Seq::empty()
        }
    } else {
        Seq::empty()
    }
}

/// The endpoints that gossip output names, one per line at most.
pub open spec fn gossip_endpoints(text: Seq<char>) -> Seq<Seq<char>> {
    endpoints_from(text, 0)
}

/// The endpoints of a list of nodes.
pub open spec fn endpoints_of(nodes: Seq<RpcNode>) -> Seq<Seq<char>> {
    nodes.map_values(|n: RpcNode| n.endpoint@)
}

/// Whether every node of a list is as discovery leaves it: not active, with
/// no response time.
pub open spec fn unprobed(nodes: Seq<RpcNode>) -> bool {
    forall|i: int|
        0 <= i < nodes.len() ==> !(#[trigger] nodes[i]).is_active && nodes[i].response_time is None
}

/// Whether a text begins with `http`.
pub open spec fn begins_with_http(s: Seq<char>) -> bool {
    s.len() >= 4 && s[0] == 'h' && s[1] == 't' && s[2] == 't' && s[3] == 'p'
}

/// The endpoint that one element of a `getClusterNodes` result gives: its
/// `rpc` member where that is a string, neither empty nor `null`, with
/// `http://` put in front unless it begins with `http`.
pub open spec fn node_endpoint(node: JsonModel) -> Option<Seq<char>> {
    match member(node, "rpc"@) {
        Some(rpc) => match text_of(rpc) {
            Some(s) => if s == "null"@ || s.len() == 0 {
                None
            } else if begins_with_http(s) {
                Some(s)
            } else {
                Some("http://"@ + s)
            },
            None => None,
        },
        None => None,
    }
}

/// The endpoints that a `getClusterNodes` result gives, in order.
pub open spec fn cluster_endpoints(nodes: Seq<JsonModel>) -> Seq<Seq<char>>
    decreases nodes.len(),
{
    if nodes.len() == 0 {
        Seq::empty()
    } else {
        match node_endpoint(nodes.last()) {
            Some(endpoint) => cluster_endpoints(nodes.drop_last()).push(endpoint),
            None => cluster_endpoints(nodes.drop_last()),
        }
    }
}

/// The contents of a list of JSON values.
pub open spec fn models_of(values: Seq<serde_json::Value>) -> Seq<JsonModel> {
    values.map_values(|v: serde_json::Value| json_model(v))
}

/// The built-in endpoints: the cluster's own URL and the two loopback defaults.
pub open spec fn default_endpoints(cluster_url: Seq<char>) -> Seq<Seq<char>> {
    seq![cluster_url, "http://localhost:8899"@, "http://127.0.0.1:8899"@]
}

/// Why a way of discovery gave no nodes.
#[derive(Debug, Clone, Copy, PartialEq, Eq, Structural)]
pub enum DiscoveryFailure {
    /// The gossip tool could not be started or did not exit cleanly.
    ToolFailed,
    /// No reply came from the cluster.
    Unreachable,
    /// The cluster's reply had a status that is no success.
    HttpStatus(u16),
    /// The cluster's reply was not a JSON document.
    MalformedBody,
    /// The cluster's reply held an `error` member.
    RpcError,
    /// The cluster's reply held no array under `result`.
    InvalidFormat,
}

/// How a run of the gossip tool ended.
#[derive(Debug)]
pub enum ToolRun {
    /// The tool could not be started.
    NotStarted,
    /// The tool ran; this is whether it exited cleanly and what it printed.
    Exited { success: bool, stdout: String },
}

/// The ways of discovery that need the outside world, in the order in which
/// they are tried.
#[derive(Debug, Clone, Copy, PartialEq, Eq, Structural)]
pub enum Tier {
    /// The `gossip` subcommand of the command-line tool.
    GossipTool,
    /// The `getClusterNodes` call.
    ClusterApi,
}

/// What discovery does after one way was tried.
#[derive(Debug)]
pub enum Discovery {
    /// These are the nodes of this tick.
    Found(Vec<RpcNode>),
    /// Try this way next.
    Try(Tier),
}

/// What a run of the gossip tool gives: the endpoints that its output
/// names, when it ran and exited cleanly.
pub open spec fn tool_endpoints(run: ToolRun) -> Result<Seq<Seq<char>>, DiscoveryFailure> {
    match run {
        ToolRun::NotStarted => Err(DiscoveryFailure::ToolFailed),
        ToolRun::Exited { success, stdout } => if success {
            Ok(gossip_endpoints(stdout@))
        } else {
            Err(DiscoveryFailure::ToolFailed)
        },
    }
}

/// What the document of a `getClusterNodes` reply gives: the endpoints of
/// the array under `result`, unless there is an `error` member.
pub open spec fn document_endpoints(doc: JsonModel) -> Result<Seq<Seq<char>>, DiscoveryFailure> {
    if member(doc, "error"@) is Some {
        Err(DiscoveryFailure::RpcError)
    } else {
        match member(doc, "result"@) {
            Some(JsonModel::Array(items)) => Ok(cluster_endpoints(items)),
            _ => Err(DiscoveryFailure::InvalidFormat),
        }
    }
}

/// What a `getClusterNodes` exchange gives.
pub open spec fn reply_endpoints(outcome: HttpOutcome) -> Result<Seq<Seq<char>>, DiscoveryFailure> {
    match outcome {
        HttpOutcome::Failed => Err(DiscoveryFailure::Unreachable),
        HttpOutcome::Replied { status, body } => if !is_success(status) {
            Err(DiscoveryFailure::HttpStatus(status))
        } else {
            match json_parsed(body@) {
                Some(doc) => document_endpoints(doc),
                None => Err(DiscoveryFailure::MalformedBody),
            }
        },
    }
}

/// Whether a list of nodes is what a way of discovery gave: unprobed nodes
/// with the endpoints that it gives, or its failure.
pub open spec fn discovered(
    r: Result<Vec<RpcNode>, DiscoveryFailure>,
    given: Result<Seq<Seq<char>>, DiscoveryFailure>,
) -> bool {
    match r {
        Ok(nodes) => given == Ok::<Seq<Seq<char>>, DiscoveryFailure>(endpoints_of(nodes@))
            && unprobed(nodes@),
        Err(e) => given == Err::<Seq<Seq<char>>, DiscoveryFailure>(e),
    }
}

/// Whether a way of discovery gave at least one node.
pub open spec fn gave_nodes(tried: Result<Vec<RpcNode>, DiscoveryFailure>) -> bool {
    tried is Ok && tried->Ok_0@.len() > 0
}

/// Whether a port is one on which an RPC service is looked for.
fn port_is_rpc(port: u16) -> (r: bool)
    ensures
        r == rpc_port(port as nat),
{
    port == 8899 || port == 8900 || port == 8001 || port == 9090
}

/// Where the host of a word ends and which port follows it.
fn token_port_of(token: &Vec<char>) -> (r: Option<(usize, u16)>)
    ensures
        match r {
            Some((colon, port)) => colon < token.len() && token_port(token@) == Some(
                (colon as int, port as nat),
            ),
            None => token_port(token@) is None,
        },
{
    let colon = scan(token, 0, Stop::Colon);
    if colon >= token.len() {
        return None;
    }
    let end = scan(token, colon + 1, Stop::NonDigit);
    let digits = slice_chars(token, colon + 1, end);
    proof {
        lemma_run_end(token@, colon + 1, Stop::NonDigit);
        assert forall|k: int| 0 <= k < digits@.len() implies is_digit(#[trigger] digits@[k]) by {
            assert(digits@[k] == token@[colon + 1 + k]);
        }
    }
    match decimal_value(&digits) {
        Some(port) => if port_is_rpc(port) {
            Some((colon, port))
        } else {
            None
        },
        None => None,
    }
}

/// The endpoint of a host, given by where it stands in a text, and an RPC port.
fn endpoint_string(source: &str, from: usize, to: usize, port: u16) -> (endpoint: String)
    requires
        from <= to <= source@.len(),
        rpc_port(port as nat),
    ensures
        endpoint@ == endpoint_text(source@.subrange(from as int, to as int), port as nat),
{
    let mut endpoint = String::from_str("http://");
    endpoint.append(source.substring_char(from, to));
    endpoint.append(":");
    endpoint.append(
        if port == 8899 {
            "8899"
        } else if port == 8900 {
            "8900"
        } else if port == 8001 {
            "8001"
        } else {
            "9090"
        },
    );
    endpoint
}

/// Whether the text `Nodes:` stands somewhere in a line.
fn count_line(line: &Vec<char>) -> (r: bool)
    ensures
        r == is_count_line(line@),
{
    let mut k: usize = 0;
    while line.len() >= 6 && k <= line.len() - 6
        invariant
            forall|j: int| 0 <= j < k ==> !marker_at(line@, j),
        decreases line.len() - k,
    {
        if line[k] == 'N' && line[k + 1] == 'o' && line[k + 2] == 'd' && line[k + 3] == 'e' && line[k
            + 4] == 's' && line[k + 5] == ':' {
            assert(marker_at(line@, k as int));
            return true;
        }
        k += 1;
    }
    false
}

/// Where the host of a line's endpoint stands, and its port: those of the
/// first word that stands for an endpoint.
fn first_host_of(line: &Vec<char>) -> (r: Option<(usize, usize, u16)>)
    ensures
        match r {
            Some((from, to, port)) => from <= to <= line.len() && rpc_port(port as nat)
                && first_endpoint(line@, 0) == Some(
                endpoint_text(line@.subrange(from as int, to as int), port as nat),
            ),
            None => first_endpoint(line@, 0) is None,
        },
{
    let mut i: usize = 0;
    while i < line.len()
        invariant
            i <= line.len(),
            first_endpoint(line@, i as int) == first_endpoint(line@, 0),
        decreases line.len() - i,
    {
        let end = scan(line, i, Stop::Space);
        if end > i {
            let token = slice_chars(line, i, end);
            match token_port_of(&token) {
                Some((colon, port)) => {
                    proof {
                        assert(token@.take(colon as int) == line@.subrange(i as int, i + colon));
                    }
                    return Some((i, i + colon, port));
                },
                None => {
                    i = end;
                },
            }
        } else {
            i += 1;
        }
    }
    None
}

/// Client of the cluster's discovery services.
pub struct GossipClient {
    cluster_url: String,
}

impl GossipClient {
    /// The URL of the cluster that this client asks.
    pub closed spec fn url(&self) -> Seq<char> {
        self.cluster_url@
    }

    /// A client of the public test cluster. The gossip port is not used.
    pub fn new(_gossip_port: u16) -> (client: Self)
        ensures
            client.url() == "https://rpc.testnet.x1.xyz"@,
    {
        Self { cluster_url: String::from_str("https://rpc.testnet.x1.xyz") }
    }

    /// A client of the cluster at this URL.
    pub fn new_with_cluster(cluster_url: &str) -> (client: Self)
        ensures
            client.url() == cluster_url@,
    {
        Self { cluster_url: String::from_str(cluster_url) }
    }

    /// The URL of the cluster that this client asks.
    pub fn cluster_url(&self) -> (url: &str)
        ensures
            url@ == self.url(),
    {
        self.cluster_url.as_str()
    }

    /// Whether a port is one on which an RPC service is looked for.
    pub fn is_rpc_port(&self, port: u16) -> (r: bool)
        ensures
            r == rpc_port(port as nat),
    {
        port_is_rpc(port)
    }

    /// The endpoint that a line of gossip output names: that of its first
    /// word made of a host, a colon and an RPC port.
    pub fn extract_rpc_from_gossip_line(&self, line: &str) -> (r: Option<String>)
        ensures
            match r {
                Some(s) => first_endpoint(line@, 0) == Some(s@),
                None => first_endpoint(line@, 0) is None,
            },
    {
        let chars = text_chars(line);
        match first_host_of(&chars) {
            Some((from, to, port)) => Some(endpoint_string(line, from, to, port)),
            None => None,
        }
    }

    /// The nodes that the gossip tool's output names: one for each line that
    /// names an endpoint and is not a line that counts the nodes.
    pub fn parse_gossip_output(&self, output: &str) -> (nodes: Vec<RpcNode>)
        ensures
            endpoints_of(nodes@) == gossip_endpoints(output@),
            unprobed(nodes@),
    {
        let chars = text_chars(output);
        let mut nodes: Vec<RpcNode> = Vec::new();
        let mut i: usize = 0;
        while i < chars.len()
            invariant
                i <= chars.len(),
                chars@ == output@,
                endpoints_of(nodes@) + endpoints_from(chars@, i as int) == endpoints_from(chars@, 0),
                unprobed(nodes@),
            decreases chars.len() - i,
        {
            let end = scan(&chars, i, Stop::Newline);
            let line = slice_chars(&chars, i, end);
            let ghost before = nodes@;
            let ghost rest = if end < chars.len() {
                endpoints_from(chars@, end + 1)
            } else {
                Seq::<Seq<char>>::empty()
            };
            if !count_line(&line) {
                match first_host_of(&line) {
                    Some((from, to, port)) => {
                        proof {
                            assert(output@.subrange(i + from, i + to) =~= line@.subrange(
                                from as int,
                                to as int,
                            ));
                        }
                        let endpoint = endpoint_string(output, i + from, i + to, port);
                        nodes.push(RpcNode::new(endpoint));
                        proof {
                            assert(endpoints_of(nodes@) == endpoints_of(before).push(endpoint@));
                            assert(endpoints_of(nodes@) + rest == endpoints_of(before) + (
                            seq![endpoint@] + rest));
                        }
                    },
                    None => {},
                }
            }
            i = if end < chars.len() {
                end + 1
            } else {
                end
            };
        }
        proof {
            assert(endpoints_of(nodes@) + Seq::<Seq<char>>::empty() == endpoints_of(nodes@));
        }
        nodes
    }

    /// The nodes that the elements of a `getClusterNodes` result name.
    pub fn parse_cluster_nodes(&self, nodes: &Vec<serde_json::Value>) -> (found: Vec<RpcNode>)
        ensures
            endpoints_of(found@) == cluster_endpoints(models_of(nodes@)),
            unprobed(found@),
    {
        let mut found: Vec<RpcNode> = Vec::new();
        let mut i: usize = 0;
        while i < nodes.len()
            invariant
                i <= nodes.len(),
                endpoints_of(found@) == cluster_endpoints(models_of(nodes@.take(i as int))),
                unprobed(found@),
            decreases nodes.len() - i,
        {
            let ghost before = found@;
            proof {
                assert(nodes@.take(i + 1).drop_last() == nodes@.take(i as int));
                assert(models_of(nodes@.take(i + 1)).drop_last() == models_of(
                    nodes@.take(i as int),
                ));
                assert(models_of(nodes@.take(i + 1)).last() == json_model(nodes@[i as int]));
            }
            let rpc: Option<&str> = match json_get(&nodes[i], "rpc") {
                Some(value) => json_as_str(value),
                None => None,
            };
            match rpc {
                Some(s) => {
                    let length = s.unicode_len();
                    if length > 0 && !(String::from_str(s) == String::from_str("null")) {
                        let endpoint = if length >= 4 && s.get_char(0) == 'h' && s.get_char(1) == 't'
                            && s.get_char(2) == 't' && s.get_char(3) == 'p' {
                            String::from_str(s)
                        } else {
                            let mut prefixed = String::from_str("http://");
                            prefixed.append(s);
                            prefixed
                        };
                        found.push(RpcNode::new(endpoint));
                        proof {
                            assert(endpoints_of(found@) == endpoints_of(before).push(endpoint@));
                        }
                    }
                },
                None => {},
            }
            i += 1;
        }
        proof {
            assert(nodes@.take(i as int) == nodes@);
        }
        found
    }

    /// The built-in nodes: the cluster's own URL and the loopback defaults.
    pub fn get_default_rpc_nodes(&self) -> (nodes: Vec<RpcNode>)
        ensures
            endpoints_of(nodes@) == default_endpoints(self.url()),
            unprobed(nodes@),
    {
        let mut nodes: Vec<RpcNode> = Vec::new();
        nodes.push(RpcNode::new(self.cluster_url.clone()));
        nodes.push(RpcNode::new(String::from_str("http://localhost:8899")));
        nodes.push(RpcNode::new(String::from_str("http://127.0.0.1:8899")));
        proof {
            assert(endpoints_of(nodes@) == default_endpoints(self.url()));
        }
        nodes
    }

    /// The nodes that a run of the gossip tool gives.
    pub fn try_solana_gossip(&self, run: &ToolRun) -> (r: Result<Vec<RpcNode>, DiscoveryFailure>)
        ensures
            discovered(r, tool_endpoints(*run)),
    {
        match run {
            ToolRun::NotStarted => Err(DiscoveryFailure::ToolFailed),
            ToolRun::Exited { success, stdout } => if *success {
                Ok(self.parse_gossip_output(stdout.as_str()))
            } else {
                Err(DiscoveryFailure::ToolFailed)
            },
        }
    }

    /// The nodes that the document of a `getClusterNodes` reply gives.
    pub fn cluster_nodes_of(&self, doc: &serde_json::Value) -> (r: Result<
        Vec<RpcNode>,
        DiscoveryFailure,
    >)
        ensures
            discovered(r, document_endpoints(json_model(*doc))),
    {
        if json_get(doc, "error").is_some() {
            return Err(DiscoveryFailure::RpcError);
        }
        match json_get(doc, "result") {
            Some(result) => match json_as_array(result) {
                Some(items) => Ok(self.parse_cluster_nodes(items)),
                None => Err(DiscoveryFailure::InvalidFormat),
            },
            None => Err(DiscoveryFailure::InvalidFormat),
        }
    }

    /// The nodes that a `getClusterNodes` exchange gives.
    pub fn try_rpc_cluster_nodes(&self, outcome: &HttpOutcome) -> (r: Result<
        Vec<RpcNode>,
        DiscoveryFailure,
    >)
        ensures
            discovered(r, reply_endpoints(*outcome)),
    {
        match outcome {
            HttpOutcome::Failed => Err(DiscoveryFailure::Unreachable),
            HttpOutcome::Replied { status, body } => {
                if !status_is_success(*status) {
                    return Err(DiscoveryFailure::HttpStatus(*status));
                }
                match parse_json(body.as_str()) {
                    Ok(doc) => self.cluster_nodes_of(&doc),
                    Err(_) => Err(DiscoveryFailure::MalformedBody),
                }
            },
        }
    }

    /// What discovery does after one way was tried: it stops with the nodes
    /// of the first way that gave any, goes from the gossip tool to the
    /// cluster's API, and from there to the built-in nodes.
    pub fn get_rpc_nodes(&self, tier: Tier, tried: Result<Vec<RpcNode>, DiscoveryFailure>) -> (r:
        Discovery)
        ensures
            gave_nodes(tried) ==> r == Discovery::Found(tried->Ok_0),
            !gave_nodes(tried) && tier is GossipTool ==> r == Discovery::Try(Tier::ClusterApi),
            !gave_nodes(tried) && tier is ClusterApi ==> r is Found && endpoints_of(r->Found_0@)
                == default_endpoints(self.url()) && unprobed(r->Found_0@),
    {
        match tried {
            Ok(nodes) => if nodes.len() > 0 {
                return Discovery::Found(nodes);
            },
            Err(_) => {},
        }
        match tier {
            Tier::GossipTool => Discovery::Try(Tier::ClusterApi),
            Tier::ClusterApi => Discovery::Found(self.get_default_rpc_nodes()),
        }
    }
}

} // verus!
