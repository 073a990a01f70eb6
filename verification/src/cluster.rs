//! The nodes of the cluster: which one this is, and which ones hold an object.
use crate::model::{
    ClusterNodeConfig, ClusterNodeConfigView, DataNode, DataNodeView, KVServiceContext,
    KVServiceContextView, NodeEnv, NodeEnvView,
};
use crate::text::has_prefix;
use twox_hash::xxh3::hash64;
use vstd::prelude::*;
use vstd::utf8::encode_utf8;

verus! {

/// The 64-bit XXH3 hash of a byte string, with seed zero, as `twox_hash` computes it.
pub uninterp spec fn xxh3_hash64(data: Seq<u8>) -> u64;

/// `twox_hash::xxh3::hash64` computes a hash of the bytes it is given, and of nothing else. It
/// reads them in little-endian order on every machine, so nodes of different kinds agree.
pub assume_specification[ twox_hash::xxh3::hash64 ](data: &[u8]) -> (h: u64)
    ensures
        h == xxh3_hash64(data@),
;

/// The URI under which an endpoint is called.
pub open spec fn uri_of(endpoint: Seq<char>) -> Seq<char> {
    if "http://"@.is_prefix_of(endpoint) || "https://"@.is_prefix_of(endpoint) {
        endpoint
    } else {
        "http://"@ + endpoint
    }
}

/// The URI under which an endpoint is called: the endpoint itself where it names a scheme,
/// and plain HTTP otherwise.
pub fn grpc_uri(endpoint: &str) -> (r: String)
    ensures
        r@ == uri_of(endpoint@),
{
    if has_prefix(endpoint, "http://") || has_prefix(endpoint, "https://") {
        endpoint.to_string()
    } else {
        let mut uri = "http://".to_string();
        uri.append(endpoint);
        uri
    }
}

/// A URI is the URI of itself.
pub proof fn uri_is_stable(endpoint: Seq<char>)
    ensures
        uri_of(uri_of(endpoint)) == uri_of(endpoint),
{
    let scheme = "http://"@;
    assert((scheme + endpoint).subrange(0, scheme.len() as int) =~= scheme);
}

/// The first of `env`, `configured` and `fallback` that says something; the last one counts
/// even when it is empty.
pub open spec fn first_given(
    env: Option<Seq<char>>,
    configured: Seq<char>,
    fallback: Seq<char>,
) -> Seq<char> {
    match env {
        Some(v) if v.len() > 0 => v,
        _ => if configured.len() > 0 {
            configured
        } else {
            fallback
        },
    }
}

/// This node.
pub open spec fn this_node(ctx: KVServiceContextView, env: NodeEnvView) -> DataNodeView {
    let cluster = ctx.config.cluster;
    DataNodeView {
        node_id: first_given(env.node_id, cluster.node_id, "local"@),
        grpc_endpoint: first_given(
            env.grpc_advertise,
            cluster.grpc_advertise,
            ctx.config.api.listen,
        ),
        rdma_endpoint: first_given(env.rdma_advertise, cluster.rdma_advertise, seq![]),
    }
}

fn first_given_of(env: &Option<String>, configured: &String, fallback: &str) -> (r: String)
    ensures
        r@ == first_given(env.deep_view(), configured@, fallback@),
{
    match env {
        Some(v) => if !v.as_str().is_empty() {
            return v.clone();
        },
        None => {},
    }
    if !configured.as_str().is_empty() {
        configured.clone()
    } else {
        fallback.to_string()
    }
}

/// This node: the environment comes before the configuration.
pub fn local_node(ctx: &KVServiceContext, env: &NodeEnv) -> (r: DataNode)
    ensures
        r.deep_view() == this_node(ctx.deep_view(), env.deep_view()),
{
    proof {
        reveal_strlit("");
    }
    let cluster = &ctx.config.cluster;
    let node = DataNode {
        node_id: first_given_of(&env.node_id, &cluster.node_id, "local"),
        grpc_endpoint: first_given_of(
            &env.grpc_advertise,
            &cluster.grpc_advertise,
            ctx.config.api.listen.as_str(),
        ),
        rdma_endpoint: first_given_of(&env.rdma_advertise, &cluster.rdma_advertise, ""),
    };
    assert(""@ =~= seq![]);
    node
}

/// The node that an entry of the configuration stands for. An entry without a name is known
/// by its endpoint.
pub open spec fn configured_node(n: ClusterNodeConfigView) -> DataNodeView {
    DataNodeView {
        node_id: if n.node_id.len() == 0 {
            n.grpc_endpoint
        } else {
            n.node_id
        },
        grpc_endpoint: n.grpc_endpoint,
        rdma_endpoint: n.rdma_endpoint,
    }
}

/// The nodes that store objects: those of the configuration, or this node alone where the
/// configuration lists none.
pub open spec fn data_nodes(ctx: KVServiceContextView, env: NodeEnvView) -> Seq<DataNodeView> {
    let listed = ctx.config.cluster.data_nodes;
    if listed.len() == 0 {
        seq![this_node(ctx, env)]
    } else {
        Seq::new(listed.len(), |i: int| configured_node(listed[i]))
    }
}

fn configured_node_of(n: &ClusterNodeConfig) -> (r: DataNode)
    ensures
        r.deep_view() == configured_node(n.deep_view()),
{
    DataNode {
        node_id: if n.node_id.as_str().is_empty() {
            n.grpc_endpoint.clone()
        } else {
            n.node_id.clone()
        },
        grpc_endpoint: n.grpc_endpoint.clone(),
        rdma_endpoint: n.rdma_endpoint.clone(),
    }
}

/// The nodes that store objects, in the order of the configuration.
pub fn configured_data_nodes(ctx: &KVServiceContext, env: &NodeEnv) -> (r: Vec<DataNode>)
    ensures
        r.deep_view() == data_nodes(ctx.deep_view(), env.deep_view()),
        r.len() > 0,
{
    let listed = &ctx.config.cluster.data_nodes;
    let mut nodes: Vec<DataNode> = Vec::new();
    if listed.is_empty() {
        nodes.push(local_node(ctx, env));
        assert(nodes.deep_view() =~= data_nodes(ctx.deep_view(), env.deep_view()));
        return nodes;
    }
    let mut i: usize = 0;
    while i < listed.len()
        invariant
            i <= listed.len(),
            nodes.len() == i,
            forall|j: int|
                0 <= j < i ==> (#[trigger] nodes@[j]).deep_view() == configured_node(
                    listed@[j].deep_view(),
                ),
        decreases listed.len() - i,
    {
        nodes.push(configured_node_of(&listed[i]));
        i = i + 1;
    }
    assert(nodes.deep_view() =~= data_nodes(ctx.deep_view(), env.deep_view()));
    nodes
}

/// Whether `node` is this node: the name or the endpoint tells.
pub open spec fn is_this_node(
    ctx: KVServiceContextView,
    env: NodeEnvView,
    node: DataNodeView,
) -> bool {
    let local = this_node(ctx, env);
    node.node_id == local.node_id || node.grpc_endpoint == local.grpc_endpoint
}

/// Tells whether `node` is this node.
pub fn is_local_node(ctx: &KVServiceContext, env: &NodeEnv, node: &DataNode) -> (r: bool)
    ensures
        r == is_this_node(ctx.deep_view(), env.deep_view(), node.deep_view()),
{
    let local = local_node(ctx, env);
    node.node_id == local.node_id || node.grpc_endpoint == local.grpc_endpoint
}

/// Whether an object of `len` bytes is spread over the data nodes: it is larger than the
/// threshold, the threshold is not zero, and there is more than one node.
pub open spec fn spreads(ctx: KVServiceContextView, env: NodeEnvView, len: nat) -> bool {
    let threshold = ctx.storage.striping_threshold;
    threshold > 0 && len > threshold && data_nodes(ctx, env).len() > 1
}

/// Tells whether an object of `len` bytes is spread over the data nodes.
pub fn distributed_placement_enabled(ctx: &KVServiceContext, env: &NodeEnv, len: usize) -> (r: bool)
    ensures
        r == spreads(ctx.deep_view(), env.deep_view(), len as nat),
{
    let threshold: u64 = ctx.storage.striping_threshold;
    threshold > 0 && len as u64 > threshold && configured_data_nodes(ctx, env).len() > 1
}

/// The index, among `count` nodes, of the node for stripe `stripe_index` of an object whose key
/// has the hash `hash`: the hash picks the node of the first stripe, and the stripes go round.
pub open spec fn stripe_slot(hash: u64, stripe_index: nat, count: nat) -> int {
    ((hash as usize) as int % count as int + stripe_index) % count as int
}

/// The node for stripe `stripe_index` of the object with the string key `str_key`.
pub open spec fn stripe_node(
    ctx: KVServiceContextView,
    env: NodeEnvView,
    str_key: Seq<char>,
    stripe_index: nat,
) -> DataNodeView {
    let nodes = data_nodes(ctx, env);
    nodes[stripe_slot(xxh3_hash64(encode_utf8(str_key)), stripe_index, nodes.len())]
}

/// The node that holds the metadata of the object with the string key `str_key`.
pub open spec fn metadata_owner(
    ctx: KVServiceContextView,
    env: NodeEnvView,
    str_key: Seq<char>,
) -> DataNodeView {
    stripe_node(ctx, env, str_key, 0)
}

/// Picks, among `count` nodes, the index of the node for a stripe of an object whose key has
/// the hash `hash`.
pub fn stripe_slot_of(hash: u64, stripe_index: usize, count: usize) -> (slot: usize)
    requires
        count > 0,
    ensures
        slot == stripe_slot(hash, stripe_index as nat, count as nat),
        slot < count,
{
    let base: usize = (hash as usize) % count;
    let step: usize = stripe_index % count;
    let slot: usize = if base < count - step {
        base + step
    } else {
        base - (count - step)
    };
    proof {
        lemma_sum_of_remainders(base as int, stripe_index as int, count as int);
    }
    slot
}

proof fn lemma_sum_of_remainders(base: int, i: int, n: int)
    requires
        0 <= base < n,
        0 <= i,
    ensures
        (base + i) % n == (if base + i % n < n {
            base + i % n
        } else {
            base + i % n - n
        }),
{
    vstd::arithmetic::div_mod::lemma_fundamental_div_mod(i, n);
    let q = i / n;
    let r = base + i % n;
    if r < n {
        vstd::arithmetic::div_mod::lemma_fundamental_div_mod_converse(base + i, n, q, r);
    } else {
        assert(n * (q + 1) == n * q + n) by (nonlinear_arith);
        vstd::arithmetic::div_mod::lemma_fundamental_div_mod_converse(base + i, n, q + 1, r - n);
    }
}

/// Picks the node for stripe `stripe_index` of the object with the string key `str_key`.
pub fn select_data_node(
    ctx: &KVServiceContext,
    env: &NodeEnv,
    str_key: &str,
    stripe_index: usize,
) -> (r: DataNode)
    ensures
        r.deep_view() == stripe_node(ctx.deep_view(), env.deep_view(), str_key@, stripe_index as nat),
{
    let nodes = configured_data_nodes(ctx, env);
    let slot: usize = stripe_slot_of(hash64(str_key.as_bytes()), stripe_index, nodes.len());
    assert(nodes.deep_view()[slot as int] == nodes@[slot as int].deep_view());
    nodes[slot].clone()
}

/// Picks the node that holds the metadata of the object with the string key `str_key`: the node
/// of its first stripe.
pub fn select_metadata_owner(ctx: &KVServiceContext, env: &NodeEnv, str_key: &str) -> (r: DataNode)
    ensures
        r.deep_view() == metadata_owner(ctx.deep_view(), env.deep_view(), str_key@),
{
    select_data_node(ctx, env, str_key, 0)
}

/// The node that holds the metadata of an object is the node of its first stripe.
pub proof fn owner_holds_the_first_stripe(
    ctx: KVServiceContextView,
    env: NodeEnvView,
    str_key: Seq<char>,
)
    ensures
        metadata_owner(ctx, env, str_key) == stripe_node(ctx, env, str_key, 0),
{
}

/// Each stripe of an object has one of the nodes, and after as many stripes as there are nodes a
/// new round begins.
pub proof fn rounds_repeat(hash: u64, i: nat, count: nat)
    requires
        count > 0,
    ensures
        0 <= stripe_slot(hash, i, count) < count,
        stripe_slot(hash, i + count, count) == stripe_slot(hash, i, count),
{
    let n = count as int;
    let a = (hash as usize) as int % n + i;
    vstd::arithmetic::div_mod::lemma_mod_add_multiples_vanish(a, n);
    assert((hash as usize) as int % n + (i + count) == n + a);
}

/// The stripes of an object go round the nodes: as many stripes in a row as there are nodes have
/// different nodes.
pub proof fn stripes_go_round(hash: u64, i: nat, j: nat, count: nat)
    requires
        count > 0,
        i < j < i + count,
    ensures
        stripe_slot(hash, i, count) != stripe_slot(hash, j, count),
{
    let n = count as int;
    let a = (hash as usize) as int % n + i;
    let b = (hash as usize) as int % n + j;
    vstd::arithmetic::div_mod::lemma_fundamental_div_mod(a, n);
    vstd::arithmetic::div_mod::lemma_fundamental_div_mod(b, n);
    if a % n == b % n {
        assert(b - a == n * (b / n - a / n)) by (nonlinear_arith)
            requires
                a == n * (a / n) + a % n,
                b == n * (b / n) + b % n,
                a % n == b % n,
        ;
        let d = b / n - a / n;
        assert(false) by (nonlinear_arith)
            requires
                0 < b - a < n,
                b - a == n * d,
        ;
    }
}

/// This node counts as this node.
pub proof fn local_node_is_local(ctx: KVServiceContextView, env: NodeEnvView)
    ensures
        is_this_node(ctx, env, this_node(ctx, env)),
{
}

/// Where the configuration lists no data nodes, this node holds every object, and no object is
/// spread.
pub proof fn lone_node_holds_everything(
    ctx: KVServiceContextView,
    env: NodeEnvView,
    str_key: Seq<char>,
    stripe_index: nat,
    len: nat,
)
    requires
        ctx.config.cluster.data_nodes.len() == 0,
    ensures
        stripe_node(ctx, env, str_key, stripe_index) == this_node(ctx, env),
        is_this_node(ctx, env, metadata_owner(ctx, env, str_key)),
        !spreads(ctx, env, len),
{
}

} // verus!
