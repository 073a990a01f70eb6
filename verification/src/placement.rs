//! Where an object is stored: its chunks, and a hash of their layout.
use crate::cluster::{is_local_node, is_this_node, local_node, this_node, xxh3_hash64};
use crate::convert::{chunk_location_to_pb, internal_key_to_pb, message_chunk, message_key};
use crate::messages::{
    PlacementChunk, PlacementChunkView, PlacementDescriptor, PlacementDescriptorView,
};
use crate::model::{
    BlockMeta, BlockMetaView, DataNode, DataNodeView, InternalKey, InternalKeyView,
    KVServiceContext, KVServiceContextView, NodeEnv, NodeEnvView, StripingInfo, StripingInfoView,
};
use crate::text::{decimal, hex_digits, push_decimal, push_hex};
use twox_hash::xxh3::hash64;
use vstd::prelude::*;
use vstd::utf8::encode_utf8;

verus! {

/// Whether every stripe of `stripe` has a location of its own.
pub open spec fn is_located(stripe: StripingInfoView) -> bool {
    stripe.chunk_locations.len() == stripe.chunk_paths.len()
}

/// Whether the offsets of the stripes of an object fit into 64 bits, where they have to be
/// computed from the size of a stripe.
pub open spec fn offsets_fit(meta: BlockMetaView) -> bool {
    match meta.striping {
        Some(stripe) => is_located(stripe) || stripe.chunk_paths.len() == 0
            || (stripe.chunk_paths.len() - 1) * stripe.chunk_size <= u64::MAX,
        None => true,
    }
}

/// Tells whether the offsets of the stripes of an object fit into 64 bits.
pub fn placement_offsets_fit(meta: &BlockMeta) -> (r: bool)
    ensures
        r == offsets_fit(meta.deep_view()),
{
    match &meta.striping {
        Some(stripe) => {
            let n: usize = stripe.chunk_paths.len();
            if stripe.chunk_locations.len() == n || n == 0 {
                return true;
            }
            ((n - 1) as u64).checked_mul(stripe.chunk_size).is_some()
        },
        None => true,
    }
}

/// The length of the stripe at `offset` of an object of `total` bytes that is cut into stripes
/// of `chunk_size` bytes.
pub open spec fn stripe_length(total: u64, offset: u64, chunk_size: u64) -> u64 {
    if total <= offset {
        0
    } else if total - offset < chunk_size {
        (total - offset) as u64
    } else {
        chunk_size
    }
}

/// Stripe `i` of an object whose stripes are all on the node `node`.
pub open spec fn stripe_on_node(
    node: DataNodeView,
    stripe: StripingInfoView,
    i: int,
) -> PlacementChunkView {
    let offset = (i * stripe.chunk_size) as u64;
    PlacementChunkView {
        stripe_index: i as u32,
        node_id: node.node_id,
        grpc_endpoint: node.grpc_endpoint,
        rdma_endpoint: node.rdma_endpoint,
        device_id: if i < stripe.chunk_devices.len() {
            stripe.chunk_devices[i]
        } else {
            0
        },
        storage_handle: stripe.chunk_paths[i],
        offset,
        length: stripe_length(stripe.total_size, offset, stripe.chunk_size),
    }
}

/// The only chunk of an object that is not striped and is on the node `node`.
pub open spec fn whole_on_node(node: DataNodeView, meta: BlockMetaView) -> PlacementChunkView {
    PlacementChunkView {
        stripe_index: 0,
        node_id: node.node_id,
        grpc_endpoint: node.grpc_endpoint,
        rdma_endpoint: node.rdma_endpoint,
        device_id: meta.device_id,
        storage_handle: meta.file_path,
        offset: 0,
        length: meta.size,
    }
}

/// The chunks of an object. What has no location of its own is on the node `node`.
pub open spec fn chunks_of(node: DataNodeView, meta: BlockMetaView) -> Seq<PlacementChunkView> {
    match meta.striping {
        Some(stripe) => if is_located(stripe) {
            Seq::new(stripe.chunk_locations.len(), |i: int| message_chunk(stripe.chunk_locations[i]))
        } else {
            Seq::new(stripe.chunk_paths.len(), |i: int| stripe_on_node(node, stripe, i))
        },
        None => seq![whole_on_node(node, meta)],
    }
}

fn located_chunks(key: &InternalKey, stripe: &StripingInfo) -> (chunks: Vec<PlacementChunk>)
    ensures
        chunks.deep_view() == Seq::new(
            stripe.deep_view().chunk_locations.len(),
            |i: int| message_chunk(stripe.deep_view().chunk_locations[i]),
        ),
{
    let mut chunks: Vec<PlacementChunk> = Vec::new();
    let mut i: usize = 0;
    while i < stripe.chunk_locations.len()
        invariant
            i <= stripe.chunk_locations.len(),
            chunks.len() == i,
            forall|j: int|
                0 <= j < i ==> (#[trigger] chunks@[j]).deep_view() == message_chunk(
                    stripe.chunk_locations@[j].deep_view(),
                ),
        decreases stripe.chunk_locations.len() - i,
    {
        chunks.push(chunk_location_to_pb(key, &stripe.chunk_locations[i]));
        i = i + 1;
    }
    chunks
}

fn chunks_on_node(node: &DataNode, stripe: &StripingInfo) -> (chunks: Vec<PlacementChunk>)
    requires
        stripe.chunk_paths.len() == 0 || (stripe.chunk_paths.len() - 1) * stripe.chunk_size
            <= u64::MAX,
    ensures
        chunks.deep_view() == Seq::new(
            stripe.deep_view().chunk_paths.len(),
            |i: int| stripe_on_node(node.deep_view(), stripe.deep_view(), i),
        ),
{
    let mut chunks: Vec<PlacementChunk> = Vec::new();
    let chunk_size: u64 = stripe.chunk_size;
    let mut i: usize = 0;
    while i < stripe.chunk_paths.len()
        invariant
            i <= stripe.chunk_paths.len(),
            chunk_size == stripe.chunk_size,
            stripe.chunk_paths.len() == 0 || (stripe.chunk_paths.len() - 1) * chunk_size
                <= u64::MAX,
            chunks.len() == i,
            forall|j: int|
                0 <= j < i ==> (#[trigger] chunks@[j]).deep_view() == stripe_on_node(
                    node.deep_view(),
                    stripe.deep_view(),
                    j,
                ),
        decreases stripe.chunk_paths.len() - i,
    {
        let ghost last = stripe.chunk_paths.len() - 1;
        assert(i * chunk_size <= last * chunk_size) by (nonlinear_arith)
            requires
                0 <= i <= last,
                0 <= chunk_size,
        ;
        let offset: u64 = i as u64 * chunk_size;
        let rest: u64 = stripe.total_size.saturating_sub(offset);
        let length: u64 = if rest < chunk_size {
            rest
        } else {
            chunk_size
        };
        let device_id: u32 = if i < stripe.chunk_devices.len() {
            stripe.chunk_devices[i]
        } else {
            0
        };
        chunks.push(
            PlacementChunk {
                stripe_index: i as u32,
                node_id: node.node_id.clone(),
                grpc_endpoint: node.grpc_endpoint.clone(),
                rdma_endpoint: node.rdma_endpoint.clone(),
                device_id,
                storage_handle: stripe.chunk_paths[i].clone(),
                offset,
                length,
            },
        );
        i = i + 1;
    }
    chunks
}

/// Lists the chunks of an object. What has no location of its own is on the node `node`.
pub fn placement_chunks(key: &InternalKey, node: &DataNode, meta: &BlockMeta) -> (chunks: Vec<
    PlacementChunk,
>)
    requires
        offsets_fit(meta.deep_view()),
    ensures
        chunks.deep_view() == chunks_of(node.deep_view(), meta.deep_view()),
{
    match &meta.striping {
        Some(stripe) => if stripe.chunk_locations.len() == stripe.chunk_paths.len() {
            located_chunks(key, stripe)
        } else {
            chunks_on_node(node, stripe)
        },
        None => {
            let mut chunks: Vec<PlacementChunk> = Vec::new();
            chunks.push(
                PlacementChunk {
                    stripe_index: 0,
                    node_id: node.node_id.clone(),
                    grpc_endpoint: node.grpc_endpoint.clone(),
                    rdma_endpoint: node.rdma_endpoint.clone(),
                    device_id: meta.device_id,
                    storage_handle: meta.file_path.clone(),
                    offset: 0,
                    length: meta.size,
                },
            );
            assert(chunks.deep_view() =~= chunks_of(node.deep_view(), meta.deep_view()));
            chunks
        },
    }
}

/// The name of the placement policy.
pub open spec fn policy_of(ctx: KVServiceContextView) -> Seq<char> {
    ctx.config.router.strategy + "_v1"@
}

/// What one chunk adds to the text that is hashed.
pub open spec fn chunk_text(c: PlacementChunkView) -> Seq<char> {
    "|"@ + decimal(c.stripe_index as nat) + ":"@ + c.node_id + ":"@ + decimal(c.device_id as nat)
        + ":"@ + decimal(c.offset as nat) + ":"@ + c.storage_handle
}

/// What a list of chunks adds to the text that is hashed.
pub open spec fn chunks_text(chunks: Seq<PlacementChunkView>) -> Seq<char>
    decreases chunks.len(),
{
    if chunks.len() == 0 {
        seq![]
    } else {
        chunks_text(chunks.drop_last()) + chunk_text(chunks.last())
    }
}

/// The text whose hash stands for the layout of an object.
pub open spec fn layout_text(
    str_key: Seq<char>,
    meta: BlockMetaView,
    policy: Seq<char>,
    chunks: Seq<PlacementChunkView>,
) -> Seq<char> {
    str_key + "|g"@ + decimal(meta.object_generation as nat) + "|l"@ + decimal(
        meta.layout_version as nat,
    ) + "|"@ + policy + "|"@ + decimal(chunks.len()) + chunks_text(chunks)
}

fn push_chunk_text(out: &mut String, c: &PlacementChunk)
    ensures
        final(out)@ == old(out)@ + chunk_text(c.deep_view()),
{
    out.append("|");
    push_decimal(out, c.stripe_index as u64);
    out.append(":");
    out.append(c.node_id.as_str());
    out.append(":");
    push_decimal(out, c.device_id as u64);
    out.append(":");
    push_decimal(out, c.offset);
    out.append(":");
    out.append(c.storage_handle.as_str());
    assert(out@ =~= old(out)@ + chunk_text(c.deep_view()));
}

/// Writes the text whose hash stands for the layout of an object.
pub fn placement_seed(str_key: &str, meta: &BlockMeta, policy: &str, chunks: &Vec<PlacementChunk>) -> (r:
    String)
    ensures
        r@ == layout_text(str_key@, meta.deep_view(), policy@, chunks.deep_view()),
{
    let mut out = str_key.to_string();
    out.append("|g");
    push_decimal(&mut out, meta.object_generation);
    out.append("|l");
    push_decimal(&mut out, meta.layout_version as u64);
    out.append("|");
    out.append(policy);
    out.append("|");
    push_decimal(&mut out, chunks.len() as u64);
    let ghost head = out@;
    let ghost views = chunks.deep_view();
    let mut i: usize = 0;
    assert(out@ =~= head + chunks_text(views.take(0)));
    while i < chunks.len()
        invariant
            i <= chunks.len(),
            views == chunks.deep_view(),
            out@ == head + chunks_text(views.take(i as int)),
        decreases chunks.len() - i,
    {
        push_chunk_text(&mut out, &chunks[i]);
        i = i + 1;
        assert(views.take(i as int).drop_last() =~= views.take(i - 1));
        assert(out@ =~= head + chunks_text(views.take(i as int)));
    }
    assert(views.take(i as int) =~= views);
    out
}

/// The placement of an object on the node `node`, given its chunks and the hash of its layout.
pub open spec fn placement_with(
    node: DataNodeView,
    key: InternalKeyView,
    policy: Seq<char>,
    chunks: Seq<PlacementChunkView>,
    hash: u64,
) -> PlacementDescriptorView {
    PlacementDescriptorView {
        key: Some(message_key(key)),
        placement_epoch: 1,
        placement_policy_id: policy,
        layout_hash: hex_digits(hash as nat, 16),
        primary_node_id: node.node_id,
        primary_grpc_endpoint: node.grpc_endpoint,
        primary_rdma_endpoint: node.rdma_endpoint,
        chunks,
    }
}

/// Puts the placement of an object together, given its chunks and the hash of its layout.
pub fn placement_with_hash(
    node: DataNode,
    key: &InternalKey,
    policy: String,
    chunks: Vec<PlacementChunk>,
    hash: u64,
) -> (r: PlacementDescriptor)
    ensures
        r.deep_view() == placement_with(
            node.deep_view(),
            key.deep_view(),
            policy@,
            chunks.deep_view(),
            hash,
        ),
{
    let mut layout_hash = String::new();
    push_hex(&mut layout_hash, hash, 16);
    assert(layout_hash@ =~= hex_digits(hash as nat, 16));
    PlacementDescriptor {
        key: Some(internal_key_to_pb(key)),
        placement_epoch: 1,
        placement_policy_id: policy,
        layout_hash,
        primary_node_id: node.node_id,
        primary_grpc_endpoint: node.grpc_endpoint,
        primary_rdma_endpoint: node.rdma_endpoint,
        chunks,
    }
}

/// The placement of the version of an object that `meta` records.
pub open spec fn placement_of(
    ctx: KVServiceContextView,
    env: NodeEnvView,
    key: InternalKeyView,
    str_key: Seq<char>,
    meta: BlockMetaView,
) -> PlacementDescriptorView {
    let node = this_node(ctx, env);
    let chunks = chunks_of(node, meta);
    let seed = layout_text(str_key, meta, policy_of(ctx), chunks);
    placement_with(node, key, policy_of(ctx), chunks, xxh3_hash64(encode_utf8(seed)))
}

/// The placement of the version of an object that `meta` records. `str_key` is the string form
/// of `key`.
pub fn placement_from_meta(
    ctx: &KVServiceContext,
    env: &NodeEnv,
    key: &InternalKey,
    str_key: &str,
    meta: &BlockMeta,
) -> (r: PlacementDescriptor)
    requires
        offsets_fit(meta.deep_view()),
    ensures
        r.deep_view() == placement_of(
            ctx.deep_view(),
            env.deep_view(),
            key.deep_view(),
            str_key@,
            meta.deep_view(),
        ),
{
    let local = local_node(ctx, env);
    let mut policy = ctx.config.router.strategy.clone();
    policy.append("_v1");
    let chunks = placement_chunks(key, &local, meta);
    let seed = placement_seed(str_key, meta, policy.as_str(), &chunks);
    let hash: u64 = hash64(seed.as_str().as_bytes());
    placement_with_hash(local, key, policy, chunks, hash)
}

/// The node that holds a chunk.
pub open spec fn chunk_node(c: PlacementChunkView) -> DataNodeView {
    DataNodeView {
        node_id: c.node_id,
        grpc_endpoint: c.grpc_endpoint,
        rdma_endpoint: c.rdma_endpoint,
    }
}

/// The node that holds a chunk.
pub fn node_of_chunk(chunk: &PlacementChunk) -> (r: DataNode)
    ensures
        r.deep_view() == chunk_node(chunk.deep_view()),
{
    DataNode {
        node_id: chunk.node_id.clone(),
        grpc_endpoint: chunk.grpc_endpoint.clone(),
        rdma_endpoint: chunk.rdma_endpoint.clone(),
    }
}

/// Whether some chunk is on another node than this one.
pub open spec fn reaches_other_nodes(
    ctx: KVServiceContextView,
    env: NodeEnvView,
    chunks: Seq<PlacementChunkView>,
) -> bool {
    exists|i: int|
        0 <= i < chunks.len() && !is_this_node(ctx, env, chunk_node(#[trigger] chunks[i]))
}

/// Tells whether some chunk of a placement is on another node than this one.
pub fn placement_has_remote_chunks(
    ctx: &KVServiceContext,
    env: &NodeEnv,
    placement: &PlacementDescriptor,
) -> (r: bool)
    ensures
        r == reaches_other_nodes(ctx.deep_view(), env.deep_view(), placement.deep_view().chunks),
{
    let ghost views = placement.deep_view().chunks;
    let mut i: usize = 0;
    while i < placement.chunks.len()
        invariant
            i <= placement.chunks.len(),
            views == placement.deep_view().chunks,
            forall|j: int|
                0 <= j < i ==> is_this_node(
                    ctx.deep_view(),
                    env.deep_view(),
                    chunk_node(#[trigger] views[j]),
                ),
        decreases placement.chunks.len() - i,
    {
        let node = node_of_chunk(&placement.chunks[i]);
        assert(views[i as int] == placement.chunks@[i as int].deep_view());
        if !is_local_node(ctx, env, &node) {
            return true;
        }
        i = i + 1;
    }
    false
}

/// An object whose stripes have no locations of their own, or that is not striped, is wholly on
/// this node.
pub proof fn unlocated_objects_are_local(
    ctx: KVServiceContextView,
    env: NodeEnvView,
    meta: BlockMetaView,
)
    requires
        meta.striping matches Some(stripe) ==> !is_located(stripe),
    ensures
        !reaches_other_nodes(ctx, env, chunks_of(this_node(ctx, env), meta)),
{
    let chunks = chunks_of(this_node(ctx, env), meta);
    assert forall|i: int| 0 <= i < chunks.len() implies is_this_node(
        ctx,
        env,
        chunk_node(#[trigger] chunks[i]),
    ) by {}
}

/// The computed stripes of an object lie one behind the other, all but those that the object
/// does not fill are of full size, and the one that holds the object's end ends there.
pub proof fn computed_stripes_are_contiguous(
    node: DataNodeView,
    meta: BlockMetaView,
    stripe: StripingInfoView,
    i: int,
)
    requires
        offsets_fit(meta),
        meta.striping == Some(stripe),
        !is_located(stripe),
        0 <= i < stripe.chunk_paths.len(),
    ensures
        ({
            let c = chunks_of(node, meta)[i];
            let end = (i + 1) * stripe.chunk_size;
            &&& c.offset == i * stripe.chunk_size
            &&& end <= stripe.total_size ==> c.offset + c.length == end
            &&& c.offset <= stripe.total_size <= end ==> c.offset + c.length == stripe.total_size
            &&& stripe.total_size < c.offset ==> c.length == 0
        }),
{
    let last = stripe.chunk_paths.len() - 1;
    assert(0 <= i * stripe.chunk_size <= last * stripe.chunk_size) by (nonlinear_arith)
        requires
            0 <= i <= last,
            0 <= stripe.chunk_size,
    ;
    assert((i + 1) * stripe.chunk_size == i * stripe.chunk_size + stripe.chunk_size)
        by (nonlinear_arith);
}

} // verus!
