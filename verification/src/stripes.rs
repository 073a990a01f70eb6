//! Objects that are spread over the data nodes: cut into stripes, stored, recorded, read back.
use crate::cluster::{
    grpc_uri, is_local_node, is_this_node, select_data_node, stripe_node, uri_of,
};
use crate::convert::{
    chunk_location, descriptor_from_meta, descriptor_of, internal_key_to_pb, message_chunk,
    message_key, pb_chunk_to_location,
};
use crate::messages::{
    DeletePlacementChunkRequest, ObjectDescriptor, ObjectDescriptorView, PlacementChunk,
    PlacementChunkView, PutPlacementChunkRequest, PutPlacementChunkRequestView,
    PutPlacementChunkResponse, PutPlacementChunkResponseView, ReadPlacementChunkRequest,
};
use crate::model::{
    BlockMeta, BlockMetaView, ChunkLocation, ChunkLocationView, DataNode, DataNodeView,
    InternalKey, InternalKeyView, KVServiceContext, KVServiceContextView, NodeEnv, NodeEnvView,
    StripingInfo, StripingInfoView,
};
use crate::order::{
    all_ok, all_or_first_error, in_stripe_order, is_first_error, lemma_no_stripe, of_stripe,
    ok_values, sort_by_stripe, sort_is_stripe_sorted, stripe_sorted, Striped,
};
use crate::payload::{
    bytes_of, bytes_of_each, bytes_slice, fit_one_buffer, flatten_segments, joined, joined_push,
};
use crate::placement::{chunk_node, chunks_of, is_located, node_of_chunk};
use crate::status::{error, Code, Status};
use crate::stream::StripeReader;
use prost::bytes::Bytes;
use vstd::prelude::*;

verus! {

/// The size of a stripe: what the storage tier asks for, and at least one byte.
pub open spec fn stripe_size(ctx: KVServiceContextView) -> nat {
    if ctx.storage.striping_chunk_size == 0 {
        1
    } else {
        ctx.storage.striping_chunk_size as nat
    }
}

/// The size of a stripe: what the storage tier asks for, and at least one byte.
pub fn stripe_size_of(ctx: &KVServiceContext) -> (r: usize)
    requires
        ctx.storage.striping_chunk_size <= usize::MAX,
    ensures
        r == stripe_size(ctx.deep_view()),
        r > 0,
{
    let size: usize = ctx.storage.striping_chunk_size as usize;
    if size == 0 {
        1
    } else {
        size
    }
}

/// The number of stripes of an object of `total` bytes.
pub open spec fn stripe_count(total: nat, size: nat) -> nat {
    (total + size - 1) as nat / size
}

/// The bytes of stripe `i` of an object.
pub open spec fn stripe_bytes(data: Seq<u8>, size: nat, i: int) -> Seq<u8> {
    let start = i * size;
    let end = if start + size < data.len() {
        start + size
    } else {
        data.len() as int
    };
    data.subrange(start, end)
}

/// The bytes of all stripes of an object.
pub open spec fn stripes(data: Seq<u8>, size: nat) -> Seq<Seq<u8>> {
    Seq::new(stripe_count(data.len(), size), |i: int| stripe_bytes(data, size, i))
}

/// All stripes but the last are full, and the last one is not empty.
pub(crate) proof fn lemma_stripe_count(total: nat, size: nat)
    requires
        size > 0,
    ensures
        total == 0 <==> stripe_count(total, size) == 0,
        total <= stripe_count(total, size) * size,
        total > 0 ==> (stripe_count(total, size) - 1) * size < total,
{
    let d = size as int;
    let n = total + d - 1;
    vstd::arithmetic::div_mod::lemma_fundamental_div_mod(n, d);
    let q = n / d;
    assert((q - 1) * d == d * q - d) by (nonlinear_arith);
    assert(q * d == d * q) by (nonlinear_arith);
    if total == 0 {
        vstd::arithmetic::div_mod::lemma_basic_div(n, d);
    } else if q <= 0 {
        assert(d * q <= 0) by (nonlinear_arith)
            requires
                q <= 0,
                d > 0,
        ;
    }
}

/// Stripe `i` of an object, and the node it goes to.
pub struct StripeTask {
    pub node: DataNode,
    pub stripe_index: usize,
    pub offset: u64,
    pub data: Bytes,
}

/// The mathematical content of a [`StripeTask`].
#[verifier::ext_equal]
pub struct StripeTaskView {
    pub node: DataNodeView,
    pub stripe_index: nat,
    pub offset: nat,
    pub data: Seq<u8>,
}

impl DeepView for StripeTask {
    type V = StripeTaskView;

    open spec fn deep_view(&self) -> StripeTaskView {
        StripeTaskView {
            node: self.node.deep_view(),
            stripe_index: self.stripe_index as nat,
            offset: self.offset as nat,
            data: bytes_of(self.data),
        }
    }
}

/// What is to be done with stripe `i` of an object.
pub open spec fn stripe_task(
    ctx: KVServiceContextView,
    env: NodeEnvView,
    str_key: Seq<char>,
    data: Seq<u8>,
    i: int,
) -> StripeTaskView {
    StripeTaskView {
        node: stripe_node(ctx, env, str_key, i as nat),
        stripe_index: i as nat,
        offset: (i * stripe_size(ctx)) as nat,
        data: stripe_bytes(data, stripe_size(ctx), i),
    }
}

/// What is to be done with the stripes of an object.
pub open spec fn stripe_tasks(
    ctx: KVServiceContextView,
    env: NodeEnvView,
    str_key: Seq<char>,
    data: Seq<u8>,
) -> Seq<StripeTaskView> {
    Seq::new(
        stripe_count(data.len(), stripe_size(ctx)),
        |i: int| stripe_task(ctx, env, str_key, data, i),
    )
}

/// Cuts an object into stripes, and picks the node for each.
pub fn plan_stripes(ctx: &KVServiceContext, env: &NodeEnv, str_key: &str, data: &Bytes) -> (r: Vec<
    StripeTask,
>)
    requires
        ctx.storage.striping_chunk_size <= usize::MAX,
    ensures
        r.deep_view() == stripe_tasks(ctx.deep_view(), env.deep_view(), str_key@, bytes_of(*data)),
{
    let ghost bytes = bytes_of(*data);
    let ghost plan = stripe_tasks(ctx.deep_view(), env.deep_view(), str_key@, bytes);
    let size: usize = stripe_size_of(ctx);
    let total: usize = data.len();
    let ghost count = stripe_count(total as nat, size as nat);
    let mut tasks: Vec<StripeTask> = Vec::new();
    let mut start: usize = 0;
    proof {
        lemma_stripe_count(total as nat, size as nat);
        assert(0 * size == 0) by (nonlinear_arith);
    }
    while start < total
        invariant
            bytes == bytes_of(*data),
            plan == stripe_tasks(ctx.deep_view(), env.deep_view(), str_key@, bytes),
            size == stripe_size(ctx.deep_view()),
            size > 0,
            total == bytes.len(),
            count == stripe_count(total as nat, size as nat),
            tasks.len() <= count,
            tasks.len() < count ==> start == tasks.len() * size && start < total,
            tasks.len() == count ==> start == total,
            forall|j: int|
                0 <= j < tasks.len() ==> (#[trigger] tasks@[j]).deep_view() == plan[j],
        decreases total - start,
    {
        let end: usize = if total - start > size {
            start + size
        } else {
            total
        };
        let i: usize = tasks.len();
        proof {
            lemma_stripe_count(total as nat, size as nat);
            let last = count - 1;
            assert((i + 1) * size == i * size + size) by (nonlinear_arith);
            assert(i * size <= last * size) by (nonlinear_arith)
                requires
                    0 <= i <= last,
                    size >= 0,
            ;
            if i + 1 < count {
                let next = i + 1;
                assert(next * size <= last * size) by (nonlinear_arith)
                    requires
                        0 <= next <= last,
                        size >= 0,
                ;
            }
        }
        let node = select_data_node(ctx, env, str_key, i);
        let task = StripeTask {
            node,
            stripe_index: i,
            offset: start as u64,
            data: bytes_slice(data, start, end),
        };
        assert(task.deep_view() == plan[i as int]);
        tasks.push(task);
        start = end;
    }
    assert(tasks.deep_view() =~= plan);
    tasks
}

/// The descriptor that goes to the data nodes with the stripes of an object.
pub open spec fn striped_descriptor(
    key: InternalKeyView,
    str_key: Seq<char>,
    meta: BlockMetaView,
    count: nat,
    size: nat,
) -> ObjectDescriptorView {
    ObjectDescriptorView {
        is_striped: true,
        stripe_count: count as u32,
        chunk_size: size as u64,
        ..descriptor_of(key, str_key, meta)
    }
}

/// The descriptor that goes to the data nodes with the stripes of an object. `str_key` is the
/// string form of `key`.
pub fn make_distributed_descriptor(
    key: &InternalKey,
    str_key: &str,
    meta: &BlockMeta,
    stripe_count: usize,
    chunk_size: u64,
) -> (r: ObjectDescriptor)
    ensures
        r.deep_view() == striped_descriptor(
            key.deep_view(),
            str_key@,
            meta.deep_view(),
            stripe_count as nat,
            chunk_size as nat,
        ),
{
    let mut desc = descriptor_from_meta(key, str_key, meta);
    desc.is_striped = true;
    desc.stripe_count = stripe_count as u32;
    desc.chunk_size = chunk_size;
    desc
}

/// All that a spread write sends out: the stripes, and the descriptor that goes with them.
pub struct DistributedWrite {
    pub descriptor: ObjectDescriptor,
    pub chunk_size: u64,
    pub total_size: u64,
    pub tasks: Vec<StripeTask>,
}

/// Whether `write` is the spread write of `data`, with the record `prepared`.
pub open spec fn is_planned_write(
    ctx: KVServiceContextView,
    env: NodeEnvView,
    key: InternalKeyView,
    str_key: Seq<char>,
    prepared: BlockMetaView,
    data: Seq<u8>,
    write: DistributedWrite,
) -> bool {
    &&& write.tasks.deep_view() == stripe_tasks(ctx, env, str_key, data)
    &&& write.chunk_size == stripe_size(ctx)
    &&& write.total_size == data.len()
    &&& write.descriptor.deep_view() == striped_descriptor(
        key,
        str_key,
        prepared,
        stripe_count(data.len(), stripe_size(ctx)),
        stripe_size(ctx),
    )
}

/// Plans a spread write of `data`. `prepared` is the record that the storage tier has prepared
/// for it, and `str_key` is the string form of `key`.
pub fn plan_distributed_write(
    ctx: &KVServiceContext,
    env: &NodeEnv,
    key: &InternalKey,
    str_key: &str,
    prepared: &BlockMeta,
    data: &Bytes,
) -> (r: DistributedWrite)
    requires
        ctx.storage.striping_chunk_size <= usize::MAX,
    ensures
        is_planned_write(
            ctx.deep_view(),
            env.deep_view(),
            key.deep_view(),
            str_key@,
            prepared.deep_view(),
            bytes_of(*data),
            r,
        ),
{
    let tasks = plan_stripes(ctx, env, str_key, data);
    let chunk_size: u64 = stripe_size_of(ctx) as u64;
    assert(tasks.len() == tasks.deep_view().len());
    let descriptor = make_distributed_descriptor(key, str_key, prepared, tasks.len(), chunk_size);
    DistributedWrite { descriptor, chunk_size, total_size: data.len() as u64, tasks }
}

/// What is next in storing a stripe: put it into the storage of this node, or send it to
/// another node.
pub enum PutChunkStep {
    Store {
        node: DataNode,
        key: InternalKey,
        stripe_index: usize,
        generation: u64,
        layout_version: u32,
        offset: u64,
        data: Bytes,
    },
    Send { node: DataNode, uri: String, request: PutPlacementChunkRequest },
}

/// Whether `step` is what is next in storing the stripe `task` of the object `key`.
pub open spec fn is_put_chunk_step(
    ctx: KVServiceContextView,
    env: NodeEnvView,
    key: InternalKeyView,
    descriptor: ObjectDescriptorView,
    chunk_size: u64,
    total_size: u64,
    task: StripeTask,
    step: PutChunkStep,
) -> bool {
    &&& step is Store <==> is_this_node(ctx, env, task.node.deep_view())
    &&& match step {
        PutChunkStep::Store {
            node,
            key: stored_key,
            stripe_index,
            generation,
            layout_version,
            offset,
            data,
        } => {
            &&& node == task.node
            &&& stored_key.deep_view() == key
            &&& stripe_index == task.stripe_index
            &&& generation == descriptor.object_generation
            &&& layout_version == descriptor.layout_version
            &&& offset == task.offset
            &&& data == task.data
        },
        PutChunkStep::Send { node, uri, request } => {
            &&& node == task.node
            &&& uri@ == uri_of(task.node.grpc_endpoint@)
            &&& request.deep_view() == PutPlacementChunkRequestView {
                key: Some(message_key(key)),
                descriptor: Some(descriptor),
                stripe_index: task.stripe_index as u32,
                chunk_size,
                total_size,
                data: bytes_of(task.data),
            }
        },
    }
}

/// Decides where a stripe is stored: here, where `node` is this node, and otherwise there.
pub fn put_chunk_on_node(
    ctx: &KVServiceContext,
    env: &NodeEnv,
    key: &InternalKey,
    descriptor: &ObjectDescriptor,
    chunk_size: u64,
    total_size: u64,
    task: StripeTask,
) -> (r: PutChunkStep)
    ensures
        is_put_chunk_step(
            ctx.deep_view(),
            env.deep_view(),
            key.deep_view(),
            descriptor.deep_view(),
            chunk_size,
            total_size,
            task,
            r,
        ),
{
    if is_local_node(ctx, env, &task.node) {
        return PutChunkStep::Store {
            node: task.node,
            key: key.clone(),
            stripe_index: task.stripe_index,
            generation: descriptor.object_generation,
            layout_version: descriptor.layout_version,
            offset: task.offset,
            data: task.data,
        };
    }
    let uri = grpc_uri(task.node.grpc_endpoint.as_str());
    PutChunkStep::Send {
        node: task.node,
        uri,
        request: PutPlacementChunkRequest {
            key: Some(internal_key_to_pb(key)),
            descriptor: Some(descriptor.clone()),
            stripe_index: task.stripe_index as u32,
            chunk_size,
            total_size,
            data: task.data,
        },
    }
}

/// The location of a stripe that `node` has stored.
pub open spec fn location_on(
    node: DataNodeView,
    stripe_index: u32,
    device_id: u32,
    storage_handle: Seq<char>,
    offset: u64,
    length: u64,
) -> ChunkLocationView {
    ChunkLocationView {
        stripe_index,
        node_id: node.node_id,
        grpc_endpoint: node.grpc_endpoint,
        rdma_endpoint: node.rdma_endpoint,
        device_id,
        storage_handle,
        offset,
        length,
    }
}

/// The location of a stripe of `length` bytes that `node`, which is this node, has stored under
/// `storage_handle`.
pub fn stored_chunk_location(
    node: DataNode,
    stripe_index: usize,
    device_id: u32,
    storage_handle: String,
    offset: u64,
    length: u64,
) -> (r: ChunkLocation)
    ensures
        r.deep_view() == location_on(
            node.deep_view(),
            stripe_index as u32,
            device_id,
            storage_handle@,
            offset,
            length,
        ),
{
    ChunkLocation {
        stripe_index: stripe_index as u32,
        node_id: node.node_id,
        grpc_endpoint: node.grpc_endpoint,
        rdma_endpoint: node.rdma_endpoint,
        device_id,
        storage_handle,
        offset,
        length,
    }
}

/// Whether `r` is the location of a stripe that the node `node_id` was asked to store and
/// answered with `resp`.
pub open spec fn is_sent_location(
    node_id: Seq<char>,
    resp: PutPlacementChunkResponseView,
    r: Result<ChunkLocation, Status>,
) -> bool {
    match resp.chunk {
        _ if !resp.success => r matches Err(e) && e.deep_view() == error(
            Code::Internal,
            "data node "@ + node_id + " rejected placement chunk"@,
        ),
        Some(chunk) => r matches Ok(loc) && loc.deep_view() == chunk_location(chunk),
        None => r matches Err(e) && e.deep_view() == error(
            Code::Internal,
            "missing placement chunk in response"@,
        ),
    }
}

/// The location of a stripe that another node was asked to store: what it answers, unless it
/// refuses the stripe or leaves the location out.
pub fn sent_chunk_location(node_id: &str, resp: &PutPlacementChunkResponse) -> (r: Result<
    ChunkLocation,
    Status,
>)
    ensures
        is_sent_location(node_id@, resp.deep_view(), r),
{
    if !resp.success {
        let mut message = "data node ".to_string();
        message.append(node_id);
        message.append(" rejected placement chunk");
        return Err(Status { code: Code::Internal, message });
    }
    match &resp.chunk {
        Some(chunk) => Ok(pb_chunk_to_location(chunk)),
        None => Err(Status::new(Code::Internal, "missing placement chunk in response")),
    }
}

/// The views of several locations.
pub open spec fn location_views(locations: Seq<ChunkLocation>) -> Seq<ChunkLocationView> {
    Seq::new(locations.len(), |i: int| locations[i].deep_view())
}

/// The record of an object of `total` bytes whose stripes are at `locations`.
pub open spec fn striped_record(
    prepared: BlockMetaView,
    total: u64,
    size: u64,
    locations: Seq<ChunkLocationView>,
) -> BlockMetaView {
    BlockMetaView {
        size: total,
        file_path: seq![],
        device_id: if locations.len() > 0 {
            locations[0].device_id
        } else {
            0
        },
        striping: Some(
            StripingInfoView {
                chunk_size: size,
                chunk_devices: Seq::new(locations.len(), |i: int| locations[i].device_id),
                chunk_paths: Seq::new(locations.len(), |i: int| locations[i].storage_handle),
                total_size: total,
                chunk_locations: locations,
            },
        ),
        ..prepared
    }
}

/// The record of an object of `total` bytes whose stripes are at `locations`.
pub fn record_stripes(prepared: BlockMeta, total: u64, size: u64, locations: Vec<ChunkLocation>) -> (r:
    BlockMeta)
    ensures
        r.deep_view() == striped_record(
            prepared.deep_view(),
            total,
            size,
            location_views(locations@),
        ),
{
    let mut chunk_devices: Vec<u32> = Vec::new();
    let mut chunk_paths: Vec<String> = Vec::new();
    let mut i: usize = 0;
    while i < locations.len()
        invariant
            i <= locations.len(),
            chunk_devices.len() == i,
            chunk_paths.len() == i,
            forall|j: int| 0 <= j < i ==> #[trigger] chunk_devices@[j] == locations@[j].device_id,
            forall|j: int|
                0 <= j < i ==> (#[trigger] chunk_paths@[j])@ == locations@[j].storage_handle@,
        decreases locations.len() - i,
    {
        chunk_devices.push(locations[i].device_id);
        chunk_paths.push(locations[i].storage_handle.clone());
        i = i + 1;
    }
    let ghost views = location_views(locations@);
    let mut committed = prepared;
    committed.size = total;
    committed.file_path = String::new();
    committed.device_id = if locations.len() > 0 {
        locations[0].device_id
    } else {
        0
    };
    let striping = StripingInfo {
        chunk_size: size,
        chunk_devices,
        chunk_paths,
        total_size: total,
        chunk_locations: locations,
    };
    proof {
        assert(striping.deep_view().chunk_devices =~= Seq::new(
            views.len(),
            |i: int| views[i].device_id,
        ));
        assert(striping.deep_view().chunk_paths =~= Seq::new(
            views.len(),
            |i: int| views[i].storage_handle,
        ));
        assert(striping.deep_view().chunk_locations =~= views);
    }
    committed.striping = Some(striping);
    committed
}

/// Whether `r` is what a spread write of `total` bytes leaves, once the nodes have answered
/// with `results`.
pub open spec fn is_committed_record<E>(
    prepared: BlockMetaView,
    total: u64,
    size: u64,
    results: Seq<Result<ChunkLocation, E>>,
    r: Result<BlockMeta, E>,
) -> bool {
    match r {
        Ok(meta) => all_ok(results) && meta.deep_view() == striped_record(
            prepared,
            total,
            size,
            location_views(stripe_sorted(ok_values(results))),
        ),
        Err(e) => is_first_error(results, e),
    }
}

/// The record of a spread write, once every node has answered: the stripes are listed in the
/// order of their indices, in whatever order they come. The first failure, if there is one, is
/// handed out instead.
pub fn commit_distributed_write<E>(
    prepared: BlockMeta,
    total: u64,
    size: u64,
    results: Vec<Result<ChunkLocation, E>>,
) -> (r: Result<BlockMeta, E>)
    ensures
        is_committed_record(prepared.deep_view(), total, size, results@, r),
{
    match all_or_first_error(results) {
        Ok(values) => Ok(record_stripes(prepared, total, size, sort_by_stripe(values))),
        Err(e) => Err(e),
    }
}

/// What is next in reading a stripe: take it from the storage of this node, or fetch it from
/// another node.
pub enum ReadChunkStep {
    Load { stripe_index: u32, storage_handle: String, length: u64 },
    Fetch { node: DataNode, uri: String, request: ReadPlacementChunkRequest },
}

/// Whether `step` is what is next in reading the stripe `chunk`.
pub open spec fn is_read_chunk_step(
    ctx: KVServiceContextView,
    env: NodeEnvView,
    descriptor: ObjectDescriptorView,
    chunk: PlacementChunkView,
    step: ReadChunkStep,
) -> bool {
    &&& step is Load <==> is_this_node(ctx, env, chunk_node(chunk))
    &&& match step {
        ReadChunkStep::Load { stripe_index, storage_handle, length } => {
            &&& stripe_index == chunk.stripe_index
            &&& storage_handle@ == chunk.storage_handle
            &&& length == chunk.length
        },
        ReadChunkStep::Fetch { node, uri, request } => {
            &&& node.deep_view() == chunk_node(chunk)
            &&& uri@ == uri_of(chunk.grpc_endpoint)
            &&& request.deep_view().descriptor == Some(descriptor)
            &&& request.deep_view().chunk == Some(chunk)
        },
    }
}

/// Decides where a stripe is read.
pub fn read_chunk_from_placement(
    ctx: &KVServiceContext,
    env: &NodeEnv,
    descriptor: &ObjectDescriptor,
    chunk: &PlacementChunk,
) -> (r: ReadChunkStep)
    ensures
        is_read_chunk_step(
            ctx.deep_view(),
            env.deep_view(),
            descriptor.deep_view(),
            chunk.deep_view(),
            r,
        ),
{
    let node = node_of_chunk(chunk);
    if is_local_node(ctx, env, &node) {
        return ReadChunkStep::Load {
            stripe_index: chunk.stripe_index,
            storage_handle: chunk.storage_handle.clone(),
            length: chunk.length,
        };
    }
    let uri = grpc_uri(node.grpc_endpoint.as_str());
    ReadChunkStep::Fetch {
        node,
        uri,
        request: ReadPlacementChunkRequest {
            descriptor: Some(descriptor.clone()),
            chunk: Some(chunk.clone()),
        },
    }
}

/// Whether `r` is the stripe `stripe_index` that was looked for, and found as `loaded` or not.
pub open spec fn is_loaded_chunk(
    stripe_index: u32,
    loaded: Option<Bytes>,
    r: Result<(u32, Bytes), Status>,
) -> bool {
    match loaded {
        Some(data) => r == Ok::<(u32, Bytes), Status>((stripe_index, data)),
        None => r matches Err(e) && e.deep_view() == error(
            Code::NotFound,
            "placement chunk not found"@,
        ),
    }
}

/// A stripe that was looked for in the storage of this node.
pub fn loaded_chunk(stripe_index: u32, loaded: Option<Bytes>) -> (r: Result<(u32, Bytes), Status>)
    ensures
        is_loaded_chunk(stripe_index, loaded, r),
{
    match loaded {
        Some(data) => Ok((stripe_index, data)),
        None => Err(Status::new(Code::NotFound, "placement chunk not found")),
    }
}

/// Whether `r` is the stripe `stripe_index` that has arrived in `parts`.
pub open spec fn is_fetched_chunk(
    stripe_index: u32,
    parts: Seq<Seq<u8>>,
    r: (u32, Bytes),
) -> bool {
    &&& r.0 == stripe_index
    &&& bytes_of(r.1) == joined(parts)
}

/// A stripe whose pieces have arrived from another node.
pub fn fetched_chunk(stripe_index: u32, reader: StripeReader) -> (r: (u32, Bytes))
    requires
        reader.parts.len() == 1 || fit_one_buffer(reader.parts@),
    ensures
        is_fetched_chunk(stripe_index, reader.deep_view().parts, r),
{
    (stripe_index, flatten_segments(reader.parts))
}

/// The buffers of several stripes.
pub open spec fn stripe_buffers(stripes: Seq<(u32, Bytes)>) -> Seq<Bytes> {
    Seq::new(stripes.len(), |i: int| stripes[i].1)
}

/// Whether `r` is what a read gets, once the nodes have answered with `results`.
pub open spec fn are_collected_chunks<E>(
    results: Seq<Result<(u32, Bytes), E>>,
    r: Result<Vec<Bytes>, E>,
) -> bool {
    match r {
        Ok(buffers) => all_ok(results) && buffers@ == stripe_buffers(
            stripe_sorted(ok_values(results)),
        ),
        Err(e) => is_first_error(results, e),
    }
}

/// The stripes of an object, in the order of their indices, once every node has answered. The
/// first failure, if there is one, is handed out instead.
pub fn collect_chunks<E>(results: Vec<Result<(u32, Bytes), E>>) -> (r: Result<Vec<Bytes>, E>)
    ensures
        are_collected_chunks(results@, r),
{
    let sorted = match all_or_first_error(results) {
        Ok(values) => sort_by_stripe(values),
        Err(e) => {
            return Err(e);
        },
    };
    let mut buffers: Vec<Bytes> = Vec::new();
    for stripe in iter: sorted
        invariant
            iter.seq() == sorted@,
            buffers.len() == iter.index(),
            forall|i: int| 0 <= i < buffers.len() ==> #[trigger] buffers@[i] == sorted@[i].1,
    {
        buffers.push(stripe.1);
    }
    assert(buffers@ =~= stripe_buffers(sorted@));
    Ok(buffers)
}

/// What is next in removing a stripe: remove it from the storage of this node, or ask another
/// node to.
pub enum DeleteChunkStep {
    Remove { storage_handle: String },
    Send { node: DataNode, uri: String, request: DeletePlacementChunkRequest },
}

/// Whether `step` is what is next in removing the stripe `chunk`.
pub open spec fn is_delete_chunk_step(
    ctx: KVServiceContextView,
    env: NodeEnvView,
    chunk: PlacementChunkView,
    step: DeleteChunkStep,
) -> bool {
    &&& step is Remove <==> is_this_node(ctx, env, chunk_node(chunk))
    &&& match step {
        DeleteChunkStep::Remove { storage_handle } => storage_handle@ == chunk.storage_handle,
        DeleteChunkStep::Send { node, uri, request } => {
            &&& node.deep_view() == chunk_node(chunk)
            &&& uri@ == uri_of(chunk.grpc_endpoint)
            &&& request.deep_view().chunk == Some(chunk)
        },
    }
}

/// Decides where a stripe is removed.
pub fn delete_chunk_from_placement(ctx: &KVServiceContext, env: &NodeEnv, chunk: &PlacementChunk) -> (r:
    DeleteChunkStep)
    ensures
        is_delete_chunk_step(ctx.deep_view(), env.deep_view(), chunk.deep_view(), r),
{
    let node = node_of_chunk(chunk);
    if is_local_node(ctx, env, &node) {
        return DeleteChunkStep::Remove { storage_handle: chunk.storage_handle.clone() };
    }
    let uri = grpc_uri(node.grpc_endpoint.as_str());
    DeleteChunkStep::Send {
        node,
        uri,
        request: DeletePlacementChunkRequest { chunk: Some(chunk.clone()) },
    }
}

pub(crate) proof fn lemma_stripes_join(data: Seq<u8>, size: nat, n: int)
    requires
        size > 0,
        0 <= n <= stripe_count(data.len(), size),
    ensures
        joined(stripes(data, size).take(n)) == data.take(
            if n * size < data.len() {
                n * size
            } else {
                data.len() as int
            },
        ),
    decreases n,
{
    let parts = stripes(data, size);
    let count = stripe_count(data.len(), size);
    lemma_stripe_count(data.len(), size);
    if n == 0 {
        assert(parts.take(0) =~= seq![]);
        assert(0 * size == 0) by (nonlinear_arith);
        assert(data.take(0) =~= seq![]);
    } else {
        lemma_stripes_join(data, size, n - 1);
        assert(parts.take(n) =~= parts.take(n - 1).push(parts[n - 1]));
        joined_push(parts.take(n - 1), parts[n - 1]);
        let start = (n - 1) * size;
        let top = (count - 1) * size;
        assert(0 <= start <= top) by (nonlinear_arith)
            requires
                0 <= n - 1 <= count - 1,
                size > 0,
                start == (n - 1) * size,
                top == (count - 1) * size,
        ;
        assert(n * size == start + size) by (nonlinear_arith)
            requires
                start == (n - 1) * size,
        ;
        let end = if n * size < data.len() {
            n * size
        } else {
            data.len() as int
        };
        assert(data.take(start) + data.subrange(start, end) =~= data.take(end));
    }
}

/// The stripes of an object hold exactly its bytes, in order.
pub proof fn stripes_hold_the_object(data: Seq<u8>, size: nat)
    requires
        size > 0,
    ensures
        joined(stripes(data, size)) == data,
{
    let count = stripe_count(data.len(), size);
    lemma_stripe_count(data.len(), size);
    lemma_stripes_join(data, size, count as int);
    assert(stripes(data, size).take(count as int) =~= stripes(data, size));
    assert(data.take(data.len() as int) =~= data);
}

/// The stripe at index `i` begins `i` stripes into the object, and all stripes are full but the
/// last one, which is not empty.
pub proof fn stripes_are_full_but_the_last(
    ctx: KVServiceContextView,
    env: NodeEnvView,
    str_key: Seq<char>,
    data: Seq<u8>,
    i: int,
)
    requires
        0 <= i < stripe_tasks(ctx, env, str_key, data).len(),
    ensures
        ({
            let size = stripe_size(ctx);
            let tasks = stripe_tasks(ctx, env, str_key, data);
            let task = tasks[i];
            &&& task.offset == i * size
            &&& task.data == data.subrange(
                task.offset as int,
                (task.offset + task.data.len()) as int,
            )
            &&& i < tasks.len() - 1 ==> task.data.len() == size
            &&& i == tasks.len() - 1 ==> 0 < task.data.len() <= size && task.offset
                + task.data.len() == data.len()
        }),
{
    let size = stripe_size(ctx);
    let count = stripe_count(data.len(), size);
    lemma_stripe_count(data.len(), size);
    let start = i * size;
    let top = (count - 1) * size;
    assert(0 <= start <= top) by (nonlinear_arith)
        requires
            0 <= i <= count - 1,
            start == i * size,
            top == (count - 1) * size,
    ;
    assert(top + size == count * size) by (nonlinear_arith)
        requires
            top == (count - 1) * size,
    ;
    if i < count - 1 {
        assert(start + size <= top) by (nonlinear_arith)
            requires
                i + 1 <= count - 1,
                start == i * size,
                top == (count - 1) * size,
        ;
    }
}

proof fn lemma_one_per_stripe<T: Striped>(items: Seq<T>, k: u32)
    requires
        items.len() <= u32::MAX + 1,
        forall|i: int| 0 <= i < items.len() ==> (#[trigger] items[i]).stripe() == i,
    ensures
        of_stripe(items, k) == (if k < items.len() {
            seq![items[k as int]]
        } else {
            seq![]
        }),
    decreases items.len(),
{
    reveal(Seq::filter);
    if items.len() > 0 {
        lemma_one_per_stripe(items.drop_last(), k);
        assert(items.last() == items[items.len() - 1]);
        assert(of_stripe(items, k) =~= (if k < items.len() {
            seq![items[k as int]]
        } else {
            seq![]
        }));
    } else {
        assert(of_stripe(items, k) =~= seq![]);
    }
}

proof fn lemma_stripe_member<T: Striped>(items: Seq<T>, k: u32, i: int)
    requires
        0 <= i < of_stripe(items, k).len(),
    ensures
        items.contains(of_stripe(items, k)[i]),
        of_stripe(items, k)[i].stripe() == k,
    decreases items.len(),
{
    reveal(Seq::filter);
    let before = of_stripe(items.drop_last(), k);
    if i < before.len() {
        lemma_stripe_member(items.drop_last(), k, i);
        let j = choose|j: int| 0 <= j < items.len() - 1 && items.drop_last()[j] == before[i];
        assert(items[j] == before[i]);
    } else {
        assert(items[items.len() - 1] == items.last());
    }
}

/// Whether `items` holds one item for each of `count` stripes, in any order, and no other.
pub open spec fn one_for_each_stripe<T: Striped>(items: Seq<T>, count: nat) -> bool {
    &&& count <= u32::MAX + 1
    &&& forall|j: int| 0 <= j < items.len() ==> (#[trigger] items[j]).stripe() < count
    &&& forall|k: u32| k < count ==> (#[trigger] of_stripe(items, k)).len() == 1
}

/// Where there is one item for each stripe, the sort puts the item of stripe `i` at place `i`.
pub proof fn each_stripe_is_at_its_place<T: Striped>(items: Seq<T>, count: nat)
    requires
        one_for_each_stripe(items, count),
    ensures
        stripe_sorted(items) == Seq::new(count, |i: int| of_stripe(items, i as u32)[0]),
        forall|i: int|
            0 <= i < count ==> (#[trigger] stripe_sorted(items)[i]).stripe() == i
                && items.contains(stripe_sorted(items)[i]),
{
    let ordered = Seq::new(count, |i: int| of_stripe(items, i as u32)[0]);
    assert forall|i: int| 0 <= i < ordered.len() implies (#[trigger] ordered[i]).stripe() == i
        && items.contains(ordered[i]) by {
        assert(of_stripe(items, i as u32).len() == 1);
        lemma_stripe_member(items, i as u32, 0);
    }
    assert forall|k: u32| #[trigger] of_stripe(ordered, k) == of_stripe(items, k) by {
        lemma_one_per_stripe(ordered, k);
        if k < count {
            assert(of_stripe(items, k) =~= seq![ordered[k as int]]);
        } else {
            lemma_no_stripe(items, k);
            assert(of_stripe(items, k) =~= seq![]);
        }
    }
    assert(in_stripe_order(ordered));
    sort_is_stripe_sorted(items, ordered);
}

/// A read gives back what a spread write has stored: whatever the order in which the stripes of
/// an object come back, each one once and with the bytes it was stored with, the buffers in the
/// order of the stripes hold exactly the bytes of the object.
pub proof fn spread_object_is_read_back(data: Seq<u8>, size: nat, results: Seq<(u32, Bytes)>)
    requires
        size > 0,
        one_for_each_stripe(results, stripe_count(data.len(), size)),
        forall|j: int|
            0 <= j < results.len() ==> bytes_of((#[trigger] results[j]).1) == stripe_bytes(
                data,
                size,
                results[j].0 as int,
            ),
    ensures
        joined(bytes_of_each(stripe_buffers(stripe_sorted(results)))) == data,
{
    let count = stripe_count(data.len(), size);
    let ordered = stripe_sorted(results);
    each_stripe_is_at_its_place(results, count);
    assert(bytes_of_each(stripe_buffers(ordered)) =~= stripes(data, size)) by {
        assert forall|i: int| 0 <= i < count implies bytes_of(#[trigger] ordered[i].1)
            == stripe_bytes(data, size, i) by {
            assert(ordered[i].stripe() == i);
            let j = choose|j: int| 0 <= j < results.len() && results[j] == ordered[i];
            assert(results[j].0 == i);
        }
    }
    stripes_hold_the_object(data, size);
}

/// The record of a spread write places the whole object: where each stripe is stored once, at
/// its offset and with its length, the chunks of the record's placement are the stripes in
/// order, whatever the order in which the nodes answered.
pub proof fn spread_write_places_every_stripe(
    node: DataNodeView,
    prepared: BlockMetaView,
    data: Seq<u8>,
    total: u64,
    size: u64,
    locations: Seq<ChunkLocation>,
)
    requires
        size > 0,
        total == data.len(),
        one_for_each_stripe(locations, stripe_count(data.len(), size as nat)),
        forall|j: int|
            0 <= j < locations.len() ==> {
                let loc = #[trigger] locations[j];
                &&& loc.offset == loc.stripe_index * size
                &&& loc.length == stripe_bytes(data, size as nat, loc.stripe_index as int).len()
            },
    ensures
        ({
            let chunks = chunks_of(
                node,
                striped_record(prepared, total, size, location_views(stripe_sorted(locations))),
            );
            &&& chunks.len() == stripe_count(data.len(), size as nat)
            &&& forall|i: int|
                0 <= i < chunks.len() ==> {
                    let chunk = #[trigger] chunks[i];
                    &&& chunk.stripe_index == i
                    &&& chunk.offset == i * size
                    &&& chunk.length == stripe_bytes(data, size as nat, i).len()
                }
        }),
{
    let count = stripe_count(data.len(), size as nat);
    let ordered = stripe_sorted(locations);
    each_stripe_is_at_its_place(locations, count);
    let chunks = chunks_of(
        node,
        striped_record(prepared, total, size, location_views(ordered)),
    );
    record_places_the_stripes(node, prepared, total, size, location_views(ordered));
    assert forall|i: int| 0 <= i < chunks.len() implies {
        let chunk = #[trigger] chunks[i];
        &&& chunk.stripe_index == i
        &&& chunk.offset == i * size
        &&& chunk.length == stripe_bytes(data, size as nat, i).len()
    } by {
        assert(ordered[i].stripe() == i);
        let j = choose|j: int| 0 <= j < locations.len() && locations[j] == ordered[i];
        assert(locations[j].stripe_index == i);
    }
}

/// The record of a spread write places each stripe where the node that stored it said, in the
/// order of the stripes.
pub proof fn record_places_the_stripes(
    node: DataNodeView,
    prepared: BlockMetaView,
    total: u64,
    size: u64,
    locations: Seq<ChunkLocationView>,
)
    ensures
        ({
            let record = striped_record(prepared, total, size, locations);
            &&& record.size == total
            &&& is_located(record.striping->Some_0)
            &&& chunks_of(node, record) == Seq::new(
                locations.len(),
                |i: int| message_chunk(locations[i]),
            )
        }),
{
}

/// A write that stores its stripes in the order of their indices stores each one once.
pub proof fn ordered_stripes_are_one_for_each<T: Striped>(items: Seq<T>)
    requires
        items.len() <= u32::MAX + 1,
        forall|i: int| 0 <= i < items.len() ==> (#[trigger] items[i]).stripe() == i,
    ensures
        one_for_each_stripe(items, items.len()),
{
    assert forall|k: u32| k < items.len() implies (#[trigger] of_stripe(items, k)).len() == 1 by {
        lemma_one_per_stripe(items, k);
    }
}

/// What a client writes, it reads: where each stripe of an object is stored once, in whatever
/// order the nodes answer, and each chunk of the placement that the write records is read from
/// the node and the handle that the placement gives, the buffers of the read hold exactly the
/// bytes that were written. `stored` is what the nodes store, by node and handle.
pub proof fn recorded_object_is_read_back(
    node: DataNodeView,
    prepared: BlockMetaView,
    data: Seq<u8>,
    total: u64,
    size: u64,
    locations: Seq<ChunkLocation>,
    stored: Map<(Seq<char>, Seq<char>), Seq<u8>>,
    results: Seq<(u32, Bytes)>,
)
    requires
        size > 0,
        one_for_each_stripe(locations, stripe_count(data.len(), size as nat)),
        forall|j: int|
            0 <= j < locations.len() ==> {
                let loc = #[trigger] locations[j];
                stored[(loc.node_id@, loc.storage_handle@)] == stripe_bytes(
                    data,
                    size as nat,
                    loc.stripe_index as int,
                )
            },
        ({
            let chunks = chunks_of(
                node,
                striped_record(prepared, total, size, location_views(stripe_sorted(locations))),
            );
            &&& results.len() == chunks.len()
            &&& forall|i: int|
                0 <= i < results.len() ==> {
                    let result = #[trigger] results[i];
                    &&& result.0 == chunks[i].stripe_index
                    &&& bytes_of(result.1) == stored[(chunks[i].node_id, chunks[i].storage_handle)]
                }
        }),
    ensures
        joined(bytes_of_each(stripe_buffers(stripe_sorted(results)))) == data,
{
    let count = stripe_count(data.len(), size as nat);
    let ordered = stripe_sorted(locations);
    let record = striped_record(prepared, total, size, location_views(ordered));
    let chunks = chunks_of(node, record);
    each_stripe_is_at_its_place(locations, count);
    record_places_the_stripes(node, prepared, total, size, location_views(ordered));
    assert forall|i: int| 0 <= i < results.len() implies (#[trigger] results[i]).stripe() == i
        && bytes_of(results[i].1) == stripe_bytes(data, size as nat, i) by {
        assert(ordered[i].stripe() == i);
        assert(chunks[i] == message_chunk(ordered[i].deep_view()));
        let j = choose|j: int| 0 <= j < locations.len() && locations[j] == ordered[i];
        assert(locations[j].stripe_index == i);
    }
    ordered_stripes_are_one_for_each(results);
    spread_object_is_read_back(data, size as nat, results);
}

/// The descriptor that goes to the data nodes with the stripes is the descriptor of the record
/// that the write leaves, where the storage tier has prepared the record for the object's size.
pub proof fn stripes_carry_the_descriptor_of_the_record(
    key: InternalKeyView,
    str_key: Seq<char>,
    prepared: BlockMetaView,
    size: u64,
    locations: Seq<ChunkLocationView>,
)
    ensures
        striped_descriptor(key, str_key, prepared, locations.len(), size as nat) == descriptor_of(
            key,
            str_key,
            striped_record(prepared, prepared.size, size, locations),
        ),
{
}

} // verus!
