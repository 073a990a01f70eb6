//! Writes: what a request asks for, how it is carried out, and how it is answered.
use crate::cluster::{distributed_placement_enabled, local_node, spreads, this_node};
use crate::convert::{
    chunk_location, fresh_meta, internal_key, keeps_existing, meta_from_pb, pb_key_to_internal,
    put_options_if_not_exists,
};
use crate::messages::{
    ObjectDescriptor, ObjectKey, PlacementChunk, PlacementChunkView, PutChunk, PutChunkView, PutOptionsView,
    PutPlacementChunkRequest, PutPlacementChunkResponse, PutPlacementChunkResponseView, PutRequest,
    PutResponse, PutResponseView,
};
use crate::model::{
    BlockMeta, DataNodeView, InternalKey, KVServiceContext, KVServiceContextView, NodeEnv,
    NodeEnvView,
};
use crate::payload::{bytes_of, bytes_of_each, flatten_segments, joined, joined_prefix_len};
use crate::status::{error, Code, Status};
use crate::stripes::location_on;
use prost::bytes::Bytes;
use vstd::prelude::*;

verus! {

/// How an object is stored: spread over the data nodes, or in the cache and the storage of this
/// node. With `if_not_exists` an object that is already there stays.
pub struct PutPlan {
    pub spread: bool,
    pub if_not_exists: bool,
    pub key: InternalKey,
    pub data: Bytes,
    pub meta: BlockMeta,
}

/// Whether `plan` is how the write `req` of the object `key` is done. The time of the write is
/// the record's `last_accessed_at`.
pub open spec fn is_put_plan(
    ctx: KVServiceContextView,
    env: NodeEnvView,
    key: InternalKey,
    req: PutRequest,
    plan: PutPlan,
) -> bool {
    &&& plan.spread == spreads(ctx, env, bytes_of(req.data).len())
    &&& plan.if_not_exists == keeps_existing(req.options.deep_view())
    &&& plan.key == key
    &&& plan.data == req.data
    &&& plan.meta.deep_view() == fresh_meta(req.metadata.deep_view(), plan.meta.last_accessed_at)
    &&& plan.meta.last_accessed_at >= 0
}

/// Plans the write of an object that belongs to this node. The time of the write is the
/// record's `last_accessed_at`.
pub fn plan_put(
    ctx: &KVServiceContext,
    env: &NodeEnv,
    key: InternalKey,
    req: PutRequest,
) -> (r: PutPlan)
    ensures
        is_put_plan(ctx.deep_view(), env.deep_view(), key, req, r),
{
    let meta = meta_from_pb(req.metadata.as_ref());
    let if_not_exists = put_options_if_not_exists(req.options.as_ref());
    let spread = distributed_placement_enabled(ctx, env, req.data.len());
    PutPlan { spread, if_not_exists, key, data: req.data, meta }
}

/// The answer to a write that stored the object, or that left one that was there.
pub open spec fn put_answer(inserted: bool) -> PutResponseView {
    PutResponseView {
        success: inserted,
        message: if inserted {
            seq![]
        } else {
            "already exists"@
        },
    }
}

/// The answer to a write that stored the object, or that left one that was there.
pub fn put_response(inserted: bool) -> (r: PutResponse)
    ensures
        r.deep_view() == put_answer(inserted),
{
    PutResponse {
        success: inserted,
        message: if inserted {
            String::new()
        } else {
            "already exists".to_string()
        },
    }
}

/// How an object is put into the cache and the storage of this node: only where there is none,
/// or in place of one that is there.
#[derive(Debug, Clone, Copy, PartialEq, Eq)]
pub enum MemoryWrite {
    IfAbsent,
    Replace,
}

/// How a write on this node treats an object that is there.
pub open spec fn memory_write_of(if_not_exists: bool) -> MemoryWrite {
    if if_not_exists {
        MemoryWrite::IfAbsent
    } else {
        MemoryWrite::Replace
    }
}

/// Decides how a write on this node treats an object that is there.
pub fn memory_write(if_not_exists: bool) -> (r: MemoryWrite)
    ensures
        r == memory_write_of(if_not_exists),
        r is IfAbsent <==> if_not_exists,
{
    if if_not_exists {
        MemoryWrite::IfAbsent
    } else {
        MemoryWrite::Replace
    }
}

/// The outcome of a write that replaces: it stores the object, unless it fails.
pub open spec fn replaced_outcome<E>(r: Result<(), E>) -> Result<bool, E> {
    match r {
        Ok(_) => Ok(true),
        Err(e) => Err(e),
    }
}

/// The outcome of a write that replaces: it stores the object, unless it fails.
pub fn replaced<E>(r: Result<(), E>) -> (b: Result<bool, E>)
    ensures
        b == replaced_outcome(r),
{
    match r {
        Ok(_) => Ok(true),
        Err(e) => Err(e),
    }
}

/// A write without the option to leave an object that is there is never refused: it replaces,
/// and a replacement that does not fail is answered with success.
pub proof fn replacing_writes_are_not_refused<E>(
    options: Option<PutOptionsView>,
    written: Result<(), E>,
)
    requires
        !keeps_existing(options),
    ensures
        memory_write_of(keeps_existing(options)) is Replace,
        written is Ok ==> replaced_outcome(written) == Ok::<bool, E>(true),
        written matches Err(e) ==> replaced_outcome(written) == Err::<bool, E>(e),
        replaced_outcome(written) matches Ok(inserted) ==> put_answer(inserted).success,
{
}

/// A refused write is explained: an answer is a success exactly where it has no message, and a
/// refusal says that the object is already there.
pub proof fn refused_writes_are_explained(inserted: bool)
    ensures
        put_answer(inserted).success == inserted,
        put_answer(inserted).success <==> put_answer(inserted).message == Seq::<char>::empty(),
        !inserted ==> put_answer(inserted).message == "already exists"@,
{
    reveal_strlit("already exists");
    assert("already exists"@.len() == 14);
}

/// The messages of a written stream that have arrived so far.
pub struct PutStreamReader {
    pub chunks: Vec<PutChunk>,
    pub finished: bool,
}

/// The mathematical content of a [`PutStreamReader`].
#[verifier::ext_equal]
pub struct PutStreamReaderView {
    pub chunks: Seq<PutChunkView>,
    pub finished: bool,
}

impl DeepView for PutStreamReader {
    type V = PutStreamReaderView;

    open spec fn deep_view(&self) -> PutStreamReaderView {
        PutStreamReaderView { chunks: self.chunks.deep_view(), finished: self.finished }
    }
}

/// A reader after `chunk` has arrived. Nothing counts after the message that says it is the
/// last.
pub open spec fn after_put_chunk(
    reader: PutStreamReaderView,
    chunk: PutChunkView,
) -> PutStreamReaderView {
    if reader.finished {
        reader
    } else {
        PutStreamReaderView { chunks: reader.chunks.push(chunk), finished: chunk.is_last }
    }
}

impl PutStreamReader {
    /// A reader before anything has arrived.
    pub fn new() -> (r: Self)
        ensures
            r.deep_view() == (PutStreamReaderView { chunks: seq![], finished: false }),
    {
        let r = PutStreamReader { chunks: Vec::new(), finished: false };
        assert(r.deep_view().chunks =~= seq![]);
        r
    }

    /// Takes the next message in, and tells whether another one is expected.
    pub fn accept(&mut self, chunk: PutChunk) -> (more: bool)
        ensures
            final(self).deep_view() == after_put_chunk(old(self).deep_view(), chunk.deep_view()),
            more == !final(self).finished,
    {
        if !self.finished {
            let ghost before = self.deep_view();
            self.finished = chunk.is_last;
            self.chunks.push(chunk);
            assert(self.deep_view() =~= after_put_chunk(before, chunk.deep_view()));
        }
        !self.finished
    }
}

/// A reader after all of `chunks` have arrived.
pub open spec fn after_put_chunks(chunks: Seq<PutChunkView>) -> PutStreamReaderView
    decreases chunks.len(),
{
    if chunks.len() == 0 {
        PutStreamReaderView { chunks: seq![], finished: false }
    } else {
        after_put_chunk(after_put_chunks(chunks.drop_last()), chunks.last())
    }
}

/// A written stream ends at the first message that says it is the last: all messages up to it
/// count, and none behind it. A stream in which none says so counts whole.
pub proof fn streams_end_at_the_last_message(chunks: Seq<PutChunkView>, n: nat)
    requires
        n <= chunks.len(),
        forall|i: int| 0 <= i < n ==> !(#[trigger] chunks[i]).is_last,
        n < chunks.len() ==> chunks[n as int].is_last,
    ensures
        after_put_chunks(chunks) == (PutStreamReaderView {
            chunks: if n < chunks.len() {
                chunks.take(n as int + 1)
            } else {
                chunks
            },
            finished: n < chunks.len(),
        }),
    decreases chunks.len(),
{
    if chunks.len() > 0 {
        let before = chunks.drop_last();
        if n == chunks.len() {
            streams_end_at_the_last_message(before, (n - 1) as nat);
            assert(before.push(chunks.last()) =~= chunks);
        } else {
            streams_end_at_the_last_message(before, n);
            if n == chunks.len() - 1 {
                assert(before.push(chunks.last()) =~= chunks.take(n as int + 1));
            } else {
                assert(before.take(n as int + 1) =~= chunks.take(n as int + 1));
            }
        }
    } else {
        assert(after_put_chunks(chunks).chunks =~= chunks);
    }
}

/// Whether `r` is the key that the written stream `chunks` begins with.
pub open spec fn is_stream_key(chunks: Seq<PutChunk>, r: Result<InternalKey, Status>) -> bool {
    if chunks.len() == 0 {
        r matches Err(e) && e.deep_view() == error(Code::InvalidArgument, "empty stream"@)
    } else {
        match chunks[0].deep_view().key {
            Some(k) => r matches Ok(key) && key.deep_view() == internal_key(k),
            None => r matches Err(e) && e.deep_view() == error(
                Code::InvalidArgument,
                "first chunk must include key"@,
            ),
        }
    }
}

/// The key of a written stream: its first message names the object. A stream without messages,
/// and one that does not begin with the key, are refused.
pub fn put_stream_key(chunks: &Vec<PutChunk>) -> (r: Result<InternalKey, Status>)
    ensures
        is_stream_key(chunks@, r),
{
    if chunks.len() == 0 {
        return Err(Status::new(Code::InvalidArgument, "empty stream"));
    }
    match &chunks[0].key {
        Some(key) => Ok(pb_key_to_internal(key)),
        None => Err(Status::new(Code::InvalidArgument, "first chunk must include key")),
    }
}

/// How a written stream is stored: in one buffer that is spread over the data nodes, or in the
/// segments in which it came, in the cache and the storage of this node.
pub enum PutStreamPlan {
    Spread { key: InternalKey, data: Bytes, meta: BlockMeta, if_not_exists: bool },
    Segments { key: InternalKey, segments: Vec<Bytes>, meta: BlockMeta, if_not_exists: bool },
}

/// The bytes of each message of a written stream.
pub open spec fn stream_bytes(chunks: Seq<PutChunk>) -> Seq<Seq<u8>> {
    Seq::new(chunks.len(), |i: int| bytes_of(chunks[i].data))
}

/// Whether a written stream can be stored: it has a message, the machine can count its bytes,
/// and where it is spread and came in several messages, they fit into one buffer.
pub open spec fn stream_can_be_stored(
    ctx: KVServiceContextView,
    env: NodeEnvView,
    chunks: Seq<PutChunk>,
) -> bool {
    let total = joined(stream_bytes(chunks)).len();
    &&& chunks.len() > 0
    &&& total <= usize::MAX
    &&& chunks.len() == 1 || !spreads(ctx, env, total) || total <= isize::MAX
}

/// Tells whether a written stream can be stored.
pub fn put_stream_fits(ctx: &KVServiceContext, env: &NodeEnv, chunks: &Vec<PutChunk>) -> (r: bool)
    ensures
        r == stream_can_be_stored(ctx.deep_view(), env.deep_view(), chunks@),
{
    match put_stream_total(chunks) {
        Some(total) => chunks.len() > 0 && (chunks.len() == 1 || !distributed_placement_enabled(
            ctx,
            env,
            total,
        ) || total <= isize::MAX as usize),
        None => false,
    }
}

/// Counts the bytes of a written stream, where the machine can count them.
pub fn put_stream_total(chunks: &Vec<PutChunk>) -> (r: Option<usize>)
    ensures
        match r {
            Some(n) => n == joined(stream_bytes(chunks@)).len(),
            None => joined(stream_bytes(chunks@)).len() > usize::MAX,
        },
{
    let ghost parts = stream_bytes(chunks@);
    let mut total: usize = 0;
    let mut i: usize = 0;
    while i < chunks.len()
        invariant
            i <= chunks.len(),
            parts == stream_bytes(chunks@),
            total == joined(parts.take(i as int)).len(),
        decreases chunks.len() - i,
    {
        proof {
            joined_prefix_len(parts, i as int);
            joined_prefix_len(parts, i + 1);
        }
        match total.checked_add(chunks[i].data.len()) {
            Some(sum) => {
                total = sum;
            },
            None => {
                return None;
            },
        }
        i = i + 1;
    }
    assert(parts.take(i as int) =~= parts);
    Some(total)
}

/// Whether `plan` is how the written stream `chunks` of the object `key` is stored. The time of
/// the write is the record's `last_accessed_at`.
pub open spec fn is_put_stream_plan(
    ctx: KVServiceContextView,
    env: NodeEnvView,
    key: InternalKey,
    chunks: Seq<PutChunk>,
    plan: PutStreamPlan,
) -> bool {
    let bytes = stream_bytes(chunks);
    let first = chunks[0].deep_view();
    &&& plan is Spread <==> spreads(ctx, env, joined(bytes).len())
    &&& match plan {
        PutStreamPlan::Spread { key: k, data, meta, if_not_exists } => {
            &&& k == key
            &&& bytes_of(data) == joined(bytes)
            &&& meta.deep_view() == fresh_meta(first.metadata, meta.last_accessed_at)
            &&& meta.last_accessed_at >= 0
            &&& if_not_exists == keeps_existing(first.options)
        },
        PutStreamPlan::Segments { key: k, segments, meta, if_not_exists } => {
            &&& k == key
            &&& bytes_of_each(segments@) == bytes
            &&& meta.deep_view() == fresh_meta(first.metadata, meta.last_accessed_at)
            &&& meta.last_accessed_at >= 0
            &&& if_not_exists == keeps_existing(first.options)
        },
    }
}

/// The bytes of each message of a written stream, in buffers.
pub fn put_stream_segments(chunks: Vec<PutChunk>) -> (r: Vec<Bytes>)
    ensures
        r@ == Seq::new(chunks@.len(), |i: int| chunks@[i].data),
{
    let mut segments: Vec<Bytes> = Vec::new();
    for chunk in iter: chunks
        invariant
            iter.seq() == chunks@,
            segments.len() == iter.index(),
            forall|i: int| 0 <= i < segments.len() ==> #[trigger] segments@[i] == chunks@[i].data,
    {
        segments.push(chunk.data);
    }
    assert(segments@ =~= Seq::new(chunks@.len(), |i: int| chunks@[i].data));
    segments
}

/// Plans the write of a stream whose object belongs to this node. The first message gives the
/// metadata and the options, and the sizes of the messages, not the size that the first one
/// declares, decide whether the object is spread. A stream that is too long for one buffer
/// cannot be spread.
pub fn plan_put_stream(
    ctx: &KVServiceContext,
    env: &NodeEnv,
    key: InternalKey,
    chunks: Vec<PutChunk>,
) -> (r: PutStreamPlan)
    requires
        stream_can_be_stored(ctx.deep_view(), env.deep_view(), chunks@),
    ensures
        is_put_stream_plan(ctx.deep_view(), env.deep_view(), key, chunks@, r),
{
    let ghost bytes = stream_bytes(chunks@);
    let meta = meta_from_pb(chunks[0].metadata.as_ref());
    let if_not_exists = put_options_if_not_exists(chunks[0].options.as_ref());
    let total: usize = match put_stream_total(&chunks) {
        Some(n) => n,
        None => 0,
    };
    let segments = put_stream_segments(chunks);
    assert(bytes_of_each(segments@) =~= bytes);
    if distributed_placement_enabled(ctx, env, total) {
        PutStreamPlan::Spread { key, data: flatten_segments(segments), meta, if_not_exists }
    } else {
        PutStreamPlan::Segments { key, segments, meta, if_not_exists }
    }
}

/// A stripe that this node was asked to store.
pub struct StorePlan {
    pub key: InternalKey,
    pub stripe_index: usize,
    pub generation: u64,
    pub layout_version: u32,
    pub offset: u64,
    pub data: Bytes,
}

/// Whether `plan` is what this node stores for `req`, which names `key` and `descriptor`.
pub open spec fn is_store_plan(
    key: ObjectKey,
    descriptor: ObjectDescriptor,
    req: PutPlacementChunkRequest,
    plan: StorePlan,
) -> bool {
    &&& plan.key.deep_view() == internal_key(key.deep_view())
    &&& plan.stripe_index == req.stripe_index
    &&& plan.generation == descriptor.object_generation
    &&& plan.layout_version == descriptor.layout_version
    &&& plan.offset == req.stripe_index * req.chunk_size
    &&& plan.data == req.data
}

/// What this node stores for a request to store a stripe. A request without a key or without a
/// descriptor is refused. The stripe begins `stripe_index` stripes into its object.
pub fn plan_store_chunk(req: PutPlacementChunkRequest) -> (r: Result<StorePlan, Status>)
    requires
        req.key is Some && req.descriptor is Some ==> req.stripe_index * req.chunk_size <= u64::MAX,
    ensures
        match (req.key, req.descriptor) {
            (None, _) => r matches Err(e) && e.deep_view() == error(
                Code::InvalidArgument,
                "missing key"@,
            ),
            (Some(_), None) => r matches Err(e) && e.deep_view() == error(
                Code::InvalidArgument,
                "missing descriptor"@,
            ),
            (Some(key), Some(descriptor)) => r matches Ok(plan) && is_store_plan(
                key,
                descriptor,
                req,
                plan,
            ),
        },
{
    let key = match req.key {
        Some(key) => key,
        None => {
            return Err(Status::new(Code::InvalidArgument, "missing key"));
        },
    };
    let descriptor = match req.descriptor {
        Some(descriptor) => descriptor,
        None => {
            return Err(Status::new(Code::InvalidArgument, "missing descriptor"));
        },
    };
    let offset: u64 = req.stripe_index as u64 * req.chunk_size;
    Ok(
        StorePlan {
            key: pb_key_to_internal(&key),
            stripe_index: req.stripe_index as usize,
            generation: descriptor.object_generation,
            layout_version: descriptor.layout_version,
            offset,
            data: req.data,
        },
    )
}

/// The answer of a node that has stored a stripe.
pub open spec fn stored_answer(
    node: DataNodeView,
    stripe_index: u32,
    device_id: u32,
    storage_handle: Seq<char>,
    offset: u64,
    length: u64,
) -> PutPlacementChunkResponseView {
    PutPlacementChunkResponseView {
        success: true,
        chunk: Some(
            PlacementChunkView {
                stripe_index,
                node_id: node.node_id,
                grpc_endpoint: node.grpc_endpoint,
                rdma_endpoint: node.rdma_endpoint,
                device_id,
                storage_handle,
                offset,
                length,
            },
        ),
    }
}

/// The answer of this node once it has stored a stripe of `length` bytes under
/// `storage_handle`.
pub fn stored_chunk_response(
    ctx: &KVServiceContext,
    env: &NodeEnv,
    stripe_index: u32,
    device_id: u32,
    storage_handle: String,
    offset: u64,
    length: u64,
) -> (r: PutPlacementChunkResponse)
    ensures
        r.deep_view() == stored_answer(
            this_node(ctx.deep_view(), env.deep_view()),
            stripe_index,
            device_id,
            storage_handle@,
            offset,
            length,
        ),
{
    let local = local_node(ctx, env);
    PutPlacementChunkResponse {
        success: true,
        chunk: Some(
            PlacementChunk {
                stripe_index,
                node_id: local.node_id,
                grpc_endpoint: local.grpc_endpoint,
                rdma_endpoint: local.rdma_endpoint,
                device_id,
                storage_handle,
                offset,
                length,
            },
        ),
    }
}

/// A stripe is located alike wherever it is stored: what a node answers once it has stored a
/// stripe is what the node that shares the object out records of a stripe of its own.
pub proof fn stripes_are_located_alike(
    node: DataNodeView,
    stripe_index: u32,
    device_id: u32,
    storage_handle: Seq<char>,
    offset: u64,
    length: u64,
)
    ensures
        chunk_location(
            stored_answer(
                node,
                stripe_index,
                device_id,
                storage_handle,
                offset,
                length,
            ).chunk->Some_0,
        ) == location_on(node, stripe_index, device_id, storage_handle, offset, length),
{
}

} // verus!
