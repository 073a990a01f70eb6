//! Reads, lookups and removals: what each request needs next, and how it is answered.
use crate::cluster::{
    grpc_uri, is_local_node, is_this_node, metadata_owner, select_metadata_owner, uri_of,
};
use crate::convert::{
    absent_object, describes, descriptor_from_meta, descriptor_of, found_get_response,
    internal_key, key_from_descriptor, message_meta, meta_to_pb, missing_get_response,
    pb_key_to_internal, present_object, validate_descriptor,
};
use crate::messages::{
    DataChunk, DataReadResponse, DataReadResponseView, DeletePlacementChunkResponse,
    DeletePlacementChunkResponseView, DeleteResponse, DeleteResponseView, DescriptorDataChunk,
    ExistsResponse, ExistsResponseView, GetResponse, GetResponseView, LookupObjectResponse,
    LookupObjectResponseView, ObjectDescriptor, ObjectDescriptorView, ObjectKey, ObjectKeyView,
    PlacementChunk,
    PlacementDescriptor, PlacementDescriptorView, ReadPlacementChunkRequest,
};
use crate::model::{
    BlockMeta, BlockMetaView, DataNode, InternalKey, InternalKeyView, KVServiceContext,
    KVServiceContextView, NodeEnv, NodeEnvView,
};
use crate::order::{all_ok, all_or_first_error, is_first_error};
use crate::payload::{bytes_of, bytes_of_each, fit_one_buffer, flatten_segments, joined};
use crate::placement::{
    offsets_fit, placement_from_meta, placement_has_remote_chunks, placement_of,
    reaches_other_nodes,
};
use crate::status::{error, Code, Status, StatusView};
use crate::stream::{
    data_stream, descriptor_stream, stream_fits, stream_object, stream_object_by_descriptor,
};
use prost::bytes::Bytes;
use vstd::prelude::*;

verus! {

/// Whether `r` is what a request with the key `key`, if it has one, asks for.
pub open spec fn is_asked_key(key: Option<ObjectKeyView>, r: Result<InternalKey, Status>) -> bool {
    match key {
        Some(k) => r matches Ok(internal) && internal.deep_view() == internal_key(k),
        None => r matches Err(e) && e.deep_view() == error(
            Code::InvalidArgument,
            "missing key"@,
        ),
    }
}

/// The key of a request. A request without one is refused.
pub fn require_key(key: &Option<ObjectKey>) -> (r: Result<InternalKey, Status>)
    ensures
        is_asked_key(key.deep_view(), r),
{
    match key {
        Some(k) => Ok(pb_key_to_internal(k)),
        None => Err(Status::new(Code::InvalidArgument, "missing key")),
    }
}

/// Whether `r` is the key that the descriptor of a request, if it has one, names.
pub open spec fn is_described_key(
    descriptor: Option<ObjectDescriptorView>,
    r: Result<InternalKey, Status>,
) -> bool {
    match descriptor {
        Some(d) => match d.key {
            Some(k) => r matches Ok(internal) && internal.deep_view() == internal_key(k),
            None => r matches Err(e) && e.deep_view() == error(
                Code::InvalidArgument,
                "descriptor missing key"@,
            ),
        },
        None => r matches Err(e) && e.deep_view() == error(
            Code::InvalidArgument,
            "missing descriptor"@,
        ),
    }
}

/// The key that the descriptor of a request names. A request without a descriptor, or with one
/// that names no object, is refused.
pub fn require_described_key(descriptor: &Option<ObjectDescriptor>) -> (r: Result<
    InternalKey,
    Status,
>)
    ensures
        is_described_key(descriptor.deep_view(), r),
{
    match descriptor {
        Some(d) => key_from_descriptor(d),
        None => Err(Status::new(Code::InvalidArgument, "missing descriptor")),
    }
}

/// Where a request is handled: on this node, or on the node that holds the object's metadata,
/// which is called under `uri` and gets the request as it came.
pub enum Route<R> {
    Local { request: R },
    Owner { node: DataNode, uri: String, request: R },
}

/// Whether the object with the string key `str_key` belongs to this node.
pub open spec fn belongs_here(
    ctx: KVServiceContextView,
    env: NodeEnvView,
    str_key: Seq<char>,
) -> bool {
    is_this_node(ctx, env, metadata_owner(ctx, env, str_key))
}

/// Whether `route` is where `request` for the object with the string key `str_key` is handled.
pub open spec fn is_route<R>(
    ctx: KVServiceContextView,
    env: NodeEnvView,
    str_key: Seq<char>,
    request: R,
    route: Route<R>,
) -> bool {
    &&& route is Local <==> belongs_here(ctx, env, str_key)
    &&& match route {
        Route::Local { request: kept } => kept == request,
        Route::Owner { node, uri, request: sent } => {
            &&& node.deep_view() == metadata_owner(ctx, env, str_key)
            &&& uri@ == uri_of(node.grpc_endpoint@)
            &&& sent == request
        },
    }
}

/// Decides where a request for the object with the string key `str_key` is handled.
pub fn route_to_owner<R>(ctx: &KVServiceContext, env: &NodeEnv, str_key: &str, request: R) -> (r:
    Route<R>)
    ensures
        is_route(ctx.deep_view(), env.deep_view(), str_key@, request, r),
{
    let owner = select_metadata_owner(ctx, env, str_key);
    if is_local_node(ctx, env, &owner) {
        return Route::Local { request };
    }
    let uri = grpc_uri(owner.grpc_endpoint.as_str());
    Route::Owner { node: owner, uri, request }
}

/// A request that is sent on is not sent on again: where two nodes agree on the data nodes, and
/// the second one takes the owner of an object to be itself, that node keeps the request.
pub proof fn requests_are_sent_on_once(
    sender: KVServiceContextView,
    sender_env: NodeEnvView,
    owner: KVServiceContextView,
    owner_env: NodeEnvView,
    str_key: Seq<char>,
)
    requires
        sender.config.cluster.data_nodes == owner.config.cluster.data_nodes,
        sender.config.cluster.data_nodes.len() > 0,
    ensures
        is_this_node(owner, owner_env, metadata_owner(sender, sender_env, str_key))
            ==> belongs_here(owner, owner_env, str_key),
{
}

/// Where an object comes from: from its chunks, some of which are on other nodes, or from the
/// cache and the storage of this node.
pub enum ObjectSource {
    Chunks { meta: BlockMeta, descriptor: ObjectDescriptor, placement: PlacementDescriptor },
    Memory,
}

/// Whether the object that `meta` records has chunks on other nodes.
pub open spec fn is_elsewhere(
    ctx: KVServiceContextView,
    env: NodeEnvView,
    key: InternalKeyView,
    str_key: Seq<char>,
    meta: BlockMetaView,
) -> bool {
    reaches_other_nodes(ctx, env, placement_of(ctx, env, key, str_key, meta).chunks)
}

/// Whether `source` is where the object with the record `meta`, if there is one, comes from.
pub open spec fn is_object_source(
    ctx: KVServiceContextView,
    env: NodeEnvView,
    key: InternalKeyView,
    str_key: Seq<char>,
    meta: Option<BlockMeta>,
    source: ObjectSource,
) -> bool {
    &&& source is Chunks <==> meta is Some && is_elsewhere(
        ctx,
        env,
        key,
        str_key,
        meta->Some_0.deep_view(),
    )
    &&& source matches ObjectSource::Chunks { meta: m, descriptor, placement } ==> {
        &&& meta == Some(m)
        &&& descriptor.deep_view() == descriptor_of(key, str_key, m.deep_view())
        &&& placement.deep_view() == placement_of(ctx, env, key, str_key, m.deep_view())
    }
}

/// Decides where an object comes from, given its record, if there is one. `str_key` is the
/// string form of `key`.
pub fn object_source(
    ctx: &KVServiceContext,
    env: &NodeEnv,
    key: &InternalKey,
    str_key: &str,
    meta: Option<BlockMeta>,
) -> (r: ObjectSource)
    requires
        meta matches Some(m) ==> offsets_fit(m.deep_view()),
    ensures
        is_object_source(ctx.deep_view(), env.deep_view(), key.deep_view(), str_key@, meta, r),
{
    match meta {
        Some(meta) => {
            let placement = placement_from_meta(ctx, env, key, str_key, &meta);
            if placement_has_remote_chunks(ctx, env, &placement) {
                let descriptor = descriptor_from_meta(key, str_key, &meta);
                return ObjectSource::Chunks { meta, descriptor, placement };
            }
            ObjectSource::Memory
        },
        None => ObjectSource::Memory,
    }
}

/// The answer for an object with the record `meta` whose chunks hold `chunks`.
pub open spec fn chunks_answer(chunks: Seq<Seq<u8>>, meta: BlockMetaView) -> GetResponseView {
    present_object(joined(chunks), meta)
}

/// The answer for an object that was looked for on this node.
pub open spec fn memory_answer(found: Option<(Bytes, BlockMeta)>) -> GetResponseView {
    match found {
        Some((data, meta)) => present_object(bytes_of(data), meta.deep_view()),
        None => absent_object(),
    }
}

/// The answer for an object whose chunks have been read.
pub fn get_from_chunks(meta: &BlockMeta, chunks: Vec<Bytes>) -> (r: GetResponse)
    requires
        chunks.len() == 1 || fit_one_buffer(chunks@),
    ensures
        r.deep_view() == chunks_answer(bytes_of_each(chunks@), meta.deep_view()),
{
    found_get_response(flatten_segments(chunks), meta)
}

/// The answer for an object that was looked for on this node.
pub fn get_from_memory(found: Option<(Bytes, BlockMeta)>) -> (r: GetResponse)
    ensures
        r.deep_view() == memory_answer(found),
{
    match found {
        Some((data, meta)) => found_get_response(data, &meta),
        None => missing_get_response(),
    }
}

/// The name under which the outcome of a read that found something or not is counted.
pub open spec fn outcome_name(found: bool) -> Seq<char> {
    if found {
        "ok"@
    } else {
        "not_found"@
    }
}

/// The name under which the outcome of a read is counted.
pub fn read_outcome(found: bool) -> (r: &'static str)
    ensures
        r@ == outcome_name(found),
{
    if found {
        "ok"
    } else {
        "not_found"
    }
}

/// The error for an object that does not exist, where there is no other way to say so.
pub open spec fn key_not_found() -> StatusView {
    error(Code::NotFound, "key not found"@)
}

/// Whether `r` is the stream of an object that was looked for, and found as `segments` or not.
pub open spec fn is_object_stream(
    segments: Option<Vec<Bytes>>,
    r: Result<Vec<DataChunk>, Status>,
) -> bool {
    match segments {
        Some(s) => r matches Ok(chunks) && chunks.deep_view() == data_stream(bytes_of_each(s@)),
        None => r matches Err(e) && e.deep_view() == key_not_found(),
    }
}

/// The messages in which an object that was looked for on this node is streamed.
pub fn stream_from_memory(segments: Option<Vec<Bytes>>) -> (r: Result<Vec<DataChunk>, Status>)
    requires
        segments matches Some(s) ==> stream_fits(bytes_of_each(s@)),
    ensures
        is_object_stream(segments, r),
{
    match segments {
        Some(s) => Ok(stream_object(&s)),
        None => Err(Status::new(Code::NotFound, "key not found")),
    }
}

/// The answer to a lookup.
pub open spec fn lookup_answer(
    ctx: KVServiceContextView,
    env: NodeEnvView,
    key: InternalKeyView,
    str_key: Seq<char>,
    meta: Option<BlockMetaView>,
) -> LookupObjectResponseView {
    LookupObjectResponseView {
        found: meta is Some,
        descriptor: match meta {
            Some(m) => Some(descriptor_of(key, str_key, m)),
            None => None,
        },
        placement: match meta {
            Some(m) => Some(placement_of(ctx, env, key, str_key, m)),
            None => None,
        },
    }
}

/// The answer to a lookup, given the record of the object, if there is one. `str_key` is the
/// string form of `key`.
pub fn lookup_response(
    ctx: &KVServiceContext,
    env: &NodeEnv,
    key: &InternalKey,
    str_key: &str,
    meta: &Option<BlockMeta>,
) -> (r: LookupObjectResponse)
    requires
        meta matches Some(m) ==> offsets_fit(m.deep_view()),
    ensures
        r.deep_view() == lookup_answer(
            ctx.deep_view(),
            env.deep_view(),
            key.deep_view(),
            str_key@,
            meta.deep_view(),
        ),
{
    match meta {
        Some(m) => LookupObjectResponse {
            found: true,
            descriptor: Some(descriptor_from_meta(key, str_key, m)),
            placement: Some(placement_from_meta(ctx, env, key, str_key, m)),
        },
        None => LookupObjectResponse { found: false, descriptor: None, placement: None },
    }
}

/// Where the version of an object that a descriptor names comes from: from its chunks, some of
/// which are on other nodes, or from the storage of this node. `fresh` is the descriptor of the
/// version, and `placement` is its placement.
pub enum DescriptorSource {
    Absent,
    Chunks { meta: BlockMeta, fresh: ObjectDescriptor, placement: PlacementDescriptor },
    Storage { meta: BlockMeta, fresh: ObjectDescriptor, placement: PlacementDescriptor },
}

/// Whether `source` is where the version of an object that `descriptor` names comes from, given
/// the object's record, if there is one.
pub open spec fn is_descriptor_source(
    ctx: KVServiceContextView,
    env: NodeEnvView,
    key: InternalKeyView,
    str_key: Seq<char>,
    descriptor: ObjectDescriptorView,
    active: Option<BlockMeta>,
    source: Result<DescriptorSource, Status>,
) -> bool {
    match active {
        None => source == Ok::<DescriptorSource, Status>(DescriptorSource::Absent),
        Some(m) => if !describes(descriptor, m.deep_view()) {
            source matches Err(e) && e.deep_view() == error(
                Code::FailedPrecondition,
                "stale descriptor"@,
            )
        } else {
            let expected_fresh = descriptor_of(key, str_key, m.deep_view());
            let expected_placement = placement_of(ctx, env, key, str_key, m.deep_view());
            if reaches_other_nodes(ctx, env, expected_placement.chunks) {
                source matches Ok(DescriptorSource::Chunks { meta, fresh, placement }) && meta == m
                    && fresh.deep_view() == expected_fresh && placement.deep_view()
                    == expected_placement
            } else {
                source matches Ok(DescriptorSource::Storage { meta, fresh, placement }) && meta
                    == m && fresh.deep_view() == expected_fresh && placement.deep_view()
                    == expected_placement
            }
        },
    }
}

/// Decides where the version of an object that `descriptor` names comes from, given the
/// object's record, if there is one. A descriptor of another version is refused. `str_key` is
/// the string form of `key`.
pub fn descriptor_source(
    ctx: &KVServiceContext,
    env: &NodeEnv,
    key: &InternalKey,
    str_key: &str,
    descriptor: &ObjectDescriptor,
    active: Option<BlockMeta>,
) -> (r: Result<DescriptorSource, Status>)
    requires
        active matches Some(m) ==> describes(descriptor.deep_view(), m.deep_view()) ==> offsets_fit(
            m.deep_view(),
        ),
    ensures
        is_descriptor_source(
            ctx.deep_view(),
            env.deep_view(),
            key.deep_view(),
            str_key@,
            descriptor.deep_view(),
            active,
            r,
        ),
{
    let meta = match active {
        Some(m) => m,
        None => {
            return Ok(DescriptorSource::Absent);
        },
    };
    match validate_descriptor(descriptor, &meta) {
        Ok(_) => {},
        Err(e) => {
            return Err(e);
        },
    }
    let fresh = descriptor_from_meta(key, str_key, &meta);
    let placement = placement_from_meta(ctx, env, key, str_key, &meta);
    if placement_has_remote_chunks(ctx, env, &placement) {
        Ok(DescriptorSource::Chunks { meta, fresh, placement })
    } else {
        Ok(DescriptorSource::Storage { meta, fresh, placement })
    }
}

/// The answer to a read by descriptor of an object that does not exist.
pub open spec fn absent_version() -> DataReadResponseView {
    DataReadResponseView {
        found: false,
        data: seq![],
        metadata: None,
        descriptor: None,
        placement: None,
    }
}

/// The answer to a read by descriptor.
pub open spec fn present_version(
    data: Seq<u8>,
    meta: BlockMetaView,
    fresh: ObjectDescriptorView,
    placement: PlacementDescriptorView,
) -> DataReadResponseView {
    DataReadResponseView {
        found: true,
        data,
        metadata: Some(message_meta(meta)),
        descriptor: Some(fresh),
        placement: Some(placement),
    }
}

/// The answer to a read by descriptor that came upon `data`, or upon nothing.
pub open spec fn version_answer(
    data: Option<Seq<u8>>,
    meta: BlockMetaView,
    fresh: ObjectDescriptorView,
    placement: PlacementDescriptorView,
) -> DataReadResponseView {
    match data {
        Some(bytes) => present_version(bytes, meta, fresh, placement),
        None => absent_version(),
    }
}

/// The answer to a read by descriptor of an object that does not exist.
pub fn absent_read_response() -> (r: DataReadResponse)
    ensures
        r.deep_view() == absent_version(),
{
    DataReadResponse {
        found: false,
        data: Bytes::new(),
        metadata: None,
        descriptor: None,
        placement: None,
    }
}

/// The answer to a read by descriptor of an object whose chunks have been read.
pub fn read_response_from_chunks(
    meta: &BlockMeta,
    fresh: ObjectDescriptor,
    placement: PlacementDescriptor,
    chunks: Vec<Bytes>,
) -> (r: DataReadResponse)
    requires
        chunks.len() == 1 || fit_one_buffer(chunks@),
    ensures
        r.deep_view() == version_answer(
            Some(joined(bytes_of_each(chunks@))),
            meta.deep_view(),
            fresh.deep_view(),
            placement.deep_view(),
        ),
{
    DataReadResponse {
        found: true,
        data: flatten_segments(chunks),
        metadata: Some(meta_to_pb(meta)),
        descriptor: Some(fresh),
        placement: Some(placement),
    }
}

/// The answer to a read by descriptor of an object that was looked for in the storage of this
/// node.
pub fn read_response_from_storage(
    meta: &BlockMeta,
    fresh: ObjectDescriptor,
    placement: PlacementDescriptor,
    data: Option<Bytes>,
) -> (r: DataReadResponse)
    ensures
        r.deep_view() == version_answer(
            match data {
                Some(d) => Some(bytes_of(d)),
                None => None,
            },
            meta.deep_view(),
            fresh.deep_view(),
            placement.deep_view(),
        ),
{
    match data {
        Some(data) => DataReadResponse {
            found: true,
            data,
            metadata: Some(meta_to_pb(meta)),
            descriptor: Some(fresh),
            placement: Some(placement),
        },
        None => absent_read_response(),
    }
}

/// Whether `r` is `source`, or the error where there is no object.
pub open spec fn is_required_version(
    source: DescriptorSource,
    r: Result<DescriptorSource, Status>,
) -> bool {
    match source {
        DescriptorSource::Absent => r matches Err(e) && e.deep_view() == key_not_found(),
        _ => r == Ok::<DescriptorSource, Status>(source),
    }
}

/// A read by descriptor streams an object that exists, or fails.
pub fn require_version(source: DescriptorSource) -> (r: Result<DescriptorSource, Status>)
    ensures
        is_required_version(source, r),
{
    match source {
        DescriptorSource::Absent => Err(Status::new(Code::NotFound, "key not found")),
        other => Ok(other),
    }
}

/// Whether `r` is the stream of a version that was looked for, and found as `segments` or not.
pub open spec fn is_version_stream(
    segments: Option<Vec<Bytes>>,
    fresh: ObjectDescriptorView,
    placement: PlacementDescriptorView,
    r: Result<Vec<DescriptorDataChunk>, Status>,
) -> bool {
    match segments {
        Some(s) => r matches Ok(chunks) && chunks.deep_view() == descriptor_stream(
            bytes_of_each(s@),
            fresh,
            placement,
        ),
        None => r matches Err(e) && e.deep_view() == key_not_found(),
    }
}

/// The messages in which an object that was looked for in the storage of this node is streamed
/// by descriptor.
pub fn stream_version_from_storage(
    segments: Option<Vec<Bytes>>,
    fresh: &ObjectDescriptor,
    placement: &PlacementDescriptor,
) -> (r: Result<Vec<DescriptorDataChunk>, Status>)
    requires
        segments matches Some(s) ==> stream_fits(bytes_of_each(s@)),
    ensures
        is_version_stream(segments, fresh.deep_view(), placement.deep_view(), r),
{
    match segments {
        Some(s) => Ok(stream_object_by_descriptor(&s, fresh, placement)),
        None => Err(Status::new(Code::NotFound, "key not found")),
    }
}

/// Whether `r` is what the request `req` for one stripe asks for.
pub open spec fn is_asked_chunk(
    req: ReadPlacementChunkRequest,
    r: Result<(InternalKey, ObjectDescriptor, PlacementChunk), Status>,
) -> bool {
    match (req.descriptor, req.chunk) {
        (None, _) => r matches Err(e) && e.deep_view() == error(
            Code::InvalidArgument,
            "missing descriptor"@,
        ),
        (Some(d), c) => match (d.deep_view().key, c) {
            (None, _) => r matches Err(e) && e.deep_view() == error(
                Code::InvalidArgument,
                "descriptor missing key"@,
            ),
            (Some(_), None) => r matches Err(e) && e.deep_view() == error(
                Code::InvalidArgument,
                "missing placement chunk"@,
            ),
            (Some(k), Some(chunk)) => r matches Ok((key, desc, asked)) && key.deep_view()
                == internal_key(k) && desc == d && asked == chunk,
        },
    }
}

/// What a request for one stripe asks for: the object's key, the descriptor and the stripe. A
/// request that leaves one of them out is refused.
pub fn check_read_chunk(req: ReadPlacementChunkRequest) -> (r: Result<
    (InternalKey, ObjectDescriptor, PlacementChunk),
    Status,
>)
    ensures
        is_asked_chunk(req, r),
{
    let descriptor = match req.descriptor {
        Some(descriptor) => descriptor,
        None => {
            return Err(Status::new(Code::InvalidArgument, "missing descriptor"));
        },
    };
    let key = match key_from_descriptor(&descriptor) {
        Ok(key) => key,
        Err(e) => {
            return Err(e);
        },
    };
    match req.chunk {
        Some(chunk) => Ok((key, descriptor, chunk)),
        None => Err(Status::new(Code::InvalidArgument, "missing placement chunk")),
    }
}

/// Whether `r` is the stripe of a request, or the error where it has none.
pub open spec fn is_required_chunk(
    chunk: Option<PlacementChunk>,
    r: Result<PlacementChunk, Status>,
) -> bool {
    match chunk {
        Some(c) => r == Ok::<PlacementChunk, Status>(c),
        None => r matches Err(e) && e.deep_view() == error(
            Code::InvalidArgument,
            "missing placement chunk"@,
        ),
    }
}

/// The stripe of a request to remove one. A request without one is refused.
pub fn require_chunk(chunk: Option<PlacementChunk>) -> (r: Result<PlacementChunk, Status>)
    ensures
        is_required_chunk(chunk, r),
{
    match chunk {
        Some(c) => Ok(c),
        None => Err(Status::new(Code::InvalidArgument, "missing placement chunk")),
    }
}

/// Whether the stripes of an object are all removed, once every node has answered. The first
/// failure, if there is one, is handed out.
pub fn delete_distributed_chunks<E>(results: Vec<Result<(), E>>) -> (r: Result<(), E>)
    ensures
        match r {
            Ok(_) => all_ok(results@),
            Err(e) => is_first_error(results@, e),
        },
{
    match all_or_first_error(results) {
        Ok(_) => Ok(()),
        Err(e) => Err(e),
    }
}

/// The answer to the removal of an object that was there or not.
pub open spec fn delete_answer(existed: bool) -> DeleteResponseView {
    DeleteResponseView { success: existed }
}

/// The answer to the removal of a stripe that was there or not.
pub open spec fn delete_chunk_answer(existed: bool) -> DeletePlacementChunkResponseView {
    DeletePlacementChunkResponseView { success: existed }
}

/// The answer to the question whether an object exists.
pub open spec fn exists_answer(exists: bool) -> ExistsResponseView {
    ExistsResponseView { exists }
}

/// The answer to the removal of an object on this node: whether there was one.
pub fn delete_response(existed: bool) -> (r: DeleteResponse)
    ensures
        r.deep_view() == delete_answer(existed),
{
    DeleteResponse { success: existed }
}

/// The answer to the removal of a stripe on this node: whether there was one.
pub fn delete_chunk_response(existed: bool) -> (r: DeletePlacementChunkResponse)
    ensures
        r.deep_view() == delete_chunk_answer(existed),
{
    DeletePlacementChunkResponse { success: existed }
}

/// The answer to the question whether an object exists.
pub fn exists_response(exists: bool) -> (r: ExistsResponse)
    ensures
        r.deep_view() == exists_answer(exists),
{
    ExistsResponse { exists }
}

} // verus!
