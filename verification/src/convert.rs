//! Between the service's own records and the messages, and the checks on descriptors.
use crate::batch::local_answer;
use crate::messages::{
    GetResponse, GetResponseView, KvMetadata, KvMetadataView, ObjectDescriptor,
    ObjectDescriptorView, ObjectKey, ObjectKeyView, PlacementChunk, PlacementChunkView, PutOptions,
    PutOptionsView,
};
use crate::model::{
    BlockMeta, BlockMetaView, ChunkLocation, ChunkLocationView, InternalKey, InternalKeyView,
};
use crate::payload::bytes_of;
use crate::status::{error, Code, Status};
use crate::text::{
    decimal, decimal_has_digits_alone, decimal_tells_numbers_apart, push_decimal,
};
use prost::bytes::Bytes;
use vstd::prelude::*;

verus! {

/// The internal form of the key of a message.
pub open spec fn internal_key(k: ObjectKeyView) -> InternalKeyView {
    InternalKeyView { namespace: k.namespace, object_key: k.object_key }
}

/// The form in which a message carries an internal key.
pub open spec fn message_key(k: InternalKeyView) -> ObjectKeyView {
    ObjectKeyView { namespace: k.namespace, object_key: k.object_key }
}

/// Takes the key out of a message.
pub fn pb_key_to_internal(k: &ObjectKey) -> (r: InternalKey)
    ensures
        r.deep_view() == internal_key(k.deep_view()),
{
    InternalKey { namespace: k.namespace.clone(), object_key: k.object_key.clone() }
}

/// Puts a key into a message.
pub fn internal_key_to_pb(k: &InternalKey) -> (r: ObjectKey)
    ensures
        r.deep_view() == message_key(k.deep_view()),
{
    ObjectKey { namespace: k.namespace.clone(), object_key: k.object_key.clone() }
}

/// A key comes back unchanged from a message, and a message's key from the service.
pub proof fn keys_survive_messages(internal: InternalKeyView, message: ObjectKeyView)
    ensures
        internal_key(message_key(internal)) == internal,
        message_key(internal_key(message)) == message,
{
}

/// The metadata record of an object that is written at time `now` with the metadata `m`.
pub open spec fn fresh_meta(m: Option<KvMetadataView>, now: i64) -> BlockMetaView {
    BlockMetaView {
        device_id: 0,
        file_path: seq![],
        size: 0,
        object_handle: seq![],
        object_generation: 1,
        content_etag: seq![],
        layout_version: 1,
        created_at: match m {
            Some(m) => if m.created_at > 0 {
                m.created_at
            } else {
                now
            },
            None => now,
        },
        last_accessed_at: now,
        ttl_seconds: 0,
        num_tokens: match m {
            Some(m) => m.num_tokens,
            None => 0,
        },
        num_layers: match m {
            Some(m) => m.num_layers,
            None => 0,
        },
        dtype: match m {
            Some(m) => m.dtype,
            None => "bfloat16"@,
        },
        compressed: match m {
            Some(m) => m.compressed,
            None => false,
        },
        striping: None,
    }
}

/// `chrono::Utc::now()` and the timestamp of it: the seconds since the Unix epoch. The call
/// reads the system clock, so all that is claimed is that the number is not negative (before
/// the epoch `chrono` does not return).
#[verifier::external_body]
fn utc_timestamp() -> (t: i64)
    ensures
        t >= 0,
{
    chrono::Utc::now().timestamp()
}

/// The metadata record of an object that is written at time `now` with the metadata `m`.
pub fn meta_from_pb_at(m: Option<&KvMetadata>, now: i64) -> (r: BlockMeta)
    ensures
        r.deep_view() == fresh_meta(m.deep_view(), now),
{
    match m {
        Some(m) => BlockMeta {
            device_id: 0,
            file_path: String::new(),
            size: 0,
            object_handle: String::new(),
            object_generation: 1,
            content_etag: String::new(),
            layout_version: 1,
            created_at: if m.created_at > 0 {
                m.created_at
            } else {
                now
            },
            last_accessed_at: now,
            ttl_seconds: 0,
            num_tokens: m.num_tokens,
            num_layers: m.num_layers,
            dtype: m.dtype.clone(),
            compressed: m.compressed,
            striping: None,
        },
        None => BlockMeta {
            device_id: 0,
            file_path: String::new(),
            size: 0,
            object_handle: String::new(),
            object_generation: 1,
            content_etag: String::new(),
            layout_version: 1,
            created_at: now,
            last_accessed_at: now,
            ttl_seconds: 0,
            num_tokens: 0,
            num_layers: 0,
            dtype: "bfloat16".to_string(),
            compressed: false,
            striping: None,
        },
    }
}

/// The metadata record of an object that is written now with the metadata `m`. The time of
/// the write is the record's `last_accessed_at`.
pub fn meta_from_pb(m: Option<&KvMetadata>) -> (r: BlockMeta)
    ensures
        r.deep_view() == fresh_meta(m.deep_view(), r.last_accessed_at),
        r.last_accessed_at >= 0,
{
    let now: i64 = utc_timestamp();
    meta_from_pb_at(m, now)
}

/// What a message says of an object with the metadata record `m`.
pub open spec fn message_meta(m: BlockMetaView) -> KvMetadataView {
    KvMetadataView {
        num_tokens: m.num_tokens,
        num_layers: m.num_layers,
        dtype: m.dtype,
        shape: seq![],
        compressed: m.compressed,
        compression_level: 0,
        created_at: m.created_at,
        last_accessed_at: m.last_accessed_at,
    }
}

/// Puts a metadata record into a message.
pub fn meta_to_pb(m: &BlockMeta) -> (r: KvMetadata)
    ensures
        r.deep_view() == message_meta(m.deep_view()),
{
    KvMetadata {
        num_tokens: m.num_tokens,
        num_layers: m.num_layers,
        dtype: m.dtype.clone(),
        shape: Vec::new(),
        compressed: m.compressed,
        compression_level: 0,
        created_at: m.created_at,
        last_accessed_at: m.last_accessed_at,
    }
}

/// The metadata that a client sends with a write is the metadata that a read of the record
/// answers with: tokens, layers, data type and compression are kept, and so is the time of
/// creation where the client gave one. The access time is the time of the write. The shape and
/// the compression level are not kept.
pub proof fn metadata_survives_a_write(m: KvMetadataView, now: i64)
    ensures
        ({
            let read = message_meta(fresh_meta(Some(m), now));
            &&& read.num_tokens == m.num_tokens
            &&& read.num_layers == m.num_layers
            &&& read.dtype == m.dtype
            &&& read.compressed == m.compressed
            &&& m.created_at > 0 ==> read.created_at == m.created_at
            &&& m.created_at <= 0 ==> read.created_at == now
            &&& read.last_accessed_at == now
            &&& read.shape == Seq::<i64>::empty()
            &&& read.compression_level == 0
        }),
{
}

/// Whether a write must leave an object that is already there.
pub open spec fn keeps_existing(options: Option<PutOptionsView>) -> bool {
    match options {
        Some(o) => o.if_not_exists,
        None => false,
    }
}

/// Whether a write must leave an object that is already there. Without options it replaces it.
pub fn put_options_if_not_exists(options: Option<&PutOptions>) -> (r: bool)
    ensures
        r == keeps_existing(options.deep_view()),
{
    match options {
        Some(o) => o.if_not_exists,
        None => false,
    }
}

/// The answer for an object that does not exist.
pub open spec fn absent_object() -> GetResponseView {
    GetResponseView { data: seq![], metadata: None, found: false }
}

/// The answer for the object `data` with the metadata record `meta`.
pub open spec fn present_object(data: Seq<u8>, meta: BlockMetaView) -> GetResponseView {
    GetResponseView { data, metadata: Some(message_meta(meta)), found: true }
}

/// The answer for an object that does not exist.
pub fn missing_get_response() -> (r: GetResponse)
    ensures
        r.deep_view() == absent_object(),
{
    GetResponse { data: Bytes::new(), metadata: None, found: false }
}

/// The answer for the object `data` with the metadata record `meta`.
pub fn found_get_response(data: Bytes, meta: &BlockMeta) -> (r: GetResponse)
    ensures
        r.deep_view() == present_object(bytes_of(data), meta.deep_view()),
{
    GetResponse { data, metadata: Some(meta_to_pb(meta)), found: true }
}

/// The answer for one key of a batch. A read that failed counts as an object that does not
/// exist.
pub fn memory_get_result_to_pb<E>(result: Result<Option<(Bytes, BlockMeta)>, E>) -> (r: GetResponse)
    ensures
        r.deep_view() == local_answer(result),
{
    match result {
        Ok(Some((data, meta))) => found_get_response(data, &meta),
        _ => missing_get_response(),
    }
}

/// The form in which a message carries the location of a stripe.
pub open spec fn message_chunk(loc: ChunkLocationView) -> PlacementChunkView {
    PlacementChunkView {
        stripe_index: loc.stripe_index,
        node_id: loc.node_id,
        grpc_endpoint: loc.grpc_endpoint,
        rdma_endpoint: loc.rdma_endpoint,
        device_id: loc.device_id,
        storage_handle: loc.storage_handle,
        offset: loc.offset,
        length: loc.length,
    }
}

/// The location of a stripe that a message carries.
pub open spec fn chunk_location(chunk: PlacementChunkView) -> ChunkLocationView {
    ChunkLocationView {
        stripe_index: chunk.stripe_index,
        node_id: chunk.node_id,
        grpc_endpoint: chunk.grpc_endpoint,
        rdma_endpoint: chunk.rdma_endpoint,
        device_id: chunk.device_id,
        storage_handle: chunk.storage_handle,
        offset: chunk.offset,
        length: chunk.length,
    }
}

/// Puts the location of a stripe into a message.
pub fn chunk_location_to_pb(key: &InternalKey, loc: &ChunkLocation) -> (r: PlacementChunk)
    ensures
        r.deep_view() == message_chunk(loc.deep_view()),
{
    let _ = key;
    PlacementChunk {
        stripe_index: loc.stripe_index,
        node_id: loc.node_id.clone(),
        grpc_endpoint: loc.grpc_endpoint.clone(),
        rdma_endpoint: loc.rdma_endpoint.clone(),
        device_id: loc.device_id,
        storage_handle: loc.storage_handle.clone(),
        offset: loc.offset,
        length: loc.length,
    }
}

/// Takes the location of a stripe out of a message.
pub fn pb_chunk_to_location(chunk: &PlacementChunk) -> (r: ChunkLocation)
    ensures
        r.deep_view() == chunk_location(chunk.deep_view()),
{
    ChunkLocation {
        stripe_index: chunk.stripe_index,
        node_id: chunk.node_id.clone(),
        grpc_endpoint: chunk.grpc_endpoint.clone(),
        rdma_endpoint: chunk.rdma_endpoint.clone(),
        device_id: chunk.device_id,
        storage_handle: chunk.storage_handle.clone(),
        offset: chunk.offset,
        length: chunk.length,
    }
}

/// The location of a stripe comes back unchanged from a message, and the other way round.
pub proof fn chunk_locations_survive_messages(loc: ChunkLocationView, chunk: PlacementChunkView)
    ensures
        chunk_location(message_chunk(loc)) == loc,
        message_chunk(chunk_location(chunk)) == chunk,
{
}

/// The handle of the version of an object that `meta` records. `str_key` is the string form of
/// the object's key.
pub open spec fn handle_of(str_key: Seq<char>, meta: BlockMetaView) -> Seq<char> {
    if meta.object_handle.len() > 0 {
        meta.object_handle
    } else {
        "v1:"@ + str_key + ":g"@ + decimal(meta.object_generation as nat) + ":l"@ + decimal(
            meta.layout_version as nat,
        )
    }
}

/// The handle of the version of an object that `meta` records. `str_key` is the string form of
/// the object's key.
pub fn object_handle(str_key: &str, meta: &BlockMeta) -> (r: String)
    ensures
        r@ == handle_of(str_key@, meta.deep_view()),
{
    if !meta.object_handle.as_str().is_empty() {
        return meta.object_handle.clone();
    }
    let mut out = "v1:".to_string();
    out.append(str_key);
    out.append(":g");
    push_decimal(&mut out, meta.object_generation);
    out.append(":l");
    push_decimal(&mut out, meta.layout_version as u64);
    out
}

/// The descriptor of the version of an object that `meta` records.
pub open spec fn descriptor_of(
    key: InternalKeyView,
    str_key: Seq<char>,
    meta: BlockMetaView,
) -> ObjectDescriptorView {
    ObjectDescriptorView {
        key: Some(message_key(key)),
        object_handle: handle_of(str_key, meta),
        object_generation: meta.object_generation,
        content_etag: meta.content_etag,
        layout_version: meta.layout_version,
        size: meta.size,
        is_striped: meta.striping is Some,
        stripe_count: match meta.striping {
            Some(s) => s.chunk_paths.len() as u32,
            None => 0,
        },
        chunk_size: match meta.striping {
            Some(s) => s.chunk_size,
            None => 0,
        },
    }
}

/// The descriptor of the version of an object that `meta` records. `str_key` is the string form
/// of `key`.
pub fn descriptor_from_meta(key: &InternalKey, str_key: &str, meta: &BlockMeta) -> (r:
    ObjectDescriptor)
    ensures
        r.deep_view() == descriptor_of(key.deep_view(), str_key@, meta.deep_view()),
{
    let (is_striped, stripe_count, chunk_size): (bool, u32, u64) = match &meta.striping {
        Some(stripe) => (true, stripe.chunk_paths.len() as u32, stripe.chunk_size),
        None => (false, 0, 0),
    };
    ObjectDescriptor {
        key: Some(internal_key_to_pb(key)),
        object_handle: object_handle(str_key, meta),
        object_generation: meta.object_generation,
        content_etag: meta.content_etag.clone(),
        layout_version: meta.layout_version,
        size: meta.size,
        is_striped,
        stripe_count,
        chunk_size,
    }
}

/// Takes the key out of a descriptor. It is an error for a descriptor to have none.
pub fn key_from_descriptor(desc: &ObjectDescriptor) -> (r: Result<InternalKey, Status>)
    ensures
        match desc.deep_view().key {
            Some(k) => r matches Ok(key) && key.deep_view() == internal_key(k),
            None => r matches Err(e) && e.deep_view() == error(
                Code::InvalidArgument,
                "descriptor missing key"@,
            ),
        },
{
    match &desc.key {
        Some(k) => Ok(pb_key_to_internal(k)),
        None => Err(Status::new(Code::InvalidArgument, "descriptor missing key")),
    }
}

/// Whether a descriptor names the version of an object that `meta` records.
pub open spec fn describes(desc: ObjectDescriptorView, meta: BlockMetaView) -> bool {
    &&& desc.object_generation == meta.object_generation
    &&& desc.content_etag == meta.content_etag
    &&& desc.layout_version == meta.layout_version
    &&& desc.size == meta.size
    &&& desc.object_handle == meta.object_handle
}

/// Checks that a descriptor names the version of an object that `meta` records.
pub fn validate_descriptor(desc: &ObjectDescriptor, meta: &BlockMeta) -> (r: Result<(), Status>)
    ensures
        r is Ok <==> describes(desc.deep_view(), meta.deep_view()),
        r matches Err(e) ==> e.deep_view() == error(Code::FailedPrecondition, "stale descriptor"@),
{
    if desc.object_generation != meta.object_generation || desc.content_etag != meta.content_etag
        || desc.layout_version != meta.layout_version || desc.size != meta.size
        || desc.object_handle != meta.object_handle {
        return Err(Status::new(Code::FailedPrecondition, "stale descriptor"));
    }
    Ok(())
}

/// The descriptor of a version passes the check against the record of that version exactly
/// where the record holds a handle: a handle that is made up for a record without one never
/// matches it.
pub proof fn fresh_descriptor_is_accepted(
    key: InternalKeyView,
    str_key: Seq<char>,
    meta: BlockMetaView,
)
    ensures
        describes(descriptor_of(key, str_key, meta), meta) <==> meta.object_handle.len() > 0,
{
    reveal_strlit("v1:");
    if meta.object_handle.len() == 0 {
        assert(handle_of(str_key, meta).len() > 0);
    }
}

/// A descriptor of one version is refused once the record has another generation, another
/// content tag, another layout or another size.
pub proof fn descriptor_of_another_version_is_refused(
    key: InternalKeyView,
    str_key: Seq<char>,
    described: BlockMetaView,
    active: BlockMetaView,
)
    requires
        described.object_generation != active.object_generation || described.content_etag
            != active.content_etag || described.layout_version != active.layout_version
            || described.size != active.size,
    ensures
        !describes(descriptor_of(key, str_key, described), active),
{
}

/// The handles that are made up for two versions of an object are different: the generation
/// and the layout can be read off a handle.
pub proof fn handles_tell_versions_apart(str_key: Seq<char>, a: BlockMetaView, b: BlockMetaView)
    requires
        a.object_handle.len() == 0,
        b.object_handle.len() == 0,
        handle_of(str_key, a) == handle_of(str_key, b),
    ensures
        a.object_generation == b.object_generation,
        a.layout_version == b.layout_version,
{
    reveal_strlit(":l");
    let head = "v1:"@ + str_key + ":g"@;
    let mark = ":l"@;
    let ga = decimal(a.object_generation as nat);
    let gb = decimal(b.object_generation as nat);
    let la = decimal(a.layout_version as nat);
    let lb = decimal(b.layout_version as nat);
    let ha = handle_of(str_key, a);
    let hb = handle_of(str_key, b);
    decimal_has_digits_alone(a.object_generation as nat);
    decimal_has_digits_alone(b.object_generation as nat);
    assert(ha =~= head + ga + mark + la);
    assert(hb =~= head + gb + mark + lb);
    let n = head.len() as int;
    if ga.len() < gb.len() {
        assert(ha[n + ga.len()] == mark[0]);
        assert(hb[n + ga.len()] == gb[ga.len() as int]);
        assert(false);
    }
    if gb.len() < ga.len() {
        assert(hb[n + gb.len()] == mark[0]);
        assert(ha[n + gb.len()] == ga[gb.len() as int]);
        assert(false);
    }
    let m = n + ga.len();
    assert(ha.subrange(n, m) =~= ga);
    assert(hb.subrange(n, m) =~= gb);
    assert(ha.subrange(m + 2, ha.len() as int) =~= la);
    assert(hb.subrange(m + 2, hb.len() as int) =~= lb);
    decimal_tells_numbers_apart(a.object_generation as nat, b.object_generation as nat);
    decimal_tells_numbers_apart(a.layout_version as nat, b.layout_version as nat);
}

} // verus!
