//! The messages that the service exchanges with its clients and with other nodes.
use crate::payload::bytes_of;
use prost::bytes::Bytes;
use vstd::prelude::*;

verus! {

/// The key of an object, as a message carries it.
#[derive(Debug, PartialEq, Eq)]
pub struct ObjectKey {
    pub namespace: String,
    pub object_key: String,
}

/// The mathematical content of a [`ObjectKey`].
#[verifier::ext_equal]
pub struct ObjectKeyView {
    pub namespace: Seq<char>,
    pub object_key: Seq<char>,
}

impl DeepView for ObjectKey {
    type V = ObjectKeyView;

    open spec fn deep_view(&self) -> ObjectKeyView {
        ObjectKeyView {
            namespace: self.namespace@,
            object_key: self.object_key@,
        }
    }
}

impl Clone for ObjectKey {
    fn clone(&self) -> (r: Self)
        ensures
            r.deep_view() == self.deep_view(),
    {
        ObjectKey {
            namespace: self.namespace.clone(),
            object_key: self.object_key.clone(),
        }
    }
}

/// The metadata of an object, as a message carries it.
#[derive(Debug, PartialEq, Eq)]
pub struct KvMetadata {
    pub num_tokens: i64,
    pub num_layers: i32,
    pub dtype: String,
    pub shape: Vec<i64>,
    pub compressed: bool,
    pub compression_level: i32,
    pub created_at: i64,
    pub last_accessed_at: i64,
}

/// The mathematical content of a [`KvMetadata`].
#[verifier::ext_equal]
pub struct KvMetadataView {
    pub num_tokens: i64,
    pub num_layers: i32,
    pub dtype: Seq<char>,
    pub shape: Seq<i64>,
    pub compressed: bool,
    pub compression_level: i32,
    pub created_at: i64,
    pub last_accessed_at: i64,
}

impl DeepView for KvMetadata {
    type V = KvMetadataView;

    open spec fn deep_view(&self) -> KvMetadataView {
        KvMetadataView {
            num_tokens: self.num_tokens,
            num_layers: self.num_layers,
            dtype: self.dtype@,
            shape: self.shape.deep_view(),
            compressed: self.compressed,
            compression_level: self.compression_level,
            created_at: self.created_at,
            last_accessed_at: self.last_accessed_at,
        }
    }
}

/// Options of a write.
#[derive(Debug, PartialEq, Eq)]
pub struct PutOptions {
    pub if_not_exists: bool,
}

/// The mathematical content of a [`PutOptions`].
#[verifier::ext_equal]
pub struct PutOptionsView {
    pub if_not_exists: bool,
}

impl DeepView for PutOptions {
    type V = PutOptionsView;

    open spec fn deep_view(&self) -> PutOptionsView {
        PutOptionsView {
            if_not_exists: self.if_not_exists,
        }
    }
}

/// The identity of one version of an object.
#[derive(Debug, PartialEq, Eq)]
pub struct ObjectDescriptor {
    pub key: Option<ObjectKey>,
    pub object_handle: String,
    pub object_generation: u64,
    pub content_etag: String,
    pub layout_version: u32,
    pub size: u64,
    pub is_striped: bool,
    pub stripe_count: u32,
    pub chunk_size: u64,
}

/// The mathematical content of a [`ObjectDescriptor`].
#[verifier::ext_equal]
pub struct ObjectDescriptorView {
    pub key: Option<ObjectKeyView>,
    pub object_handle: Seq<char>,
    pub object_generation: u64,
    pub content_etag: Seq<char>,
    pub layout_version: u32,
    pub size: u64,
    pub is_striped: bool,
    pub stripe_count: u32,
    pub chunk_size: u64,
}

impl DeepView for ObjectDescriptor {
    type V = ObjectDescriptorView;

    open spec fn deep_view(&self) -> ObjectDescriptorView {
        ObjectDescriptorView {
            key: self.key.deep_view(),
            object_handle: self.object_handle@,
            object_generation: self.object_generation,
            content_etag: self.content_etag@,
            layout_version: self.layout_version,
            size: self.size,
            is_striped: self.is_striped,
            stripe_count: self.stripe_count,
            chunk_size: self.chunk_size,
        }
    }
}

impl Clone for ObjectDescriptor {
    fn clone(&self) -> (r: Self)
        ensures
            r.deep_view() == self.deep_view(),
    {
        ObjectDescriptor {
            key: self.key.clone(),
            object_handle: self.object_handle.clone(),
            object_generation: self.object_generation,
            content_etag: self.content_etag.clone(),
            layout_version: self.layout_version,
            size: self.size,
            is_striped: self.is_striped,
            stripe_count: self.stripe_count,
            chunk_size: self.chunk_size,
        }
    }
}

/// Where one stripe of an object is stored, as a message carries it.
#[derive(Debug, PartialEq, Eq)]
pub struct PlacementChunk {
    pub stripe_index: u32,
    pub node_id: String,
    pub grpc_endpoint: String,
    pub rdma_endpoint: String,
    pub device_id: u32,
    pub storage_handle: String,
    pub offset: u64,
    pub length: u64,
}

/// The mathematical content of a [`PlacementChunk`].
#[verifier::ext_equal]
pub struct PlacementChunkView {
    pub stripe_index: u32,
    pub node_id: Seq<char>,
    pub grpc_endpoint: Seq<char>,
    pub rdma_endpoint: Seq<char>,
    pub device_id: u32,
    pub storage_handle: Seq<char>,
    pub offset: u64,
    pub length: u64,
}

impl DeepView for PlacementChunk {
    type V = PlacementChunkView;

    open spec fn deep_view(&self) -> PlacementChunkView {
        PlacementChunkView {
            stripe_index: self.stripe_index,
            node_id: self.node_id@,
            grpc_endpoint: self.grpc_endpoint@,
            rdma_endpoint: self.rdma_endpoint@,
            device_id: self.device_id,
            storage_handle: self.storage_handle@,
            offset: self.offset,
            length: self.length,
        }
    }
}

impl Clone for PlacementChunk {
    fn clone(&self) -> (r: Self)
        ensures
            r.deep_view() == self.deep_view(),
    {
        PlacementChunk {
            stripe_index: self.stripe_index,
            node_id: self.node_id.clone(),
            grpc_endpoint: self.grpc_endpoint.clone(),
            rdma_endpoint: self.rdma_endpoint.clone(),
            device_id: self.device_id,
            storage_handle: self.storage_handle.clone(),
            offset: self.offset,
            length: self.length,
        }
    }
}

/// Where an object is stored.
#[derive(Debug, PartialEq, Eq)]
pub struct PlacementDescriptor {
    pub key: Option<ObjectKey>,
    pub placement_epoch: u64,
    pub placement_policy_id: String,
    pub layout_hash: String,
    pub primary_node_id: String,
    pub primary_grpc_endpoint: String,
    pub primary_rdma_endpoint: String,
    pub chunks: Vec<PlacementChunk>,
}

/// The mathematical content of a [`PlacementDescriptor`].
#[verifier::ext_equal]
pub struct PlacementDescriptorView {
    pub key: Option<ObjectKeyView>,
    pub placement_epoch: u64,
    pub placement_policy_id: Seq<char>,
    pub layout_hash: Seq<char>,
    pub primary_node_id: Seq<char>,
    pub primary_grpc_endpoint: Seq<char>,
    pub primary_rdma_endpoint: Seq<char>,
    pub chunks: Seq<PlacementChunkView>,
}

impl DeepView for PlacementDescriptor {
    type V = PlacementDescriptorView;

    open spec fn deep_view(&self) -> PlacementDescriptorView {
        PlacementDescriptorView {
            key: self.key.deep_view(),
            placement_epoch: self.placement_epoch,
            placement_policy_id: self.placement_policy_id@,
            layout_hash: self.layout_hash@,
            primary_node_id: self.primary_node_id@,
            primary_grpc_endpoint: self.primary_grpc_endpoint@,
            primary_rdma_endpoint: self.primary_rdma_endpoint@,
            chunks: self.chunks.deep_view(),
        }
    }
}

impl Clone for PlacementDescriptor {
    fn clone(&self) -> (r: Self)
        ensures
            r.deep_view() == self.deep_view(),
    {
        PlacementDescriptor {
            key: self.key.clone(),
            placement_epoch: self.placement_epoch,
            placement_policy_id: self.placement_policy_id.clone(),
            layout_hash: self.layout_hash.clone(),
            primary_node_id: self.primary_node_id.clone(),
            primary_grpc_endpoint: self.primary_grpc_endpoint.clone(),
            primary_rdma_endpoint: self.primary_rdma_endpoint.clone(),
            chunks: self.chunks.clone(),
        }
    }
}

/// The answer to a health probe.
#[derive(Debug, PartialEq, Eq)]
pub struct HealthResponse {
    pub status: ServingStatus,
    pub version: String,
}

/// The mathematical content of a [`HealthResponse`].
#[verifier::ext_equal]
pub struct HealthResponseView {
    pub status: ServingStatus,
    pub version: Seq<char>,
}

impl DeepView for HealthResponse {
    type V = HealthResponseView;

    open spec fn deep_view(&self) -> HealthResponseView {
        HealthResponseView {
            status: self.status,
            version: self.version@,
        }
    }
}

/// Counters of the service.
#[derive(Debug, PartialEq, Eq)]
pub struct StatsResponse {
    pub l1_cache_hits: i64,
    pub l1_cache_misses: i64,
    pub l1_cache_size_bytes: i64,
    pub l2_reads_total: i64,
    pub l2_writes_total: i64,
    pub l2_bytes_read: i64,
    pub l2_bytes_written: i64,
    pub metadata_entries: i64,
    pub devices: Vec<String>,
}

/// The mathematical content of a [`StatsResponse`].
#[verifier::ext_equal]
pub struct StatsResponseView {
    pub l1_cache_hits: i64,
    pub l1_cache_misses: i64,
    pub l1_cache_size_bytes: i64,
    pub l2_reads_total: i64,
    pub l2_writes_total: i64,
    pub l2_bytes_read: i64,
    pub l2_bytes_written: i64,
    pub metadata_entries: i64,
    pub devices: Seq<Seq<char>>,
}

impl DeepView for StatsResponse {
    type V = StatsResponseView;

    open spec fn deep_view(&self) -> StatsResponseView {
        StatsResponseView {
            l1_cache_hits: self.l1_cache_hits,
            l1_cache_misses: self.l1_cache_misses,
            l1_cache_size_bytes: self.l1_cache_size_bytes,
            l2_reads_total: self.l2_reads_total,
            l2_writes_total: self.l2_writes_total,
            l2_bytes_read: self.l2_bytes_read,
            l2_bytes_written: self.l2_bytes_written,
            metadata_entries: self.metadata_entries,
            devices: self.devices.deep_view(),
        }
    }
}

/// A request for an object.
#[derive(Debug, PartialEq, Eq)]
pub struct GetRequest {
    pub key: Option<ObjectKey>,
}

/// An object, or the word that there is none.
#[derive(Debug, PartialEq, Eq)]
pub struct GetResponse {
    pub data: Bytes,
    pub metadata: Option<KvMetadata>,
    pub found: bool,
}

/// The mathematical content of a [`GetResponse`].
#[verifier::ext_equal]
pub struct GetResponseView {
    pub data: Seq<u8>,
    pub metadata: Option<KvMetadataView>,
    pub found: bool,
}

impl DeepView for GetResponse {
    type V = GetResponseView;

    open spec fn deep_view(&self) -> GetResponseView {
        GetResponseView {
            data: bytes_of(self.data),
            metadata: self.metadata.deep_view(),
            found: self.found,
        }
    }
}

/// A request to store an object.
#[derive(Debug, PartialEq, Eq)]
pub struct PutRequest {
    pub key: Option<ObjectKey>,
    pub data: Bytes,
    pub metadata: Option<KvMetadata>,
    pub options: Option<PutOptions>,
}

/// The outcome of a write.
#[derive(Debug, PartialEq, Eq)]
pub struct PutResponse {
    pub success: bool,
    pub message: String,
}

/// The mathematical content of a [`PutResponse`].
#[verifier::ext_equal]
pub struct PutResponseView {
    pub success: bool,
    pub message: Seq<char>,
}

impl DeepView for PutResponse {
    type V = PutResponseView;

    open spec fn deep_view(&self) -> PutResponseView {
        PutResponseView {
            success: self.success,
            message: self.message@,
        }
    }
}

/// A request to remove an object.
#[derive(Debug, PartialEq, Eq)]
pub struct DeleteRequest {
    pub key: Option<ObjectKey>,
}

/// The outcome of a removal.
#[derive(Debug, PartialEq, Eq)]
pub struct DeleteResponse {
    pub success: bool,
}

/// The mathematical content of a [`DeleteResponse`].
#[verifier::ext_equal]
pub struct DeleteResponseView {
    pub success: bool,
}

impl DeepView for DeleteResponse {
    type V = DeleteResponseView;

    open spec fn deep_view(&self) -> DeleteResponseView {
        DeleteResponseView {
            success: self.success,
        }
    }
}

/// A question whether an object exists.
#[derive(Debug, PartialEq, Eq)]
pub struct ExistsRequest {
    pub key: Option<ObjectKey>,
}

/// The answer whether an object exists.
#[derive(Debug, PartialEq, Eq)]
pub struct ExistsResponse {
    pub exists: bool,
}

/// The mathematical content of a [`ExistsResponse`].
#[verifier::ext_equal]
pub struct ExistsResponseView {
    pub exists: bool,
}

impl DeepView for ExistsResponse {
    type V = ExistsResponseView;

    open spec fn deep_view(&self) -> ExistsResponseView {
        ExistsResponseView {
            exists: self.exists,
        }
    }
}

/// A request for the descriptor and the placement of an object.
#[derive(Debug, PartialEq, Eq)]
pub struct LookupObjectRequest {
    pub key: Option<ObjectKey>,
}

/// The descriptor and the placement of an object, where it exists.
#[derive(Debug, PartialEq, Eq)]
pub struct LookupObjectResponse {
    pub found: bool,
    pub descriptor: Option<ObjectDescriptor>,
    pub placement: Option<PlacementDescriptor>,
}

/// The mathematical content of a [`LookupObjectResponse`].
#[verifier::ext_equal]
pub struct LookupObjectResponseView {
    pub found: bool,
    pub descriptor: Option<ObjectDescriptorView>,
    pub placement: Option<PlacementDescriptorView>,
}

impl DeepView for LookupObjectResponse {
    type V = LookupObjectResponseView;

    open spec fn deep_view(&self) -> LookupObjectResponseView {
        LookupObjectResponseView {
            found: self.found,
            descriptor: self.descriptor.deep_view(),
            placement: self.placement.deep_view(),
        }
    }
}

/// A request for the version of an object that a descriptor names.
#[derive(Debug, PartialEq, Eq)]
pub struct ReadByDescriptorRequest {
    pub descriptor: Option<ObjectDescriptor>,
    pub placement: Option<PlacementDescriptor>,
}

/// The version of an object that a descriptor names.
#[derive(Debug, PartialEq, Eq)]
pub struct DataReadResponse {
    pub found: bool,
    pub data: Bytes,
    pub metadata: Option<KvMetadata>,
    pub descriptor: Option<ObjectDescriptor>,
    pub placement: Option<PlacementDescriptor>,
}

/// The mathematical content of a [`DataReadResponse`].
#[verifier::ext_equal]
pub struct DataReadResponseView {
    pub found: bool,
    pub data: Seq<u8>,
    pub metadata: Option<KvMetadataView>,
    pub descriptor: Option<ObjectDescriptorView>,
    pub placement: Option<PlacementDescriptorView>,
}

impl DeepView for DataReadResponse {
    type V = DataReadResponseView;

    open spec fn deep_view(&self) -> DataReadResponseView {
        DataReadResponseView {
            found: self.found,
            data: bytes_of(self.data),
            metadata: self.metadata.deep_view(),
            descriptor: self.descriptor.deep_view(),
            placement: self.placement.deep_view(),
        }
    }
}

/// A request to store one stripe on the node that receives it.
#[derive(Debug, PartialEq, Eq)]
pub struct PutPlacementChunkRequest {
    pub key: Option<ObjectKey>,
    pub descriptor: Option<ObjectDescriptor>,
    pub stripe_index: u32,
    pub chunk_size: u64,
    pub total_size: u64,
    pub data: Bytes,
}

/// The mathematical content of a [`PutPlacementChunkRequest`].
#[verifier::ext_equal]
pub struct PutPlacementChunkRequestView {
    pub key: Option<ObjectKeyView>,
    pub descriptor: Option<ObjectDescriptorView>,
    pub stripe_index: u32,
    pub chunk_size: u64,
    pub total_size: u64,
    pub data: Seq<u8>,
}

impl DeepView for PutPlacementChunkRequest {
    type V = PutPlacementChunkRequestView;

    open spec fn deep_view(&self) -> PutPlacementChunkRequestView {
        PutPlacementChunkRequestView {
            key: self.key.deep_view(),
            descriptor: self.descriptor.deep_view(),
            stripe_index: self.stripe_index,
            chunk_size: self.chunk_size,
            total_size: self.total_size,
            data: bytes_of(self.data),
        }
    }
}

/// Where a node has stored a stripe.
#[derive(Debug, PartialEq, Eq)]
pub struct PutPlacementChunkResponse {
    pub success: bool,
    pub chunk: Option<PlacementChunk>,
}

/// The mathematical content of a [`PutPlacementChunkResponse`].
#[verifier::ext_equal]
pub struct PutPlacementChunkResponseView {
    pub success: bool,
    pub chunk: Option<PlacementChunkView>,
}

impl DeepView for PutPlacementChunkResponse {
    type V = PutPlacementChunkResponseView;

    open spec fn deep_view(&self) -> PutPlacementChunkResponseView {
        PutPlacementChunkResponseView {
            success: self.success,
            chunk: self.chunk.deep_view(),
        }
    }
}

/// A request for one stripe.
#[derive(Debug, PartialEq, Eq)]
pub struct ReadPlacementChunkRequest {
    pub descriptor: Option<ObjectDescriptor>,
    pub chunk: Option<PlacementChunk>,
}

/// The mathematical content of a [`ReadPlacementChunkRequest`].
#[verifier::ext_equal]
pub struct ReadPlacementChunkRequestView {
    pub descriptor: Option<ObjectDescriptorView>,
    pub chunk: Option<PlacementChunkView>,
}

impl DeepView for ReadPlacementChunkRequest {
    type V = ReadPlacementChunkRequestView;

    open spec fn deep_view(&self) -> ReadPlacementChunkRequestView {
        ReadPlacementChunkRequestView {
            descriptor: self.descriptor.deep_view(),
            chunk: self.chunk.deep_view(),
        }
    }
}

/// A request to remove one stripe.
#[derive(Debug, PartialEq, Eq)]
pub struct DeletePlacementChunkRequest {
    pub chunk: Option<PlacementChunk>,
}

/// The mathematical content of a [`DeletePlacementChunkRequest`].
#[verifier::ext_equal]
pub struct DeletePlacementChunkRequestView {
    pub chunk: Option<PlacementChunkView>,
}

impl DeepView for DeletePlacementChunkRequest {
    type V = DeletePlacementChunkRequestView;

    open spec fn deep_view(&self) -> DeletePlacementChunkRequestView {
        DeletePlacementChunkRequestView {
            chunk: self.chunk.deep_view(),
        }
    }
}

/// Whether there was a stripe to remove.
#[derive(Debug, PartialEq, Eq)]
pub struct DeletePlacementChunkResponse {
    pub success: bool,
}

/// The mathematical content of a [`DeletePlacementChunkResponse`].
#[verifier::ext_equal]
pub struct DeletePlacementChunkResponseView {
    pub success: bool,
}

impl DeepView for DeletePlacementChunkResponse {
    type V = DeletePlacementChunkResponseView;

    open spec fn deep_view(&self) -> DeletePlacementChunkResponseView {
        DeletePlacementChunkResponseView {
            success: self.success,
        }
    }
}

/// One piece of a streamed object.
#[derive(Debug, PartialEq, Eq)]
pub struct DataChunk {
    pub data: Bytes,
    pub offset: i64,
    pub total_size: i64,
    pub is_last: bool,
}

/// The mathematical content of a [`DataChunk`].
#[verifier::ext_equal]
pub struct DataChunkView {
    pub data: Seq<u8>,
    pub offset: i64,
    pub total_size: i64,
    pub is_last: bool,
}

impl DeepView for DataChunk {
    type V = DataChunkView;

    open spec fn deep_view(&self) -> DataChunkView {
        DataChunkView {
            data: bytes_of(self.data),
            offset: self.offset,
            total_size: self.total_size,
            is_last: self.is_last,
        }
    }
}

/// One piece of an object streamed by descriptor.
#[derive(Debug, PartialEq, Eq)]
pub struct DescriptorDataChunk {
    pub data: Bytes,
    pub offset: i64,
    pub total_size: i64,
    pub is_last: bool,
    pub descriptor: Option<ObjectDescriptor>,
    pub placement: Option<PlacementDescriptor>,
}

/// The mathematical content of a [`DescriptorDataChunk`].
#[verifier::ext_equal]
pub struct DescriptorDataChunkView {
    pub data: Seq<u8>,
    pub offset: i64,
    pub total_size: i64,
    pub is_last: bool,
    pub descriptor: Option<ObjectDescriptorView>,
    pub placement: Option<PlacementDescriptorView>,
}

impl DeepView for DescriptorDataChunk {
    type V = DescriptorDataChunkView;

    open spec fn deep_view(&self) -> DescriptorDataChunkView {
        DescriptorDataChunkView {
            data: bytes_of(self.data),
            offset: self.offset,
            total_size: self.total_size,
            is_last: self.is_last,
            descriptor: self.descriptor.deep_view(),
            placement: self.placement.deep_view(),
        }
    }
}

/// One piece of a streamed write. The first one names the object.
#[derive(Debug, PartialEq, Eq)]
pub struct PutChunk {
    pub key: Option<ObjectKey>,
    pub metadata: Option<KvMetadata>,
    pub options: Option<PutOptions>,
    pub total_size: i64,
    pub data: Bytes,
    pub is_last: bool,
}

/// The mathematical content of a [`PutChunk`].
#[verifier::ext_equal]
pub struct PutChunkView {
    pub key: Option<ObjectKeyView>,
    pub metadata: Option<KvMetadataView>,
    pub options: Option<PutOptionsView>,
    pub total_size: i64,
    pub data: Seq<u8>,
    pub is_last: bool,
}

impl DeepView for PutChunk {
    type V = PutChunkView;

    open spec fn deep_view(&self) -> PutChunkView {
        PutChunkView {
            key: self.key.deep_view(),
            metadata: self.metadata.deep_view(),
            options: self.options.deep_view(),
            total_size: self.total_size,
            data: bytes_of(self.data),
            is_last: self.is_last,
        }
    }
}

/// A request for several objects.
#[derive(Debug, PartialEq, Eq)]
pub struct GetBatchRequest {
    pub keys: Vec<ObjectKey>,
}

/// One answer for each key of a batch, in the order of the keys.
#[derive(Debug, PartialEq, Eq)]
pub struct GetBatchResponse {
    pub results: Vec<GetResponse>,
}

/// The mathematical content of a [`GetBatchResponse`].
#[verifier::ext_equal]
pub struct GetBatchResponseView {
    pub results: Seq<GetResponseView>,
}

impl DeepView for GetBatchResponse {
    type V = GetBatchResponseView;

    open spec fn deep_view(&self) -> GetBatchResponseView {
        GetBatchResponseView {
            results: self.results.deep_view(),
        }
    }
}

/// Several writes.
#[derive(Debug, PartialEq, Eq)]
pub struct PutBatchRequest {
    pub items: Vec<PutRequest>,
}

/// One outcome for each write of a batch, in the order of the writes.
#[derive(Debug, PartialEq, Eq)]
pub struct PutBatchResponse {
    pub success: Vec<bool>,
}

/// A request to read an object into device memory.
#[derive(Debug, PartialEq, Eq)]
pub struct GetToGpuRequest {
    pub key: Option<ObjectKey>,
    pub ipc_handle: Vec<u8>,
    pub buf_size: u64,
    pub gpu_device: i32,
}

/// The outcome of a read into device memory.
#[derive(Debug, PartialEq, Eq)]
pub struct GetToGpuResponse {
    pub found: bool,
    pub bytes_read: u64,
    pub metadata: Option<KvMetadata>,
}

/// The mathematical content of a [`GetToGpuResponse`].
#[verifier::ext_equal]
pub struct GetToGpuResponseView {
    pub found: bool,
    pub bytes_read: u64,
    pub metadata: Option<KvMetadataView>,
}

impl DeepView for GetToGpuResponse {
    type V = GetToGpuResponseView;

    open spec fn deep_view(&self) -> GetToGpuResponseView {
        GetToGpuResponseView {
            found: self.found,
            bytes_read: self.bytes_read,
            metadata: self.metadata.deep_view(),
        }
    }
}

/// A request to store an object from device memory.
#[derive(Debug, PartialEq, Eq)]
pub struct PutFromGpuRequest {
    pub key: Option<ObjectKey>,
    pub ipc_handle: Vec<u8>,
    pub buf_size: u64,
    pub gpu_device: i32,
    pub metadata: Option<KvMetadata>,
}

/// Whether the service answers requests.
#[derive(Debug, Clone, Copy, PartialEq, Eq)]
pub enum ServingStatus {
    Serving,
    NotServing,
}

} // verus!
