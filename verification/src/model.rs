//! The service's own records: keys, block metadata, cluster configuration.
use vstd::prelude::*;

verus! {

/// The key of an object: a namespace and a name inside it.
#[derive(Debug, PartialEq, Eq)]
pub struct InternalKey {
    pub namespace: String,
    pub object_key: String,
}

/// The mathematical content of a [`InternalKey`].
#[verifier::ext_equal]
pub struct InternalKeyView {
    pub namespace: Seq<char>,
    pub object_key: Seq<char>,
}

impl DeepView for InternalKey {
    type V = InternalKeyView;

    open spec fn deep_view(&self) -> InternalKeyView {
        InternalKeyView {
            namespace: self.namespace@,
            object_key: self.object_key@,
        }
    }
}

impl Clone for InternalKey {
    fn clone(&self) -> (r: Self)
        ensures
            r.deep_view() == self.deep_view(),
    {
        InternalKey {
            namespace: self.namespace.clone(),
            object_key: self.object_key.clone(),
        }
    }
}

/// Where one stripe of an object is stored.
#[derive(Debug, PartialEq, Eq)]
pub struct ChunkLocation {
    pub stripe_index: u32,
    pub node_id: String,
    pub grpc_endpoint: String,
    pub rdma_endpoint: String,
    pub device_id: u32,
    pub storage_handle: String,
    pub offset: u64,
    pub length: u64,
}

/// The mathematical content of a [`ChunkLocation`].
#[verifier::ext_equal]
pub struct ChunkLocationView {
    pub stripe_index: u32,
    pub node_id: Seq<char>,
    pub grpc_endpoint: Seq<char>,
    pub rdma_endpoint: Seq<char>,
    pub device_id: u32,
    pub storage_handle: Seq<char>,
    pub offset: u64,
    pub length: u64,
}

impl DeepView for ChunkLocation {
    type V = ChunkLocationView;

    open spec fn deep_view(&self) -> ChunkLocationView {
        ChunkLocationView {
            stripe_index: self.stripe_index,
            node_id: self.node_id@,
            grpc_endpoint: self.grpc_endpoint@,
            rdma_endpoint: self.rdma_endpoint@,
            device_id: self.device_id,
            storage_handle: self.storage_handle@,
            offset: self.offset,
            length: self.length,
        }
    }
}

impl Clone for ChunkLocation {
    fn clone(&self) -> (r: Self)
        ensures
            r.deep_view() == self.deep_view(),
    {
        ChunkLocation {
            stripe_index: self.stripe_index,
            node_id: self.node_id.clone(),
            grpc_endpoint: self.grpc_endpoint.clone(),
            rdma_endpoint: self.rdma_endpoint.clone(),
            device_id: self.device_id,
            storage_handle: self.storage_handle.clone(),
            offset: self.offset,
            length: self.length,
        }
    }
}

/// How an object is cut into stripes, and where they are.
#[derive(Debug, PartialEq, Eq)]
pub struct StripingInfo {
    pub chunk_size: u64,
    pub chunk_devices: Vec<u32>,
    pub chunk_paths: Vec<String>,
    pub total_size: u64,
    pub chunk_locations: Vec<ChunkLocation>,
}

/// The mathematical content of a [`StripingInfo`].
#[verifier::ext_equal]
pub struct StripingInfoView {
    pub chunk_size: u64,
    pub chunk_devices: Seq<u32>,
    pub chunk_paths: Seq<Seq<char>>,
    pub total_size: u64,
    pub chunk_locations: Seq<ChunkLocationView>,
}

impl DeepView for StripingInfo {
    type V = StripingInfoView;

    open spec fn deep_view(&self) -> StripingInfoView {
        StripingInfoView {
            chunk_size: self.chunk_size,
            chunk_devices: self.chunk_devices.deep_view(),
            chunk_paths: self.chunk_paths.deep_view(),
            total_size: self.total_size,
            chunk_locations: self.chunk_locations.deep_view(),
        }
    }
}

impl Clone for StripingInfo {
    fn clone(&self) -> (r: Self)
        ensures
            r.deep_view() == self.deep_view(),
    {
        StripingInfo {
            chunk_size: self.chunk_size,
            chunk_devices: self.chunk_devices.clone(),
            chunk_paths: self.chunk_paths.clone(),
            total_size: self.total_size,
            chunk_locations: self.chunk_locations.clone(),
        }
    }
}

/// The metadata record of a stored object.
#[derive(Debug, PartialEq, Eq)]
pub struct BlockMeta {
    pub device_id: u32,
    pub file_path: String,
    pub size: u64,
    pub object_handle: String,
    pub object_generation: u64,
    pub content_etag: String,
    pub layout_version: u32,
    pub created_at: i64,
    pub last_accessed_at: i64,
    pub ttl_seconds: i64,
    pub num_tokens: i64,
    pub num_layers: i32,
    pub dtype: String,
    pub compressed: bool,
    pub striping: Option<StripingInfo>,
}

/// The mathematical content of a [`BlockMeta`].
#[verifier::ext_equal]
pub struct BlockMetaView {
    pub device_id: u32,
    pub file_path: Seq<char>,
    pub size: u64,
    pub object_handle: Seq<char>,
    pub object_generation: u64,
    pub content_etag: Seq<char>,
    pub layout_version: u32,
    pub created_at: i64,
    pub last_accessed_at: i64,
    pub ttl_seconds: i64,
    pub num_tokens: i64,
    pub num_layers: i32,
    pub dtype: Seq<char>,
    pub compressed: bool,
    pub striping: Option<StripingInfoView>,
}

impl DeepView for BlockMeta {
    type V = BlockMetaView;

    open spec fn deep_view(&self) -> BlockMetaView {
        BlockMetaView {
            device_id: self.device_id,
            file_path: self.file_path@,
            size: self.size,
            object_handle: self.object_handle@,
            object_generation: self.object_generation,
            content_etag: self.content_etag@,
            layout_version: self.layout_version,
            created_at: self.created_at,
            last_accessed_at: self.last_accessed_at,
            ttl_seconds: self.ttl_seconds,
            num_tokens: self.num_tokens,
            num_layers: self.num_layers,
            dtype: self.dtype@,
            compressed: self.compressed,
            striping: self.striping.deep_view(),
        }
    }
}

impl Clone for BlockMeta {
    fn clone(&self) -> (r: Self)
        ensures
            r.deep_view() == self.deep_view(),
    {
        BlockMeta {
            device_id: self.device_id,
            file_path: self.file_path.clone(),
            size: self.size,
            object_handle: self.object_handle.clone(),
            object_generation: self.object_generation,
            content_etag: self.content_etag.clone(),
            layout_version: self.layout_version,
            created_at: self.created_at,
            last_accessed_at: self.last_accessed_at,
            ttl_seconds: self.ttl_seconds,
            num_tokens: self.num_tokens,
            num_layers: self.num_layers,
            dtype: self.dtype.clone(),
            compressed: self.compressed,
            striping: self.striping.clone(),
        }
    }
}

/// A node of the cluster that stores objects.
#[derive(Debug, PartialEq, Eq)]
pub struct DataNode {
    pub node_id: String,
    pub grpc_endpoint: String,
    pub rdma_endpoint: String,
}

/// The mathematical content of a [`DataNode`].
#[verifier::ext_equal]
pub struct DataNodeView {
    pub node_id: Seq<char>,
    pub grpc_endpoint: Seq<char>,
    pub rdma_endpoint: Seq<char>,
}

impl DeepView for DataNode {
    type V = DataNodeView;

    open spec fn deep_view(&self) -> DataNodeView {
        DataNodeView {
            node_id: self.node_id@,
            grpc_endpoint: self.grpc_endpoint@,
            rdma_endpoint: self.rdma_endpoint@,
        }
    }
}

impl Clone for DataNode {
    fn clone(&self) -> (r: Self)
        ensures
            r.deep_view() == self.deep_view(),
    {
        DataNode {
            node_id: self.node_id.clone(),
            grpc_endpoint: self.grpc_endpoint.clone(),
            rdma_endpoint: self.rdma_endpoint.clone(),
        }
    }
}

/// One data node, as the configuration lists it.
#[derive(Debug, PartialEq, Eq)]
pub struct ClusterNodeConfig {
    pub node_id: String,
    pub grpc_endpoint: String,
    pub rdma_endpoint: String,
}

/// The mathematical content of a [`ClusterNodeConfig`].
#[verifier::ext_equal]
pub struct ClusterNodeConfigView {
    pub node_id: Seq<char>,
    pub grpc_endpoint: Seq<char>,
    pub rdma_endpoint: Seq<char>,
}

impl DeepView for ClusterNodeConfig {
    type V = ClusterNodeConfigView;

    open spec fn deep_view(&self) -> ClusterNodeConfigView {
        ClusterNodeConfigView {
            node_id: self.node_id@,
            grpc_endpoint: self.grpc_endpoint@,
            rdma_endpoint: self.rdma_endpoint@,
        }
    }
}

/// The cluster section of the configuration.
#[derive(Debug, PartialEq, Eq)]
pub struct ClusterConfig {
    pub node_id: String,
    pub grpc_advertise: String,
    pub rdma_advertise: String,
    pub data_nodes: Vec<ClusterNodeConfig>,
}

/// The mathematical content of a [`ClusterConfig`].
#[verifier::ext_equal]
pub struct ClusterConfigView {
    pub node_id: Seq<char>,
    pub grpc_advertise: Seq<char>,
    pub rdma_advertise: Seq<char>,
    pub data_nodes: Seq<ClusterNodeConfigView>,
}

impl DeepView for ClusterConfig {
    type V = ClusterConfigView;

    open spec fn deep_view(&self) -> ClusterConfigView {
        ClusterConfigView {
            node_id: self.node_id@,
            grpc_advertise: self.grpc_advertise@,
            rdma_advertise: self.rdma_advertise@,
            data_nodes: self.data_nodes.deep_view(),
        }
    }
}

/// The API section of the configuration.
#[derive(Debug, PartialEq, Eq)]
pub struct ApiConfig {
    pub listen: String,
}

/// The mathematical content of a [`ApiConfig`].
#[verifier::ext_equal]
pub struct ApiConfigView {
    pub listen: Seq<char>,
}

impl DeepView for ApiConfig {
    type V = ApiConfigView;

    open spec fn deep_view(&self) -> ApiConfigView {
        ApiConfigView {
            listen: self.listen@,
        }
    }
}

/// The router section of the configuration: the name of the placement strategy.
#[derive(Debug, PartialEq, Eq)]
pub struct RouterConfig {
    pub strategy: String,
}

/// The mathematical content of a [`RouterConfig`].
#[verifier::ext_equal]
pub struct RouterConfigView {
    pub strategy: Seq<char>,
}

impl DeepView for RouterConfig {
    type V = RouterConfigView;

    open spec fn deep_view(&self) -> RouterConfigView {
        RouterConfigView {
            strategy: self.strategy@,
        }
    }
}

/// The configuration that the service reads.
#[derive(Debug, PartialEq, Eq)]
pub struct Config {
    pub cluster: ClusterConfig,
    pub api: ApiConfig,
    pub router: RouterConfig,
}

/// The mathematical content of a [`Config`].
#[verifier::ext_equal]
pub struct ConfigView {
    pub cluster: ClusterConfigView,
    pub api: ApiConfigView,
    pub router: RouterConfigView,
}

impl DeepView for Config {
    type V = ConfigView;

    open spec fn deep_view(&self) -> ConfigView {
        ConfigView {
            cluster: self.cluster.deep_view(),
            api: self.api.deep_view(),
            router: self.router.deep_view(),
        }
    }
}

/// When the storage tier stripes an object, and how large a stripe is.
#[derive(Debug, PartialEq, Eq)]
pub struct StorageLimits {
    pub striping_threshold: u64,
    pub striping_chunk_size: u64,
}

/// The mathematical content of a [`StorageLimits`].
#[verifier::ext_equal]
pub struct StorageLimitsView {
    pub striping_threshold: u64,
    pub striping_chunk_size: u64,
}

impl DeepView for StorageLimits {
    type V = StorageLimitsView;

    open spec fn deep_view(&self) -> StorageLimitsView {
        StorageLimitsView {
            striping_threshold: self.striping_threshold,
            striping_chunk_size: self.striping_chunk_size,
        }
    }
}

/// What every request of the service has at hand.
#[derive(Debug, PartialEq, Eq)]
pub struct KVServiceContext {
    pub config: Config,
    pub storage: StorageLimits,
}

/// The mathematical content of a [`KVServiceContext`].
#[verifier::ext_equal]
pub struct KVServiceContextView {
    pub config: ConfigView,
    pub storage: StorageLimitsView,
}

impl DeepView for KVServiceContext {
    type V = KVServiceContextView;

    open spec fn deep_view(&self) -> KVServiceContextView {
        KVServiceContextView {
            config: self.config.deep_view(),
            storage: self.storage.deep_view(),
        }
    }
}

/// What the process environment says of this node: the values of `CS_NODE_ID`,
/// `CS_GRPC_ADVERTISE` and `CS_RDMA_ADVERTISE`, where they are set.
#[derive(Debug, PartialEq, Eq)]
pub struct NodeEnv {
    pub node_id: Option<String>,
    pub grpc_advertise: Option<String>,
    pub rdma_advertise: Option<String>,
}

/// The mathematical content of a [`NodeEnv`].
#[verifier::ext_equal]
pub struct NodeEnvView {
    pub node_id: Option<Seq<char>>,
    pub grpc_advertise: Option<Seq<char>>,
    pub rdma_advertise: Option<Seq<char>>,
}

impl DeepView for NodeEnv {
    type V = NodeEnvView;

    open spec fn deep_view(&self) -> NodeEnvView {
        NodeEnvView {
            node_id: self.node_id.deep_view(),
            grpc_advertise: self.grpc_advertise.deep_view(),
            rdma_advertise: self.rdma_advertise.deep_view(),
        }
    }
}

} // verus!
