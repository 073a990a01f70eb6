use kv_service::model::{
    ApiConfig, BlockMeta, ChunkLocation, ClusterConfig, ClusterNodeConfig, Config, InternalKey,
    KVServiceContext, NodeEnv, RouterConfig, StorageLimits, StripingInfo,
};
use kv_service::placement::{
    placement_from_meta, placement_has_remote_chunks, placement_offsets_fit,
};
use twox_hash::xxh3::hash64;

fn meta() -> BlockMeta {
    BlockMeta {
        device_id: 0,
        file_path: "/tmp/object.bin".to_string(),
        size: 128,
        object_handle: "handle-2".to_string(),
        object_generation: 2,
        content_etag: "etag-2".to_string(),
        layout_version: 1,
        created_at: 0,
        last_accessed_at: 0,
        ttl_seconds: 0,
        num_tokens: 16,
        num_layers: 1,
        dtype: "bfloat16".to_string(),
        compressed: false,
        striping: None,
    }
}

fn key() -> InternalKey {
    InternalKey { namespace: "test".to_string(), object_key: "object".to_string() }
}

fn context() -> KVServiceContext {
    KVServiceContext {
        config: Config {
            cluster: ClusterConfig {
                node_id: "coordinator".to_string(),
                grpc_advertise: "127.0.0.1:50051".to_string(),
                rdma_advertise: String::new(),
                data_nodes: Vec::<ClusterNodeConfig>::new(),
            },
            api: ApiConfig { listen: "0.0.0.0:50051".to_string() },
            router: RouterConfig { strategy: "consistent_hash".to_string() },
        },
        storage: StorageLimits { striping_threshold: 0, striping_chunk_size: 4 },
    }
}

fn no_env() -> NodeEnv {
    NodeEnv { node_id: None, grpc_advertise: None, rdma_advertise: None }
}

fn location(stripe_index: u32, node_id: &str, endpoint: &str, handle: &str) -> ChunkLocation {
    ChunkLocation {
        stripe_index,
        node_id: node_id.to_string(),
        grpc_endpoint: endpoint.to_string(),
        rdma_endpoint: String::new(),
        device_id: 0,
        storage_handle: handle.to_string(),
        offset: stripe_index as u64 * 6,
        length: 6,
    }
}

fn located() -> BlockMeta {
    let mut meta = meta();
    meta.size = 12;
    meta.file_path.clear();
    meta.striping = Some(StripingInfo {
        chunk_size: 6,
        chunk_devices: vec![0, 0],
        chunk_paths: vec!["/tmp/a".to_string(), "/tmp/b".to_string()],
        total_size: 12,
        chunk_locations: vec![
            location(0, "node-a", "10.0.0.1:50051", "/tmp/a"),
            location(1, "node-b", "10.0.0.2:50051", "/tmp/b"),
        ],
    });
    meta
}

#[test]
fn placement_uses_materialized_chunk_locations() {
    let placement = placement_from_meta(&context(), &no_env(), &key(), "test/object", &located());
    assert_eq!(placement.chunks.len(), 2);
    assert_eq!(placement.chunks[0].node_id, "node-a");
    assert_eq!(placement.chunks[1].grpc_endpoint, "10.0.0.2:50051");
}

#[test]
fn whole_object_is_one_local_chunk() {
    let mut meta = meta();
    meta.device_id = 5;
    let mut ctx = context();
    ctx.config.cluster.rdma_advertise = "rdma:9".to_string();
    let placement = placement_from_meta(&ctx, &no_env(), &key(), "test/object", &meta);
    assert_eq!(placement.placement_epoch, 1);
    assert_eq!(placement.placement_policy_id, "consistent_hash_v1");
    assert_eq!(placement.primary_node_id, "coordinator");
    assert_eq!(placement.primary_grpc_endpoint, "127.0.0.1:50051");
    assert_eq!(placement.primary_rdma_endpoint, "rdma:9");
    assert_eq!(placement.chunks.len(), 1);
    let chunk = &placement.chunks[0];
    assert_eq!((chunk.stripe_index, chunk.device_id, chunk.offset, chunk.length), (0, 5, 0, 128));
    assert_eq!(chunk.storage_handle, "/tmp/object.bin");
    assert!(!placement_has_remote_chunks(&ctx, &no_env(), &placement));
    let seed = "test/object|g2|l1|consistent_hash_v1|1|0:coordinator:5:0:/tmp/object.bin";
    assert_eq!(placement.layout_hash, format!("{:016x}", hash64(seed.as_bytes())));
    assert_eq!(placement.layout_hash.len(), 16);
}

#[test]
fn layout_hash_covers_every_chunk() {
    let placement = placement_from_meta(&context(), &no_env(), &key(), "test/object", &located());
    let seed = "test/object|g2|l1|consistent_hash_v1|2|0:node-a:0:0:/tmp/a|1:node-b:0:6:/tmp/b";
    assert_eq!(placement.layout_hash, format!("{:016x}", hash64(seed.as_bytes())));
}

#[test]
fn unlocated_stripes_are_computed() {
    let mut meta = located();
    let striping = meta.striping.as_mut().unwrap();
    striping.chunk_locations.clear();
    striping.chunk_paths.push("/tmp/c".to_string());
    striping.chunk_paths.push("/tmp/d".to_string());
    striping.chunk_devices = vec![3, 4];
    striping.total_size = 14;
    let placement = placement_from_meta(&context(), &no_env(), &key(), "test/object", &meta);
    let got: Vec<(u32, u32, u64, u64, &str)> = placement
        .chunks
        .iter()
        .map(|c| (c.stripe_index, c.device_id, c.offset, c.length, c.storage_handle.as_str()))
        .collect();
    assert_eq!(
        got,
        vec![
            (0, 3, 0, 6, "/tmp/a"),
            (1, 4, 6, 6, "/tmp/b"),
            (2, 0, 12, 2, "/tmp/c"),
            (3, 0, 18, 0, "/tmp/d"),
        ]
    );
    assert!(placement.chunks.iter().all(|c| c.node_id == "coordinator"));
    assert!(!placement_has_remote_chunks(&context(), &no_env(), &placement));
}

#[test]
fn remote_chunks_are_noticed() {
    let placement = placement_from_meta(&context(), &no_env(), &key(), "test/object", &located());
    assert!(placement_has_remote_chunks(&context(), &no_env(), &placement));
    let mut meta = located();
    for loc in &mut meta.striping.as_mut().unwrap().chunk_locations {
        loc.node_id = "coordinator".to_string();
    }
    let placement = placement_from_meta(&context(), &no_env(), &key(), "test/object", &meta);
    assert!(!placement_has_remote_chunks(&context(), &no_env(), &placement));
}

#[test]
fn offsets_beyond_the_machine_are_noticed() {
    assert!(placement_offsets_fit(&meta()));
    let mut meta = located();
    let striping = meta.striping.as_mut().unwrap();
    striping.chunk_size = u64::MAX;
    assert!(placement_offsets_fit(&meta));
    let striping = meta.striping.as_mut().unwrap();
    striping.chunk_locations.clear();
    assert!(placement_offsets_fit(&meta));
    let striping = meta.striping.as_mut().unwrap();
    striping.chunk_paths.push("/tmp/c".to_string());
    assert!(!placement_offsets_fit(&meta));
}
