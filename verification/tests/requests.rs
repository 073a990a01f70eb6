use kv_service::admin::{
    get_to_gpu_response, health_response, plan_get_to_gpu, plan_put_from_gpu, request_label,
    stats_response, GdsSupport,
};
use kv_service::convert::{descriptor_from_meta, internal_key_to_pb, missing_get_response};
use kv_service::messages::{
    GetRequest, GetToGpuRequest, ObjectKey, PutChunk, PutFromGpuRequest, PutOptions, PutRequest,
    ReadPlacementChunkRequest, ServingStatus,
};
use kv_service::model::{
    ApiConfig, BlockMeta, ChunkLocation, ClusterConfig, ClusterNodeConfig, Config, InternalKey,
    KVServiceContext, NodeEnv, RouterConfig, StorageLimits, StripingInfo,
};
use kv_service::placement::placement_from_meta;
use kv_service::reads::{
    absent_read_response, check_read_chunk, delete_chunk_response, delete_distributed_chunks,
    delete_response, descriptor_source, exists_response, get_from_chunks, get_from_memory,
    lookup_response, object_source, read_outcome, read_response_from_chunks,
    read_response_from_storage, require_chunk, require_described_key, require_key,
    require_version, route_to_owner, stream_from_memory, stream_version_from_storage,
    DescriptorSource, ObjectSource, Route,
};
use kv_service::status::{chunk_stream_failure, peer_failure, Code, PeerCall};
use kv_service::writes::{
    memory_write, plan_put, plan_put_stream, put_response, put_stream_fits, put_stream_key,
    put_stream_total, replaced, MemoryWrite, PutStreamPlan,
};
use prost::bytes::Bytes;

const STR_KEY: &str = "test/object";

fn key() -> InternalKey {
    InternalKey { namespace: "test".to_string(), object_key: "object".to_string() }
}

fn pb_key() -> ObjectKey {
    internal_key_to_pb(&key())
}

fn meta() -> BlockMeta {
    BlockMeta {
        device_id: 0,
        file_path: "/tmp/object.bin".to_string(),
        size: 8,
        object_handle: "handle-2".to_string(),
        object_generation: 2,
        content_etag: "etag-2".to_string(),
        layout_version: 1,
        created_at: 0,
        last_accessed_at: 0,
        ttl_seconds: 0,
        num_tokens: 16,
        num_layers: 1,
        dtype: "bfloat16".to_string(),
        compressed: false,
        striping: None,
    }
}

fn spread_meta() -> BlockMeta {
    let mut meta = meta();
    let location = |stripe_index: u32, node: &str| ChunkLocation {
        stripe_index,
        node_id: format!("node-{}", node),
        grpc_endpoint: format!("10.0.0.{}:1", node),
        rdma_endpoint: String::new(),
        device_id: 0,
        storage_handle: format!("/h/{}", stripe_index),
        offset: stripe_index as u64 * 4,
        length: 4,
    };
    meta.striping = Some(StripingInfo {
        chunk_size: 4,
        chunk_devices: vec![0, 0],
        chunk_paths: vec!["/h/0".to_string(), "/h/1".to_string()],
        total_size: 8,
        chunk_locations: vec![location(0, "1"), location(1, "2")],
    });
    meta
}

fn context(local: &str) -> KVServiceContext {
    let node = |n: &str| ClusterNodeConfig {
        node_id: format!("node-{}", n),
        grpc_endpoint: format!("10.0.0.{}:1", n),
        rdma_endpoint: String::new(),
    };
    KVServiceContext {
        config: Config {
            cluster: ClusterConfig {
                node_id: format!("node-{}", local),
                grpc_advertise: format!("10.0.0.{}:1", local),
                rdma_advertise: String::new(),
                data_nodes: vec![node("1"), node("2"), node("3")],
            },
            api: ApiConfig { listen: "0.0.0.0:1".to_string() },
            router: RouterConfig { strategy: "hash".to_string() },
        },
        storage: StorageLimits { striping_threshold: 4, striping_chunk_size: 4 },
    }
}

fn no_env() -> NodeEnv {
    NodeEnv { node_id: None, grpc_advertise: None, rdma_advertise: None }
}

fn put_chunk(key: Option<ObjectKey>, data: &'static [u8]) -> PutChunk {
    PutChunk {
        key,
        metadata: None,
        options: Some(PutOptions { if_not_exists: true }),
        total_size: 0,
        data: Bytes::from_static(data),
        is_last: false,
    }
}

#[test]
fn key_is_required() {
    assert_eq!(require_key(&Some(pb_key())).unwrap(), key());
    let err = require_key(&None).unwrap_err();
    assert_eq!((err.code(), err.message.as_str()), (Code::InvalidArgument, "missing key"));
}

#[test]
fn descriptor_with_a_key_is_required() {
    let mut desc = descriptor_from_meta(&key(), STR_KEY, &meta());
    assert_eq!(require_described_key(&Some(desc.clone())).unwrap(), key());
    desc.key = None;
    assert_eq!(require_described_key(&Some(desc)).unwrap_err().message, "descriptor missing key");
    let err = require_described_key(&None).unwrap_err();
    assert_eq!((err.code(), err.message.as_str()), (Code::InvalidArgument, "missing descriptor"));
}

#[test]
fn request_goes_to_the_owner_once() {
    let mut kept = 0;
    for local in ["1", "2", "3"] {
        let request = GetRequest { key: Some(pb_key()) };
        match route_to_owner(&context(local), &no_env(), STR_KEY, request) {
            Route::Local { request } => {
                kept += 1;
                assert_eq!(request.key, Some(pb_key()));
            }
            Route::Owner { node, uri, request } => {
                assert_eq!(request.key, Some(pb_key()));
                assert_eq!(uri, format!("http://{}", node.grpc_endpoint));
                let owner = context(node.node_id.trim_start_matches("node-"));
                assert!(matches!(
                    route_to_owner(&owner, &no_env(), STR_KEY, request),
                    Route::Local { .. }
                ));
            }
        }
    }
    assert_eq!(kept, 1);
}

#[test]
fn object_comes_from_chunks_or_memory() {
    let ctx = context("1");
    assert!(matches!(object_source(&ctx, &no_env(), &key(), STR_KEY, None), ObjectSource::Memory));
    assert!(matches!(
        object_source(&ctx, &no_env(), &key(), STR_KEY, Some(meta())),
        ObjectSource::Memory
    ));
    match object_source(&ctx, &no_env(), &key(), STR_KEY, Some(spread_meta())) {
        ObjectSource::Chunks { meta, descriptor, placement } => {
            assert_eq!(meta.object_handle, "handle-2");
            assert_eq!(descriptor, descriptor_from_meta(&key(), STR_KEY, &spread_meta()));
            assert_eq!(placement.chunks.len(), 2);
        }
        ObjectSource::Memory => panic!("a stripe is elsewhere"),
    }
}

#[test]
fn read_is_answered() {
    let chunks = vec![Bytes::from_static(b"abcd"), Bytes::from_static(b"efgh")];
    let answer = get_from_chunks(&meta(), chunks);
    assert!(answer.found);
    assert_eq!(&answer.data[..], b"abcdefgh");
    assert_eq!(answer.metadata.unwrap().num_tokens, 16);
    assert_eq!(get_from_memory(None), missing_get_response());
    let answer = get_from_memory(Some((Bytes::from_static(b"x"), meta())));
    assert!(answer.found);
    assert_eq!(&answer.data[..], b"x");
    assert_eq!((read_outcome(true), read_outcome(false)), ("ok", "not_found"));
}

#[test]
fn stream_of_a_missing_object_fails() {
    let err = stream_from_memory(None).unwrap_err();
    assert_eq!((err.code(), err.message.as_str()), (Code::NotFound, "key not found"));
    let chunks = stream_from_memory(Some(vec![Bytes::from_static(b"ab")])).unwrap();
    assert_eq!(chunks.len(), 1);
    assert_eq!((chunks[0].offset, chunks[0].total_size, chunks[0].is_last), (0, 2, true));
}

#[test]
fn lookup_hands_out_descriptor_and_placement() {
    let ctx = context("1");
    let found = lookup_response(&ctx, &no_env(), &key(), STR_KEY, &Some(meta()));
    assert!(found.found);
    assert_eq!(found.descriptor, Some(descriptor_from_meta(&key(), STR_KEY, &meta())));
    assert_eq!(
        found.placement,
        Some(placement_from_meta(&ctx, &no_env(), &key(), STR_KEY, &meta()))
    );
    let missing = lookup_response(&ctx, &no_env(), &key(), STR_KEY, &None);
    assert!(!missing.found && missing.descriptor.is_none() && missing.placement.is_none());
}

#[test]
fn read_by_descriptor_checks_the_version() {
    let ctx = context("1");
    let fresh = descriptor_from_meta(&key(), STR_KEY, &meta());
    let source = |active: Option<BlockMeta>| {
        descriptor_source(&ctx, &no_env(), &key(), STR_KEY, &fresh, active)
    };
    assert!(matches!(source(None), Ok(DescriptorSource::Absent)));
    assert!(matches!(source(Some(meta())), Ok(DescriptorSource::Storage { .. })));
    assert!(matches!(source(Some(spread_meta())), Ok(DescriptorSource::Chunks { .. })));
    let mut newer = meta();
    newer.object_generation = 3;
    let err = source(Some(newer)).err().unwrap();
    assert_eq!((err.code(), err.message.as_str()), (Code::FailedPrecondition, "stale descriptor"));
}

#[test]
fn read_by_descriptor_is_answered() {
    let fresh = || descriptor_from_meta(&key(), STR_KEY, &meta());
    let placement = || placement_from_meta(&context("1"), &no_env(), &key(), STR_KEY, &meta());
    let answer = read_response_from_chunks(
        &meta(),
        fresh(),
        placement(),
        vec![Bytes::from_static(b"abcd"), Bytes::from_static(b"efgh")],
    );
    assert!(answer.found);
    assert_eq!(&answer.data[..], b"abcdefgh");
    assert_eq!(answer.descriptor, Some(fresh()));
    assert_eq!(answer.placement, Some(placement()));
    let answer = read_response_from_storage(
        &meta(),
        fresh(),
        placement(),
        Some(Bytes::from_static(b"abcd")),
    );
    assert_eq!(&answer.data[..], b"abcd");
    assert_eq!(answer.metadata.unwrap().num_layers, 1);
    assert_eq!(
        read_response_from_storage(&meta(), fresh(), placement(), None),
        absent_read_response()
    );
    assert!(!absent_read_response().found);
}

#[test]
fn stream_by_descriptor_needs_an_object() {
    let err = require_version(DescriptorSource::Absent).err().unwrap();
    assert_eq!((err.code(), err.message.as_str()), (Code::NotFound, "key not found"));
    let fresh = descriptor_from_meta(&key(), STR_KEY, &meta());
    let placement = placement_from_meta(&context("1"), &no_env(), &key(), STR_KEY, &meta());
    let storage = DescriptorSource::Storage {
        meta: meta(),
        fresh: fresh.clone(),
        placement: placement.clone(),
    };
    assert!(matches!(require_version(storage), Ok(DescriptorSource::Storage { .. })));
    assert_eq!(
        stream_version_from_storage(None, &fresh, &placement).unwrap_err().message,
        "key not found"
    );
    let segments = Some(vec![Bytes::from_static(b"ab")]);
    let chunks = stream_version_from_storage(segments, &fresh, &placement).unwrap();
    assert_eq!(chunks.len(), 1);
    assert_eq!(chunks[0].descriptor, Some(fresh));
}

#[test]
fn request_for_a_stripe_is_checked() {
    let placement = placement_from_meta(&context("1"), &no_env(), &key(), STR_KEY, &spread_meta());
    let desc = descriptor_from_meta(&key(), STR_KEY, &spread_meta());
    let request = |d: Option<kv_service::messages::ObjectDescriptor>, c: bool| {
        ReadPlacementChunkRequest {
            descriptor: d,
            chunk: if c { Some(placement.chunks[1].clone()) } else { None },
        }
    };
    let (k, d, c) = check_read_chunk(request(Some(desc.clone()), true)).unwrap();
    assert_eq!(k, key());
    assert_eq!(d, desc);
    assert_eq!(c, placement.chunks[1]);
    assert_eq!(check_read_chunk(request(None, false)).unwrap_err().message, "missing descriptor");
    assert_eq!(
        check_read_chunk(request(Some(desc.clone()), false)).unwrap_err().message,
        "missing placement chunk"
    );
    let mut keyless = desc;
    keyless.key = None;
    assert_eq!(
        check_read_chunk(request(Some(keyless), false)).unwrap_err().message,
        "descriptor missing key"
    );
    assert!(require_chunk(Some(placement.chunks[0].clone())).is_ok());
    let err = require_chunk(None).unwrap_err();
    assert_eq!(
        (err.code(), err.message.as_str()),
        (Code::InvalidArgument, "missing placement chunk")
    );
}

#[test]
fn removals_are_answered() {
    assert!(delete_distributed_chunks::<&str>(vec![Ok(()), Ok(())]).is_ok());
    assert!(delete_distributed_chunks::<&str>(vec![]).is_ok());
    assert_eq!(delete_distributed_chunks(vec![Ok(()), Err("a"), Err("b")]).unwrap_err(), "a");
    assert!(delete_response(true).success && !delete_response(false).success);
    assert!(delete_chunk_response(true).success && !delete_chunk_response(false).success);
    assert!(exists_response(true).exists && !exists_response(false).exists);
}

#[test]
fn write_is_planned() {
    let request = |data: &'static [u8], options: Option<PutOptions>| PutRequest {
        key: Some(pb_key()),
        data: Bytes::from_static(data),
        metadata: None,
        options,
    };
    let small = plan_put(&context("1"), &no_env(), key(), request(b"abcd", None));
    assert!(!small.spread && !small.if_not_exists);
    assert_eq!(small.key, key());
    assert_eq!(&small.data[..], b"abcd");
    let options = Some(PutOptions { if_not_exists: true });
    let large = plan_put(&context("1"), &no_env(), key(), request(b"abcde", options));
    assert!(large.spread && large.if_not_exists);
    assert_eq!(large.meta.object_generation, 1);
}

#[test]
fn refused_write_says_why() {
    let stored = put_response(true);
    assert!(stored.success);
    assert_eq!(stored.message, "");
    let refused = put_response(false);
    assert!(!refused.success);
    assert_eq!(refused.message, "already exists");
}

#[test]
fn only_conditional_writes_leave_what_is_there() {
    assert_eq!(memory_write(true), MemoryWrite::IfAbsent);
    assert_eq!(memory_write(false), MemoryWrite::Replace);
    assert_eq!(replaced::<&str>(Ok(())), Ok(true));
    assert_eq!(replaced(Err("io")), Err("io"));
}

#[test]
fn written_stream_begins_with_the_key() {
    let err = put_stream_key(&vec![]).unwrap_err();
    assert_eq!((err.code(), err.message.as_str()), (Code::InvalidArgument, "empty stream"));
    let chunks = vec![put_chunk(None, b"ab"), put_chunk(Some(pb_key()), b"cd")];
    assert_eq!(put_stream_key(&chunks).unwrap_err().message, "first chunk must include key");
    let chunks = vec![put_chunk(Some(pb_key()), b"ab"), put_chunk(None, b"cd")];
    assert_eq!(put_stream_key(&chunks).unwrap(), key());
}

#[test]
fn written_stream_is_counted() {
    assert!(!put_stream_fits(&context("1"), &no_env(), &vec![]));
    assert_eq!(put_stream_total(&vec![]), Some(0));
    let chunks = vec![put_chunk(Some(pb_key()), b"ab"), put_chunk(None, b"cde")];
    assert_eq!(put_stream_total(&chunks), Some(5));
    assert!(put_stream_fits(&context("1"), &no_env(), &chunks));
}

#[test]
fn written_stream_is_planned_by_its_size() {
    let small = vec![put_chunk(Some(pb_key()), b"ab"), put_chunk(None, b"cd")];
    match plan_put_stream(&context("1"), &no_env(), key(), small) {
        PutStreamPlan::Segments { key: k, segments, meta, if_not_exists } => {
            assert_eq!(k, key());
            assert_eq!(segments, vec![Bytes::from_static(b"ab"), Bytes::from_static(b"cd")]);
            assert_eq!(meta.dtype, "bfloat16");
            assert!(if_not_exists);
        }
        PutStreamPlan::Spread { .. } => panic!("the object is small"),
    }
    let mut large = vec![put_chunk(Some(pb_key()), b"ab"), put_chunk(None, b"cde")];
    large[0].total_size = 1;
    match plan_put_stream(&context("1"), &no_env(), key(), large) {
        PutStreamPlan::Spread { key: k, data, if_not_exists, .. } => {
            assert_eq!(k, key());
            assert_eq!(&data[..], b"abcde");
            assert!(if_not_exists);
        }
        PutStreamPlan::Segments { .. } => panic!("the object is large"),
    }
}

#[test]
fn service_is_healthy_and_counts() {
    let health = health_response("1.2.3");
    assert_eq!(health.status, ServingStatus::Serving);
    assert_eq!(health.version, "1.2.3");
    let stats = stats_response(3, 4, 5);
    assert_eq!((stats.l1_cache_hits, stats.l1_cache_misses), (3, 4));
    assert_eq!(stats.l1_cache_size_bytes, 5);
    assert_eq!((stats.l2_reads_total, stats.metadata_entries), (0, 0));
    assert!(stats.devices.is_empty());
}

#[test]
fn requests_are_counted_by_outcome() {
    assert_eq!(request_label("ok", None), "ok");
    assert_eq!(request_label("not_found", None), "not_found");
    assert_eq!(request_label("ok", Some(5)), "Some requested entity was not found");
    assert_eq!(request_label("ok", Some(13)), "Internal error");
    assert_eq!(request_label("ok", Some(99)), "Unknown error");
}

#[test]
fn device_transfer_is_checked() {
    let request = |key: Option<ObjectKey>, handle: usize, gpu_device: i32| GetToGpuRequest {
        key,
        ipc_handle: vec![7; handle],
        buf_size: 100,
        gpu_device,
    };
    let plan = plan_get_to_gpu(GdsSupport::Ready, request(Some(pb_key()), 64, 0)).ok().unwrap();
    assert_eq!(plan.key, key());
    assert_eq!(plan.ipc_handle, vec![7; 64]);
    assert_eq!((plan.buf_size, plan.device), (100, Some(0)));
    let plan = plan_get_to_gpu(GdsSupport::Ready, request(Some(pb_key()), 64, -1)).ok().unwrap();
    assert_eq!(plan.device, None);
    let refused = |support: GdsSupport, key: Option<ObjectKey>, handle: usize| {
        let err = plan_get_to_gpu(support, request(key, handle, 0)).err().unwrap();
        (err.code(), err.message)
    };
    assert_eq!(
        refused(GdsSupport::NotCompiled, None, 0),
        (
            Code::Unimplemented,
            "GDS path not compiled (rebuild with --features gds)".to_string()
        )
    );
    assert_eq!(
        refused(GdsSupport::Unavailable, None, 0),
        (
            Code::FailedPrecondition,
            "GDS runtime not available (libcufile missing or driver_open failed)".to_string()
        )
    );
    assert_eq!(
        refused(GdsSupport::Ready, None, 0),
        (Code::InvalidArgument, "missing key".to_string())
    );
    assert_eq!(
        refused(GdsSupport::Ready, Some(pb_key()), 63),
        (Code::InvalidArgument, "ipc_handle must be 64 bytes".to_string())
    );
}

#[test]
fn write_from_a_device_is_checked() {
    let request = |handle: usize| PutFromGpuRequest {
        key: Some(pb_key()),
        ipc_handle: vec![1; handle],
        buf_size: 10,
        gpu_device: 2,
        metadata: None,
    };
    let (transfer, meta) = plan_put_from_gpu(GdsSupport::Ready, request(64)).ok().unwrap();
    assert_eq!((transfer.buf_size, transfer.device), (10, Some(2)));
    assert_eq!(meta.dtype, "bfloat16");
    let err = plan_put_from_gpu(GdsSupport::Unavailable, request(64)).err().unwrap();
    assert_eq!(err.message, "GDS runtime not available");
    let err = plan_put_from_gpu(GdsSupport::Ready, request(65)).err().unwrap();
    assert_eq!(err.message, "ipc_handle must be 64 bytes");
}

#[test]
fn read_into_a_device_is_answered() {
    let answer = get_to_gpu_response(Some((8, meta())));
    assert!(answer.found);
    assert_eq!(answer.bytes_read, 8);
    assert_eq!(answer.metadata.unwrap().num_tokens, 16);
    let missing = get_to_gpu_response(None);
    assert!(!missing.found && missing.bytes_read == 0 && missing.metadata.is_none());
}

#[test]
fn failed_calls_name_the_node() {
    let text = |call: PeerCall| {
        let err = peer_failure(call, "node-2", "refused");
        assert_eq!(err.code(), Code::Unavailable);
        err.message
    };
    assert_eq!(text(PeerCall::ConnectOwner), "connect metadata owner node-2: refused");
    assert_eq!(text(PeerCall::ConnectDataNode), "connect data node node-2: refused");
    assert_eq!(text(PeerCall::PutChunk), "put chunk to node-2: refused");
    assert_eq!(text(PeerCall::ReadChunk), "read chunk from node-2: refused");
    assert_eq!(text(PeerCall::DeleteChunk), "delete chunk from node-2: refused");
    assert_eq!(text(PeerCall::GetBatch), "get batch from node-2: refused");
    assert_eq!(text(PeerCall::PutBatch), "put batch to node-2: refused");
    let err = chunk_stream_failure("reset");
    assert_eq!((err.code(), err.message.as_str()), (Code::Unavailable, "read chunk stream: reset"));
}
