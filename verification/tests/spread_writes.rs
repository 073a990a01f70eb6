use kv_service::convert::descriptor_from_meta;
use kv_service::model::{
    ApiConfig, BlockMeta, ChunkLocation, ClusterConfig, ClusterNodeConfig, Config, InternalKey,
    KVServiceContext, NodeEnv, RouterConfig, StorageLimits,
};
use kv_service::payload::flatten_segments;
use kv_service::placement::placement_from_meta;
use kv_service::spread::{SpreadWrite, WriteAction, WriteEvent, WriteStage};
use kv_service::stripes::{collect_chunks, stored_chunk_location};
use prost::bytes::Bytes;
use std::collections::HashMap;

const STR_KEY: &str = "test/object";

fn key() -> InternalKey {
    InternalKey { namespace: "test".to_string(), object_key: "object".to_string() }
}

fn meta(size: u64) -> BlockMeta {
    BlockMeta {
        device_id: 0,
        file_path: "/tmp/object.bin".to_string(),
        size,
        object_handle: "handle-2".to_string(),
        object_generation: 2,
        content_etag: "etag-2".to_string(),
        layout_version: 1,
        created_at: 0,
        last_accessed_at: 0,
        ttl_seconds: 0,
        num_tokens: 16,
        num_layers: 1,
        dtype: "bfloat16".to_string(),
        compressed: false,
        striping: None,
    }
}

fn context() -> KVServiceContext {
    let node = |n: &str| ClusterNodeConfig {
        node_id: format!("node-{}", n),
        grpc_endpoint: format!("10.0.0.{}:1", n),
        rdma_endpoint: String::new(),
    };
    KVServiceContext {
        config: Config {
            cluster: ClusterConfig {
                node_id: "node-1".to_string(),
                grpc_advertise: "10.0.0.1:1".to_string(),
                rdma_advertise: String::new(),
                data_nodes: vec![node("1"), node("2"), node("3")],
            },
            api: ApiConfig { listen: "0.0.0.0:1".to_string() },
            router: RouterConfig { strategy: "hash".to_string() },
        },
        storage: StorageLimits { striping_threshold: 4, striping_chunk_size: 4 },
    }
}

fn env() -> NodeEnv {
    NodeEnv { node_id: None, grpc_advertise: None, rdma_advertise: None }
}

fn write(if_not_exists: bool) -> SpreadWrite {
    let data = Bytes::from_static(b"abcdefghij");
    SpreadWrite::new(key(), STR_KEY.to_string(), data, meta(0), if_not_exists)
}

fn go(from: SpreadWrite, event: WriteEvent<&'static str>) -> (SpreadWrite, WriteAction<&'static str>) {
    from.step(&context(), &env(), event)
}

fn prepared(if_not_exists: bool) -> SpreadWrite {
    let (to, _) = go(write(if_not_exists), WriteEvent::Locked);
    if if_not_exists {
        go(to, WriteEvent::Existing(Ok(false))).0
    } else {
        to
    }
}

#[test]
fn write_runs_to_its_record() {
    let (to, action) = go(write(false), WriteEvent::Locked);
    assert!(matches!(action, WriteAction::Prepare { ref meta, total: 10 } if meta.size == 0));
    let (to, action) = go(to, WriteEvent::Prepared(Ok(meta(10))));
    let plan = match action {
        WriteAction::Store(plan) => plan,
        _ => panic!("the stripes come next"),
    };
    assert_eq!(plan.tasks.len(), 3);
    let mut disks: HashMap<(String, String), Bytes> = HashMap::new();
    let results: Vec<Result<ChunkLocation, &'static str>> = plan
        .tasks
        .into_iter()
        .map(|task| {
            let handle = format!("/h/{}", task.stripe_index);
            let length = task.data.len() as u64;
            disks.insert((task.node.node_id.clone(), handle.clone()), task.data);
            Ok(stored_chunk_location(task.node, task.stripe_index, 3, handle, task.offset, length))
        })
        .collect();
    let (to, action) = go(to, WriteEvent::Stored(results));
    assert!(matches!(action, WriteAction::DropCached));
    let (to, action) = go(to, WriteEvent::Dropped);
    let record = match action {
        WriteAction::Commit { record } => record,
        _ => panic!("the record comes next"),
    };
    assert_eq!((record.size, record.device_id), (10, 3));
    assert_eq!(descriptor_from_meta(&key(), STR_KEY, &record), plan.descriptor);
    let placement = placement_from_meta(&context(), &env(), &key(), STR_KEY, &record);
    let reads: Vec<Result<(u32, Bytes), &'static str>> = placement
        .chunks
        .iter()
        .map(|c| {
            Ok((c.stripe_index, disks[&(c.node_id.clone(), c.storage_handle.clone())].clone()))
        })
        .collect();
    assert_eq!(&flatten_segments(collect_chunks(reads).unwrap())[..], b"abcdefghij");
    let (to, action) = go(to, WriteEvent::Recorded(Ok(())));
    assert!(matches!(to.stage, WriteStage::Done));
    assert!(matches!(action, WriteAction::Finish(Ok(true))));
}

#[test]
fn write_begins_with_the_lock() {
    let data = Bytes::from_static(b"abcdefghij");
    let (to, action) =
        SpreadWrite::start::<&str>(key(), STR_KEY.to_string(), data.clone(), meta(0), true);
    assert!(matches!(action, WriteAction::TakeLock));
    assert!(matches!(to.stage, WriteStage::Lock { .. }));
    assert_eq!(to.data, data);
    assert_eq!(to.key, key());
    assert!(to.if_not_exists);
}

#[test]
fn conditional_write_looks_first() {
    let (to, action) = go(write(true), WriteEvent::Locked);
    assert!(matches!(action, WriteAction::LookUp));
    let (to, action) = go(to, WriteEvent::Existing(Ok(false)));
    assert!(matches!(to.stage, WriteStage::Preparation));
    assert!(matches!(action, WriteAction::Prepare { total: 10, .. }));
}

#[test]
fn existing_object_stays() {
    let (to, _) = go(write(true), WriteEvent::Locked);
    let (to, action) = go(to, WriteEvent::Existing(Ok(true)));
    assert!(matches!(to.stage, WriteStage::Done));
    assert!(matches!(action, WriteAction::Finish(Ok(false))));
}

#[test]
fn failed_calls_end_the_write() {
    let (to, _) = go(write(true), WriteEvent::Locked);
    let (_, action) = go(to, WriteEvent::Existing(Err("metadata")));
    assert!(matches!(action, WriteAction::Finish(Err("metadata"))));
    let (_, action) = go(prepared(true), WriteEvent::Prepared(Err("storage")));
    assert!(matches!(action, WriteAction::Finish(Err("storage"))));
    let (to, _) = go(prepared(false), WriteEvent::Prepared(Ok(meta(10))));
    let (to, action) = go(to, WriteEvent::Stored(vec![Err("first"), Err("second")]));
    assert!(matches!(to.stage, WriteStage::Done));
    assert!(matches!(action, WriteAction::Finish(Err("first"))));
    let (to, _) = go(prepared(false), WriteEvent::Prepared(Ok(meta(10))));
    let (to, _) = go(to, WriteEvent::Stored(vec![]));
    let (to, _) = go(to, WriteEvent::Dropped);
    let (_, action) = go(to, WriteEvent::Recorded(Err("record")));
    assert!(matches!(action, WriteAction::Finish(Err("record"))));
}
