use kv_service::cluster::select_data_node;
use kv_service::messages::{PlacementChunk, PutPlacementChunkRequest, PutPlacementChunkResponse};
use kv_service::model::{
    ApiConfig, BlockMeta, ChunkLocation, ClusterConfig, ClusterNodeConfig, Config, InternalKey,
    KVServiceContext, NodeEnv, RouterConfig, StorageLimits,
};
use kv_service::order::{all_or_first_error, sort_by_stripe};
use kv_service::payload::flatten_segments;
use kv_service::placement::placement_from_meta;
use kv_service::status::{Code, Status};
use kv_service::stripes::{
    collect_chunks, commit_distributed_write, delete_chunk_from_placement, loaded_chunk,
    make_distributed_descriptor, plan_distributed_write, plan_stripes, put_chunk_on_node,
    read_chunk_from_placement, sent_chunk_location, stored_chunk_location, stripe_size_of,
    DeleteChunkStep, PutChunkStep, ReadChunkStep,
};
use kv_service::writes::{plan_store_chunk, stored_chunk_response};
use prost::bytes::Bytes;
use std::collections::HashMap;

const STR_KEY: &str = "test/object";

fn key() -> InternalKey {
    InternalKey { namespace: "test".to_string(), object_key: "object".to_string() }
}

fn meta(size: u64) -> BlockMeta {
    BlockMeta {
        device_id: 0,
        file_path: "/tmp/object.bin".to_string(),
        size,
        object_handle: "handle-2".to_string(),
        object_generation: 2,
        content_etag: "etag-2".to_string(),
        layout_version: 1,
        created_at: 0,
        last_accessed_at: 0,
        ttl_seconds: 0,
        num_tokens: 16,
        num_layers: 1,
        dtype: "bfloat16".to_string(),
        compressed: false,
        striping: None,
    }
}

fn context(local: &str) -> KVServiceContext {
    let node = |n: &str| ClusterNodeConfig {
        node_id: format!("node-{}", n),
        grpc_endpoint: format!("10.0.0.{}:1", n),
        rdma_endpoint: format!("rdma-{}", n),
    };
    KVServiceContext {
        config: Config {
            cluster: ClusterConfig {
                node_id: format!("node-{}", local),
                grpc_advertise: format!("10.0.0.{}:1", local),
                rdma_advertise: format!("rdma-{}", local),
                data_nodes: vec![node("1"), node("2"), node("3")],
            },
            api: ApiConfig { listen: "0.0.0.0:1".to_string() },
            router: RouterConfig { strategy: "hash".to_string() },
        },
        storage: StorageLimits { striping_threshold: 4, striping_chunk_size: 4 },
    }
}

fn no_env() -> NodeEnv {
    NodeEnv { node_id: None, grpc_advertise: None, rdma_advertise: None }
}

fn placed_on(node: &str, stripe_index: u32) -> PlacementChunk {
    PlacementChunk {
        stripe_index,
        node_id: format!("node-{}", node),
        grpc_endpoint: format!("10.0.0.{}:1", node),
        rdma_endpoint: format!("rdma-{}", node),
        device_id: 1,
        storage_handle: format!("/h/{}", stripe_index),
        offset: 4,
        length: 4,
    }
}

fn location(stripe_index: u32, device_id: u32, handle: &str) -> ChunkLocation {
    ChunkLocation {
        stripe_index,
        node_id: "n".to_string(),
        grpc_endpoint: "g".to_string(),
        rdma_endpoint: String::new(),
        device_id,
        storage_handle: handle.to_string(),
        offset: 0,
        length: 0,
    }
}

#[test]
fn stripe_has_at_least_one_byte() {
    let mut ctx = context("1");
    assert_eq!(stripe_size_of(&ctx), 4);
    ctx.storage.striping_chunk_size = 0;
    assert_eq!(stripe_size_of(&ctx), 1);
    assert_eq!(plan_stripes(&ctx, &no_env(), STR_KEY, &Bytes::from_static(b"abc")).len(), 3);
}

#[test]
fn object_is_cut_into_stripes() {
    let ctx = context("1");
    let data = Bytes::from_static(b"abcdefghij");
    let tasks = plan_stripes(&ctx, &no_env(), STR_KEY, &data);
    let got: Vec<(usize, u64, &[u8])> =
        tasks.iter().map(|t| (t.stripe_index, t.offset, &t.data[..])).collect();
    assert_eq!(got, vec![(0, 0, &b"abcd"[..]), (1, 4, &b"efgh"[..]), (2, 8, &b"ij"[..])]);
    for (i, task) in tasks.iter().enumerate() {
        assert_eq!(task.node, select_data_node(&ctx, &no_env(), STR_KEY, i));
    }
    let full = plan_stripes(&ctx, &no_env(), STR_KEY, &Bytes::from_static(b"abcdefgh"));
    assert_eq!(full.len(), 2);
    assert_eq!(full[1].data.len(), 4);
    assert!(plan_stripes(&ctx, &no_env(), STR_KEY, &Bytes::new()).is_empty());
}

#[test]
fn descriptor_of_a_spread_write_counts_its_stripes() {
    let write = plan_distributed_write(
        &context("1"),
        &no_env(),
        &key(),
        STR_KEY,
        &meta(10),
        &Bytes::from_static(b"abcdefghij"),
    );
    assert_eq!((write.chunk_size, write.total_size), (4, 10));
    assert!(write.descriptor.is_striped);
    assert_eq!((write.descriptor.stripe_count, write.descriptor.chunk_size), (3, 4));
    assert_eq!(write.descriptor.object_handle, "handle-2");
    let desc = make_distributed_descriptor(&key(), STR_KEY, &meta(10), 3, 4);
    assert_eq!(desc, write.descriptor);
}

#[test]
fn stripe_is_stored_here_or_sent() {
    let ctx = context("1");
    let data = Bytes::from_static(b"abcdefghijkl");
    let write = plan_distributed_write(&ctx, &no_env(), &key(), STR_KEY, &meta(12), &data);
    let mut stored = 0;
    let mut sent = 0;
    for task in write.tasks {
        let index = task.stripe_index;
        let name = task.node.node_id.clone();
        let step = put_chunk_on_node(
            &ctx,
            &no_env(),
            &key(),
            &write.descriptor,
            write.chunk_size,
            write.total_size,
            task,
        );
        match step {
            PutChunkStep::Store { node, key: k, stripe_index, generation, layout_version, offset, data } => {
                stored += 1;
                assert_eq!(name, "node-1");
                assert_eq!(node.node_id, "node-1");
                assert_eq!(k, key());
                assert_eq!((stripe_index, generation, layout_version), (index, 2, 1));
                assert_eq!(offset, index as u64 * 4);
                assert_eq!(data.len(), 4);
            }
            PutChunkStep::Send { node, uri, request } => {
                sent += 1;
                assert_ne!(name, "node-1");
                assert_eq!(uri, format!("http://{}", node.grpc_endpoint));
                assert_eq!(request.stripe_index as usize, index);
                assert_eq!((request.chunk_size, request.total_size), (4, 12));
                assert_eq!(request.descriptor.as_ref(), Some(&write.descriptor));
                assert_eq!(request.data.len(), 4);
            }
        }
    }
    assert_eq!((stored, sent), (1, 2));
}

#[test]
fn answer_of_a_data_node_is_checked() {
    let answer = |success: bool, chunk: Option<PlacementChunk>| PutPlacementChunkResponse { success, chunk };
    let loc = sent_chunk_location("node-2", &answer(true, Some(placed_on("2", 1)))).unwrap();
    assert_eq!((loc.stripe_index, loc.offset), (1, 4));
    assert_eq!(loc.node_id, "node-2");
    let err = sent_chunk_location("node-2", &answer(false, Some(placed_on("2", 1)))).unwrap_err();
    assert_eq!(err.code(), Code::Internal);
    assert_eq!(err.message, "data node node-2 rejected placement chunk");
    let err = sent_chunk_location("node-2", &answer(true, None)).unwrap_err();
    assert_eq!(err.code(), Code::Internal);
    assert_eq!(err.message, "missing placement chunk in response");
}

#[test]
fn stripes_are_recorded_in_order() {
    let results: Vec<Result<ChunkLocation, Status>> = vec![
        Ok(location(2, 30, "/c")),
        Ok(location(0, 10, "/a")),
        Ok(location(1, 20, "/b")),
    ];
    let record = commit_distributed_write(meta(0), 10, 4, results).unwrap();
    assert_eq!(record.size, 10);
    assert_eq!(record.file_path, "");
    assert_eq!(record.device_id, 10);
    assert_eq!(record.object_generation, 2);
    let striping = record.striping.unwrap();
    assert_eq!((striping.chunk_size, striping.total_size), (4, 10));
    assert_eq!(striping.chunk_devices, vec![10, 20, 30]);
    assert_eq!(striping.chunk_paths, vec!["/a", "/b", "/c"]);
    assert_eq!(striping.chunk_locations[2].storage_handle, "/c");
    let none: Vec<Result<ChunkLocation, Status>> = vec![];
    assert_eq!(commit_distributed_write(meta(0), 0, 4, none).unwrap().device_id, 0);
}

#[test]
fn first_failure_of_a_spread_write_counts() {
    let results = vec![Ok(location(0, 1, "/a")), Err("first"), Err("second")];
    assert_eq!(commit_distributed_write(meta(0), 10, 4, results).unwrap_err(), "first");
    let results: Vec<Result<(u32, Bytes), &str>> = vec![Ok((0, Bytes::new())), Err("lost")];
    assert_eq!(collect_chunks(results).unwrap_err(), "lost");
    assert_eq!(all_or_first_error::<u8, &str>(vec![Ok(1), Ok(2)]), Ok(vec![1, 2]));
    assert_eq!(all_or_first_error(vec![Ok(1u8), Err("x"), Err("y")]), Err("x"));
}

#[test]
fn sort_keeps_what_belongs_together_in_order() {
    let sorted = sort_by_stripe(vec![
        location(1, 1, "a"),
        location(0, 2, "b"),
        location(1, 3, "c"),
        location(0, 4, "d"),
    ]);
    let devices: Vec<u32> = sorted.iter().map(|l| l.device_id).collect();
    assert_eq!(devices, vec![2, 4, 1, 3]);
    let again: Vec<u32> = sort_by_stripe(sorted).iter().map(|l| l.device_id).collect();
    assert_eq!(again, vec![2, 4, 1, 3]);
}

#[test]
fn stripe_is_read_here_or_fetched() {
    let ctx = context("1");
    let descriptor = make_distributed_descriptor(&key(), STR_KEY, &meta(10), 3, 4);
    match read_chunk_from_placement(&ctx, &no_env(), &descriptor, &placed_on("1", 2)) {
        ReadChunkStep::Load { stripe_index, storage_handle, length } => {
            assert_eq!((stripe_index, length), (2, 4));
            assert_eq!(storage_handle, "/h/2");
        }
        ReadChunkStep::Fetch { .. } => panic!("the stripe is here"),
    }
    match read_chunk_from_placement(&ctx, &no_env(), &descriptor, &placed_on("3", 2)) {
        ReadChunkStep::Fetch { node, uri, request } => {
            assert_eq!(node.node_id, "node-3");
            assert_eq!(uri, "http://10.0.0.3:1");
            assert_eq!(request.descriptor, Some(descriptor));
            assert_eq!(request.chunk, Some(placed_on("3", 2)));
        }
        ReadChunkStep::Load { .. } => panic!("the stripe is elsewhere"),
    }
}

#[test]
fn missing_stripe_is_an_error() {
    assert_eq!(loaded_chunk(3, Some(Bytes::from_static(b"x"))).unwrap().0, 3);
    let err = loaded_chunk(3, None).unwrap_err();
    assert_eq!(err.code(), Code::NotFound);
    assert_eq!(err.message, "placement chunk not found");
}

#[test]
fn stripe_is_removed_here_or_there() {
    let ctx = context("1");
    match delete_chunk_from_placement(&ctx, &no_env(), &placed_on("1", 0)) {
        DeleteChunkStep::Remove { storage_handle } => assert_eq!(storage_handle, "/h/0"),
        DeleteChunkStep::Send { .. } => panic!("the stripe is here"),
    }
    match delete_chunk_from_placement(&ctx, &no_env(), &placed_on("2", 0)) {
        DeleteChunkStep::Send { node, uri, request } => {
            assert_eq!(node.node_id, "node-2");
            assert_eq!(uri, "http://10.0.0.2:1");
            assert_eq!(request.chunk, Some(placed_on("2", 0)));
        }
        DeleteChunkStep::Remove { .. } => panic!("the stripe is elsewhere"),
    }
}

#[test]
fn chunks_are_collected_in_order() {
    let results: Vec<Result<(u32, Bytes), Status>> = vec![
        Ok((2, Bytes::from_static(b"ij"))),
        Ok((0, Bytes::from_static(b"abcd"))),
        Ok((1, Bytes::from_static(b"efgh"))),
    ];
    assert_eq!(&flatten_segments(collect_chunks(results).unwrap())[..], b"abcdefghij");
}

#[test]
fn spread_object_is_read_back() {
    let ctx = context("1");
    let data = Bytes::from(b"the quick brown fox jumps over the lazy dog".to_vec());
    let total = data.len() as u64;
    let write = plan_distributed_write(&ctx, &no_env(), &key(), STR_KEY, &meta(total), &data);
    let mut disks: HashMap<(String, String), Bytes> = HashMap::new();
    let mut results: Vec<Result<ChunkLocation, Status>> = Vec::new();
    for task in write.tasks {
        let step = put_chunk_on_node(
            &ctx,
            &no_env(),
            &key(),
            &write.descriptor,
            write.chunk_size,
            write.total_size,
            task,
        );
        results.push(match step {
            PutChunkStep::Store { node, stripe_index, offset, data, .. } => {
                let handle = format!("/disk/{}", stripe_index);
                let length = data.len() as u64;
                disks.insert((node.node_id.clone(), handle.clone()), data);
                Ok(stored_chunk_location(node, stripe_index, 0, handle, offset, length))
            }
            PutChunkStep::Send { node, request, .. } => {
                let there = context(node.node_id.trim_start_matches("node-"));
                let index = request.stripe_index;
                let plan = plan_store_chunk(request).unwrap();
                assert_eq!(plan.offset, plan.stripe_index as u64 * 4);
                let handle = format!("/disk/{}", plan.stripe_index);
                let length = plan.data.len() as u64;
                disks.insert((node.node_id.clone(), handle.clone()), plan.data);
                let answer = stored_chunk_response(
                    &there,
                    &no_env(),
                    index,
                    0,
                    handle,
                    plan.offset,
                    length,
                );
                sent_chunk_location(&node.node_id, &answer)
            }
        });
    }
    results.reverse();
    let record =
        commit_distributed_write(meta(total), write.total_size, write.chunk_size, results).unwrap();
    let placement = placement_from_meta(&ctx, &no_env(), &key(), STR_KEY, &record);
    assert_eq!(placement.chunks.len(), 11);
    let mut read: Vec<Result<(u32, Bytes), Status>> = placement
        .chunks
        .iter()
        .map(|c| {
            let disk = disks.get(&(c.node_id.clone(), c.storage_handle.clone())).cloned();
            assert_eq!(disk.as_ref().unwrap().len() as u64, c.length);
            loaded_chunk(c.stripe_index, disk)
        })
        .collect();
    read.swap(0, 5);
    assert_eq!(flatten_segments(collect_chunks(read).unwrap()), data);
}

#[test]
fn stripe_request_is_checked() {
    let request = || PutPlacementChunkRequest {
        key: Some(kv_service::convert::internal_key_to_pb(&key())),
        descriptor: Some(make_distributed_descriptor(&key(), STR_KEY, &meta(10), 3, 4)),
        stripe_index: 2,
        chunk_size: 4,
        total_size: 10,
        data: Bytes::from_static(b"ij"),
    };
    let plan = plan_store_chunk(request()).unwrap();
    assert_eq!(plan.key, key());
    assert_eq!((plan.stripe_index, plan.offset), (2, 8));
    assert_eq!((plan.generation, plan.layout_version), (2, 1));
    assert_eq!(&plan.data[..], b"ij");
    let mut keyless = request();
    keyless.key = None;
    keyless.descriptor = None;
    assert_eq!(plan_store_chunk(keyless).err().unwrap().message, "missing key");
    let mut bare = request();
    bare.descriptor = None;
    let err = plan_store_chunk(bare).err().unwrap();
    assert_eq!(err.code(), Code::InvalidArgument);
    assert_eq!(err.message, "missing descriptor");
}

#[test]
fn stored_stripe_is_located_on_this_node() {
    let answer = stored_chunk_response(
        &context("2"),
        &no_env(),
        5,
        9,
        "/h".to_string(),
        20,
        4,
    );
    assert!(answer.success);
    let chunk = answer.chunk.unwrap();
    assert_eq!(chunk.node_id, "node-2");
    assert_eq!(chunk.grpc_endpoint, "10.0.0.2:1");
    assert_eq!(chunk.rdma_endpoint, "rdma-2");
    assert_eq!((chunk.stripe_index, chunk.device_id, chunk.offset, chunk.length), (5, 9, 20, 4));
}

#[test]
fn stripes_are_located_alike_here_and_there() {
    let ctx = context("2");
    let answer = stored_chunk_response(&ctx, &no_env(), 5, 9, "/h".to_string(), 20, 4);
    let node = kv_service::cluster::local_node(&ctx, &no_env());
    let here = stored_chunk_location(node, 5, 9, "/h".to_string(), 20, 4);
    assert_eq!(sent_chunk_location("node-2", &answer).unwrap(), here);
}
