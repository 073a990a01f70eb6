use kv_service::batch::{
    accept_group, answers, finish_get_batch, joint_put_outcomes, local_answers, no_successes,
    place, plan_get_batch, plan_put_batch, push_node_group, single_put_outcomes, split_entries,
    split_local_puts, unanswered, BatchKind, LocalPut, LocalWrites,
};
use kv_service::cluster::select_metadata_owner;
use kv_service::convert::{meta_from_pb_at, missing_get_response};
use kv_service::messages::{GetResponse, ObjectKey, PutOptions, PutRequest};
use kv_service::model::{
    ApiConfig, BlockMeta, ClusterConfig, ClusterNodeConfig, Config, DataNode, InternalKey,
    KVServiceContext, NodeEnv, RouterConfig, StorageLimits,
};
use kv_service::status::Code;
use prost::bytes::Bytes;

fn context() -> KVServiceContext {
    let node = |n: &str| ClusterNodeConfig {
        node_id: format!("node-{}", n),
        grpc_endpoint: format!("10.0.0.{}:1", n),
        rdma_endpoint: String::new(),
    };
    KVServiceContext {
        config: Config {
            cluster: ClusterConfig {
                node_id: "node-1".to_string(),
                grpc_advertise: "10.0.0.1:1".to_string(),
                rdma_advertise: String::new(),
                data_nodes: vec![node("1"), node("2"), node("3")],
            },
            api: ApiConfig { listen: "0.0.0.0:1".to_string() },
            router: RouterConfig { strategy: "hash".to_string() },
        },
        storage: StorageLimits { striping_threshold: 4, striping_chunk_size: 4 },
    }
}

fn no_env() -> NodeEnv {
    NodeEnv { node_id: None, grpc_advertise: None, rdma_advertise: None }
}

fn data_node(id: &str, endpoint: &str, rdma: &str) -> DataNode {
    DataNode {
        node_id: id.to_string(),
        grpc_endpoint: endpoint.to_string(),
        rdma_endpoint: rdma.to_string(),
    }
}

fn message_key(i: usize) -> ObjectKey {
    ObjectKey { namespace: "n".to_string(), object_key: format!("k{}", i) }
}

fn str_key(i: usize) -> String {
    format!("n/k{}", i)
}

fn found(i: usize) -> GetResponse {
    GetResponse { data: Bytes::from(format!("object {}", i)), metadata: None, found: true }
}

fn put(i: usize, if_not_exists: bool) -> PutRequest {
    PutRequest {
        key: Some(message_key(i)),
        data: Bytes::from(format!("object {}", i)),
        metadata: None,
        options: Some(PutOptions { if_not_exists }),
    }
}

#[test]
fn items_are_grouped_by_node() {
    let mut groups: Vec<(DataNode, Vec<u8>)> = Vec::new();
    push_node_group(&mut groups, data_node("a", "e", "r"), 1);
    push_node_group(&mut groups, data_node("b", "e", "r"), 2);
    push_node_group(&mut groups, data_node("a", "e", "r"), 3);
    push_node_group(&mut groups, data_node("a", "f", "r"), 4);
    push_node_group(&mut groups, data_node("a", "e", "s"), 5);
    push_node_group(&mut groups, data_node("a", "e", "r"), 6);
    let items: Vec<&Vec<u8>> = groups.iter().map(|g| &g.1).collect();
    assert_eq!(items, vec![&vec![1, 3, 6], &vec![2], &vec![4], &vec![5]]);
}

#[test]
fn batch_of_reads_is_answered_in_order() {
    let ctx = context();
    let total = 20;
    let keys: Vec<ObjectKey> = (0..total).map(message_key).collect();
    let str_keys: Vec<String> = (0..total).map(str_key).collect();
    let plan = plan_get_batch(&ctx, &no_env(), keys, &str_keys);
    assert_eq!(plan.total, total);
    let shared: usize = plan.remote.iter().map(|g| g.1.len()).sum();
    assert_eq!(plan.local.len() + shared, total);
    assert!(!plan.local.is_empty() && plan.remote.len() == 2);
    let mut slots = unanswered(plan.total);
    let mut indexes = Vec::new();
    let mut local = Vec::new();
    for (index, key) in plan.local {
        assert_eq!(key.object_key, format!("k{}", index));
        assert_eq!(select_metadata_owner(&ctx, &no_env(), &str_keys[index]).node_id, "node-1");
        indexes.push(index);
        local.push(Some(found(index)));
    }
    place(&mut slots, &indexes, local);
    for (node, entries) in plan.remote {
        assert_ne!(node.node_id, "node-1");
        let (indexes, keys) = split_entries(entries);
        for (index, key) in indexes.iter().zip(&keys) {
            assert_eq!(key, &message_key(*index));
            assert_eq!(select_metadata_owner(&ctx, &no_env(), &str_keys[*index]), node);
        }
        let values = answers(indexes.iter().map(|i| found(*i)).collect());
        accept_group(BatchKind::Get, &mut slots, &node.node_id, &indexes, values).unwrap();
    }
    let expected: Vec<GetResponse> = (0..total).map(found).collect();
    assert_eq!(finish_get_batch(slots).results, expected);
}

#[test]
fn unanswered_keys_count_as_missing() {
    let mut slots = unanswered(2);
    place(&mut slots, &vec![1], vec![Some(found(1))]);
    assert_eq!(finish_get_batch(slots).results, vec![missing_get_response(), found(1)]);
    assert!(finish_get_batch(unanswered(0)).results.is_empty());
}

#[test]
fn surplus_local_results_are_dropped() {
    let mut slots = vec![0, 0, 0];
    place(&mut slots, &vec![2, 0], vec![7]);
    assert_eq!(slots, vec![0, 0, 7]);
    place(&mut slots, &vec![1], vec![8, 9]);
    assert_eq!(slots, vec![0, 8, 7]);
}

#[test]
fn failed_local_reads_count_as_missing() {
    let results: Vec<Result<Option<(Bytes, BlockMeta)>, &str>> = vec![Ok(None), Err("io")];
    let local = local_answers(results);
    assert_eq!(local, vec![Some(missing_get_response()), Some(missing_get_response())]);
}

#[test]
fn miscounted_answers_fail_the_batch() {
    let mut slots = unanswered(3);
    let err = accept_group(
        BatchKind::Get,
        &mut slots,
        "node-2",
        &vec![0, 1, 2],
        answers(vec![found(0)]),
    )
    .unwrap_err();
    assert_eq!(err.code(), Code::Internal);
    assert_eq!(err.message, "metadata owner node-2 returned 1 get results for 3 keys");
    assert_eq!(slots, unanswered(3));
    let mut success = no_successes(1);
    let err =
        accept_group(BatchKind::Put, &mut success, "node-3", &vec![0], vec![true; 12]).unwrap_err();
    assert_eq!(err.message, "metadata owner node-3 returned 12 put results for 1 items");
    assert_eq!(success, vec![false]);
}

#[test]
fn batch_of_writes_is_shared_out() {
    let ctx = context();
    let total = 20;
    let items: Vec<PutRequest> = (0..total).map(|i| put(i, i % 2 == 0)).collect();
    let str_keys: Vec<String> = (0..total).map(str_key).collect();
    let plan = plan_put_batch(&ctx, &no_env(), items, &str_keys).unwrap();
    let mut success = no_successes(plan.total);
    let has = plan.local.iter().any(|p| p.if_not_exists);
    assert_eq!(plan.has_if_not_exists, has);
    let mut indexes = Vec::new();
    for p in &plan.local {
        assert_eq!(p.key.object_key, format!("k{}", p.index));
        assert_eq!(p.data, Bytes::from(format!("object {}", p.index)));
        assert_eq!(p.if_not_exists, p.index % 2 == 0);
        assert_eq!(p.meta.dtype, "bfloat16");
        indexes.push(p.index);
    }
    place(&mut success, &indexes, vec![true; indexes.len()]);
    for (node, entries) in plan.remote {
        let (indexes, items) = split_entries(entries);
        for (index, item) in indexes.iter().zip(&items) {
            assert_eq!(item, &put(*index, *index % 2 == 0));
        }
        let values = vec![true; indexes.len()];
        accept_group(BatchKind::Put, &mut success, &node.node_id, &indexes, values).unwrap();
    }
    assert_eq!(success, vec![true; total]);
}

#[test]
fn write_without_a_key_fails_the_batch() {
    let mut nameless = put(1, false);
    nameless.key = None;
    let err = plan_put_batch(
        &context(),
        &no_env(),
        vec![put(0, false), nameless],
        &vec![str_key(0), String::new()],
    )
    .err()
    .unwrap();
    assert_eq!(err.code(), Code::InvalidArgument);
    assert_eq!(err.message, "missing key in batch item");
}

#[test]
fn write_outcomes_tell_success() {
    assert_eq!(single_put_outcomes(vec![Ok(true), Ok(false), Err("io")]), vec![true, false, false]);
    assert_eq!(joint_put_outcomes(vec![Ok(()), Err("io")]), vec![true, false]);
}

#[test]
fn local_writes_are_done_together_or_one_by_one() {
    let local = || -> Vec<LocalPut> {
        [4usize, 7]
            .iter()
            .map(|i| LocalPut {
                index: *i,
                key: InternalKey { namespace: "n".to_string(), object_key: format!("k{}", i) },
                data: Bytes::from(format!("object {}", i)),
                meta: meta_from_pb_at(None, *i as i64),
                if_not_exists: *i == 7,
            })
            .collect()
    };
    let (indexes, writes) = split_local_puts(true, local());
    assert_eq!(indexes, vec![4, 7]);
    match writes {
        LocalWrites::OneByOne { writes } => {
            let flags: Vec<bool> = writes.iter().map(|w| w.if_not_exists).collect();
            assert_eq!(flags, vec![false, true]);
        }
        LocalWrites::Together { .. } => panic!("a write is conditional"),
    }
    let (indexes, writes) = split_local_puts(false, local());
    assert_eq!(indexes, vec![4, 7]);
    match writes {
        LocalWrites::Together { items } => {
            assert_eq!(items.len(), 2);
            assert_eq!(items[1].0.object_key, "k7");
            assert_eq!(&items[1].1[..], b"object 7");
            assert_eq!(items[1].2.last_accessed_at, 7);
        }
        LocalWrites::OneByOne { .. } => panic!("no write is conditional"),
    }
}
