use kv_service::cluster::{
    configured_data_nodes, distributed_placement_enabled, grpc_uri, is_local_node, local_node,
    select_data_node, select_metadata_owner, stripe_slot_of,
};
use kv_service::model::{
    ApiConfig, ClusterConfig, ClusterNodeConfig, Config, DataNode, KVServiceContext, NodeEnv,
    RouterConfig, StorageLimits,
};
use kv_service::service::KVServiceImpl;
use std::sync::Arc;

fn node(id: &str, endpoint: &str) -> ClusterNodeConfig {
    ClusterNodeConfig {
        node_id: id.to_string(),
        grpc_endpoint: endpoint.to_string(),
        rdma_endpoint: String::new(),
    }
}

fn context(node_id: &str, advertise: &str, data_nodes: Vec<ClusterNodeConfig>) -> KVServiceContext {
    KVServiceContext {
        config: Config {
            cluster: ClusterConfig {
                node_id: node_id.to_string(),
                grpc_advertise: advertise.to_string(),
                rdma_advertise: String::new(),
                data_nodes,
            },
            api: ApiConfig { listen: "0.0.0.0:50051".to_string() },
            router: RouterConfig { strategy: "hash".to_string() },
        },
        storage: StorageLimits { striping_threshold: 10, striping_chunk_size: 4 },
    }
}

fn no_env() -> NodeEnv {
    NodeEnv { node_id: None, grpc_advertise: None, rdma_advertise: None }
}

fn three_nodes() -> Vec<ClusterNodeConfig> {
    vec![
        node("node-a", "10.0.0.1:50051"),
        node("node-b", "10.0.0.2:50051"),
        node("node-c", "10.0.0.3:50051"),
    ]
}

#[test]
fn metadata_owner_matches_primary_data_node() {
    let ctx = context("node-a", "10.0.0.1:50051", three_nodes());

    let owner = select_metadata_owner(&ctx, &no_env(), "test/object");
    let primary = select_data_node(&ctx, &no_env(), "test/object", 0);

    assert_eq!(owner, primary);
}

#[test]
fn hash_picks_the_owner() {
    let ctx = context("node-a", "10.0.0.1:50051", three_nodes());
    let names = ["node-a", "node-b", "node-c"];
    for key in ["test/object", "a", "b", "c", "a much longer key than the other ones are"] {
        let slot = (twox_hash::xxh3::hash64(key.as_bytes()) as usize) % 3;
        for stripe in 0..7 {
            assert_eq!(
                select_data_node(&ctx, &no_env(), key, stripe).node_id,
                names[(slot + stripe) % 3]
            );
        }
    }
}

#[test]
fn hash_of_the_empty_key_is_zero() {
    let ctx = context("node-a", "10.0.0.1:50051", three_nodes());
    assert_eq!(select_metadata_owner(&ctx, &no_env(), "").node_id, "node-a");
}

#[test]
fn stripes_go_round_the_nodes() {
    assert_eq!(stripe_slot_of(7, 0, 3), 1);
    assert_eq!(stripe_slot_of(7, 1, 3), 2);
    assert_eq!(stripe_slot_of(7, 2, 3), 0);
    assert_eq!(stripe_slot_of(7, 3, 3), 1);
    assert_eq!(stripe_slot_of(u64::MAX, usize::MAX, 1), 0);
    assert_eq!(stripe_slot_of(9, 5, 1), stripe_slot_of(9, 6, 1));
    assert_eq!(stripe_slot_of(1, usize::MAX, 2), 0);
}

#[test]
fn uri_gets_a_scheme() {
    assert_eq!(grpc_uri("10.0.0.1:50051"), "http://10.0.0.1:50051");
    assert_eq!(grpc_uri("http://host:1"), "http://host:1");
    assert_eq!(grpc_uri("https://host:1"), "https://host:1");
    assert_eq!(grpc_uri(""), "http://");
    assert_eq!(grpc_uri("http:/host"), "http://http:/host");
    assert_eq!(grpc_uri(&grpc_uri("host")), "http://host");
}

#[test]
fn environment_comes_before_configuration() {
    let ctx = context("configured", "10.0.0.9:1", vec![]);
    let env = NodeEnv {
        node_id: Some("from-env".to_string()),
        grpc_advertise: Some(String::new()),
        rdma_advertise: Some("rdma:1".to_string()),
    };
    let local = local_node(&ctx, &env);
    assert_eq!(local.node_id, "from-env");
    assert_eq!(local.grpc_endpoint, "10.0.0.9:1");
    assert_eq!(local.rdma_endpoint, "rdma:1");
}

#[test]
fn node_without_configuration_has_defaults() {
    let local = local_node(&context("", "", vec![]), &no_env());
    assert_eq!(local.node_id, "local");
    assert_eq!(local.grpc_endpoint, "0.0.0.0:50051");
    assert_eq!(local.rdma_endpoint, "");
}

#[test]
fn lone_node_is_its_own_data_node() {
    let ctx = context("only", "10.0.0.1:1", vec![]);
    let nodes = configured_data_nodes(&ctx, &no_env());
    assert_eq!(nodes, vec![local_node(&ctx, &no_env())]);
    assert!(is_local_node(&ctx, &no_env(), &select_metadata_owner(&ctx, &no_env(), "k")));
    assert!(!distributed_placement_enabled(&ctx, &no_env(), 1000));
}

#[test]
fn nameless_node_is_known_by_its_endpoint() {
    let ctx = context("a", "e", vec![node("", "10.0.0.7:1"), node("x", "10.0.0.8:1")]);
    let nodes = configured_data_nodes(&ctx, &no_env());
    assert_eq!(nodes.len(), 2);
    assert_eq!(nodes[0].node_id, "10.0.0.7:1");
    assert_eq!(nodes[1].node_id, "x");
}

#[test]
fn name_or_endpoint_tells_the_local_node() {
    let ctx = context("node-a", "10.0.0.1:50051", three_nodes());
    let as_node = |id: &str, endpoint: &str| DataNode {
        node_id: id.to_string(),
        grpc_endpoint: endpoint.to_string(),
        rdma_endpoint: "other".to_string(),
    };
    assert!(is_local_node(&ctx, &no_env(), &as_node("node-a", "elsewhere")));
    assert!(is_local_node(&ctx, &no_env(), &as_node("other", "10.0.0.1:50051")));
    assert!(!is_local_node(&ctx, &no_env(), &as_node("other", "elsewhere")));
}

#[test]
fn only_large_objects_are_spread() {
    let mut ctx = context("node-a", "10.0.0.1:50051", three_nodes());
    assert!(!distributed_placement_enabled(&ctx, &no_env(), 10));
    assert!(distributed_placement_enabled(&ctx, &no_env(), 11));
    ctx.config.cluster.data_nodes.truncate(1);
    assert!(!distributed_placement_enabled(&ctx, &no_env(), 11));
    ctx.config.cluster.data_nodes = three_nodes();
    ctx.storage.striping_threshold = 0;
    assert!(!distributed_placement_enabled(&ctx, &no_env(), 11));
}

#[test]
fn service_asks_its_own_context() {
    let service = KVServiceImpl::new(context("node-a", "10.0.0.1:50051", three_nodes()));
    assert_eq!(service.ctx().config.cluster.node_id, "node-a");
    assert!(service.should_use_distributed_placement(&no_env(), 11));
    let shared = Arc::new(context("b", "e", vec![]));
    let service = KVServiceImpl::new_shared(shared.clone());
    assert_eq!(service.ctx().config.cluster.node_id, "b");
    assert!(!service.should_use_distributed_placement(&no_env(), 11));
}

#[test]
fn writes_of_one_object_share_a_lock() {
    let service = KVServiceImpl::new(context("node-a", "10.0.0.1:50051", vec![]));
    let first = service.key_write_lock("test/object");
    let again = service.key_write_lock("test/object");
    let other = service.key_write_lock("test/other");
    assert!(Arc::ptr_eq(&first, &again));
    assert!(!Arc::ptr_eq(&first, &other));
    let held = first.try_lock().unwrap();
    assert!(again.try_lock().is_err());
    assert!(other.try_lock().is_ok());
    drop(held);
    assert!(again.try_lock().is_ok());
}
