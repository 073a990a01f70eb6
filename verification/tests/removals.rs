use kv_service::messages::{PlacementChunk, PlacementDescriptor};
use kv_service::removal::{RemovalAction, RemovalEvent, RemovalStage, SpreadRemoval};

fn chunk(stripe_index: u32) -> PlacementChunk {
    PlacementChunk {
        stripe_index,
        node_id: "n".to_string(),
        grpc_endpoint: "g".to_string(),
        rdma_endpoint: String::new(),
        device_id: 0,
        storage_handle: format!("/h/{}", stripe_index),
        offset: 0,
        length: 4,
    }
}

fn placement() -> PlacementDescriptor {
    PlacementDescriptor {
        key: None,
        placement_epoch: 1,
        placement_policy_id: "p".to_string(),
        layout_hash: "0".to_string(),
        primary_node_id: "n".to_string(),
        primary_grpc_endpoint: "g".to_string(),
        primary_rdma_endpoint: String::new(),
        chunks: vec![chunk(0), chunk(1)],
    }
}

fn begun() -> SpreadRemoval {
    SpreadRemoval::start::<&str>(placement()).0
}

#[test]
fn removal_begins_with_every_stripe() {
    let (removal, action) = SpreadRemoval::start::<&str>(placement());
    assert_eq!(removal.stage, RemovalStage::Stripes);
    match action {
        RemovalAction::RemoveStripes { chunks } => assert_eq!(chunks, vec![chunk(0), chunk(1)]),
        _ => panic!("the stripes go first"),
    }
}

#[test]
fn record_goes_last() {
    let (to, action) = begun().step::<&str>(RemovalEvent::Removed(vec![Ok(()), Ok(())]));
    assert!(matches!(action, RemovalAction::DropCached));
    let (to, action) = to.step::<&str>(RemovalEvent::Dropped);
    assert!(matches!(action, RemovalAction::EraseRecord));
    let (to, action) = to.step::<&str>(RemovalEvent::Erased(Ok(())));
    assert_eq!(to.stage, RemovalStage::Done);
    match action {
        RemovalAction::Finish(answer) => assert!(answer.unwrap().success),
        _ => panic!("the removal is over"),
    }
}

#[test]
fn record_stays_with_a_stripe() {
    let (to, action) =
        begun().step(RemovalEvent::Removed(vec![Ok(()), Err("first"), Err("second")]));
    assert_eq!(to.stage, RemovalStage::Done);
    assert!(matches!(action, RemovalAction::Finish(Err("first"))));
}

#[test]
fn record_that_cannot_be_removed_is_an_error() {
    let (to, _) = begun().step::<&str>(RemovalEvent::Removed(vec![]));
    let (to, _) = to.step::<&str>(RemovalEvent::Dropped);
    let (_, action) = to.step(RemovalEvent::Erased(Err("metadata")));
    assert!(matches!(action, RemovalAction::Finish(Err("metadata"))));
}
