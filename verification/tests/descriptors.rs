use kv_service::convert::{
    chunk_location_to_pb, descriptor_from_meta, found_get_response, internal_key_to_pb,
    key_from_descriptor, memory_get_result_to_pb, meta_from_pb, meta_from_pb_at, meta_to_pb,
    missing_get_response, object_handle, pb_chunk_to_location, pb_key_to_internal,
    put_options_if_not_exists, validate_descriptor,
};
use kv_service::messages::{KvMetadata, ObjectKey, PutOptions};
use kv_service::model::{BlockMeta, ChunkLocation, InternalKey, StripingInfo};
use kv_service::status::Code;
use prost::bytes::Bytes;

fn meta() -> BlockMeta {
    BlockMeta {
        device_id: 0,
        file_path: "/tmp/object.bin".to_string(),
        size: 128,
        object_handle: "handle-2".to_string(),
        object_generation: 2,
        content_etag: "etag-2".to_string(),
        layout_version: 1,
        created_at: 0,
        last_accessed_at: 0,
        ttl_seconds: 0,
        num_tokens: 16,
        num_layers: 1,
        dtype: "bfloat16".to_string(),
        compressed: false,
        striping: None,
    }
}

fn key() -> InternalKey {
    InternalKey { namespace: "test".to_string(), object_key: "object".to_string() }
}

const STR_KEY: &str = "test/object";

fn client_metadata(created_at: i64) -> KvMetadata {
    KvMetadata {
        num_tokens: 7,
        num_layers: 3,
        dtype: "float16".to_string(),
        shape: vec![1, 2],
        compressed: true,
        compression_level: 9,
        created_at,
        last_accessed_at: 1,
    }
}

#[test]
fn descriptor_contains_version_identity() {
    let meta = meta();
    let desc = descriptor_from_meta(&key(), STR_KEY, &meta);

    assert_eq!(desc.object_generation, 2);
    assert_eq!(desc.content_etag, "etag-2");
    assert_eq!(desc.layout_version, 1);
    assert_eq!(desc.size, 128);
    assert!(!desc.object_handle.is_empty());
    validate_descriptor(&desc, &meta).unwrap();
}

#[test]
fn descriptor_validation_rejects_stale_generation() {
    let meta = meta();
    let mut desc = descriptor_from_meta(&key(), STR_KEY, &meta);
    desc.object_generation = 1;

    let err = validate_descriptor(&desc, &meta).unwrap_err();
    assert_eq!(err.code(), Code::FailedPrecondition);
}

#[test]
fn every_part_of_a_version_is_checked() {
    let meta = meta();
    let fresh = || descriptor_from_meta(&key(), STR_KEY, &meta);
    let mut desc = fresh();
    desc.content_etag = "etag-1".to_string();
    assert_eq!(validate_descriptor(&desc, &meta).unwrap_err().message, "stale descriptor");
    let mut desc = fresh();
    desc.layout_version = 2;
    assert!(validate_descriptor(&desc, &meta).is_err());
    let mut desc = fresh();
    desc.size = 127;
    assert!(validate_descriptor(&desc, &meta).is_err());
    let mut desc = fresh();
    desc.object_handle = "handle-1".to_string();
    assert!(validate_descriptor(&desc, &meta).is_err());
    let mut desc = fresh();
    desc.stripe_count = 9;
    assert!(validate_descriptor(&desc, &meta).is_ok());
}

#[test]
fn handle_is_made_up_from_key_and_version() {
    let mut meta = meta();
    assert_eq!(object_handle(STR_KEY, &meta), "handle-2");
    meta.object_handle.clear();
    assert_eq!(object_handle(STR_KEY, &meta), "v1:test/object:g2:l1");
    meta.object_generation = 18446744073709551615;
    meta.layout_version = 4294967295;
    assert_eq!(
        object_handle(STR_KEY, &meta),
        "v1:test/object:g18446744073709551615:l4294967295"
    );
}

#[test]
fn made_up_handles_differ_between_versions() {
    let mut a = meta();
    a.object_handle.clear();
    let mut b = a.clone();
    b.object_generation = 21;
    let mut c = a.clone();
    c.layout_version = 2;
    assert_ne!(object_handle(STR_KEY, &a), object_handle(STR_KEY, &b));
    assert_ne!(object_handle(STR_KEY, &a), object_handle(STR_KEY, &c));
}

#[test]
fn made_up_handle_is_never_accepted() {
    let mut meta = meta();
    meta.object_handle.clear();
    let desc = descriptor_from_meta(&key(), STR_KEY, &meta);
    assert_eq!(validate_descriptor(&desc, &meta).unwrap_err().code(), Code::FailedPrecondition);
}

#[test]
fn descriptor_counts_the_stripes() {
    let mut meta = meta();
    let plain = descriptor_from_meta(&key(), STR_KEY, &meta);
    assert!(!plain.is_striped);
    assert_eq!((plain.stripe_count, plain.chunk_size), (0, 0));
    meta.striping = Some(StripingInfo {
        chunk_size: 6,
        chunk_devices: vec![],
        chunk_paths: vec!["a".to_string(), "b".to_string(), "c".to_string()],
        total_size: 18,
        chunk_locations: vec![],
    });
    let striped = descriptor_from_meta(&key(), STR_KEY, &meta);
    assert!(striped.is_striped);
    assert_eq!((striped.stripe_count, striped.chunk_size), (3, 6));
    assert_eq!(striped.key, Some(internal_key_to_pb(&key())));
}

#[test]
fn descriptor_names_its_key() {
    let mut desc = descriptor_from_meta(&key(), STR_KEY, &meta());
    assert_eq!(key_from_descriptor(&desc).unwrap(), key());
    desc.key = None;
    let err = key_from_descriptor(&desc).unwrap_err();
    assert_eq!(err.code(), Code::InvalidArgument);
    assert_eq!(err.message, "descriptor missing key");
}

#[test]
fn keys_go_through_messages() {
    let message = ObjectKey { namespace: "n".to_string(), object_key: "k".to_string() };
    let internal = pb_key_to_internal(&message);
    assert_eq!(internal.namespace, "n");
    assert_eq!(internal.object_key, "k");
    assert_eq!(internal_key_to_pb(&internal), message);
}

#[test]
fn fresh_record_takes_the_metadata_of_the_client() {
    let m = client_metadata(50);
    let record = meta_from_pb_at(Some(&m), 1000);
    assert_eq!(record.object_generation, 1);
    assert_eq!(record.layout_version, 1);
    assert_eq!(record.created_at, 50);
    assert_eq!(record.last_accessed_at, 1000);
    assert_eq!(record.num_tokens, 7);
    assert_eq!(record.num_layers, 3);
    assert_eq!(record.dtype, "float16");
    assert!(record.compressed);
    assert!(record.striping.is_none());
    assert_eq!(record.size, 0);
    for created_at in [0, -5] {
        assert_eq!(meta_from_pb_at(Some(&client_metadata(created_at)), 1000).created_at, 1000);
    }
    let answer = meta_to_pb(&record);
    assert_eq!(answer.num_tokens, m.num_tokens);
    assert_eq!(answer.created_at, m.created_at);
    assert_eq!(answer.last_accessed_at, 1000);
    assert!(answer.shape.is_empty());
    assert_eq!(answer.compression_level, 0);
}

#[test]
fn fresh_record_without_metadata_has_defaults() {
    let record = meta_from_pb_at(None, 1000);
    assert_eq!(record.dtype, "bfloat16");
    assert_eq!((record.created_at, record.last_accessed_at), (1000, 1000));
    assert_eq!((record.num_tokens, record.num_layers), (0, 0));
    assert!(!record.compressed);
}

#[test]
fn fresh_record_is_written_now() {
    let before = std::time::SystemTime::now()
        .duration_since(std::time::UNIX_EPOCH)
        .unwrap()
        .as_secs() as i64;
    let record = meta_from_pb(None);
    assert!(record.last_accessed_at >= before);
    assert!(record.last_accessed_at <= before + 60);
    assert_eq!(record.created_at, record.last_accessed_at);
}

#[test]
fn options_are_off_by_default() {
    assert!(!put_options_if_not_exists(None));
    assert!(!put_options_if_not_exists(Some(&PutOptions { if_not_exists: false })));
    assert!(put_options_if_not_exists(Some(&PutOptions { if_not_exists: true })));
}

#[test]
fn get_responses_tell_found_from_missing() {
    let found = found_get_response(Bytes::from_static(b"data"), &meta());
    assert!(found.found);
    assert_eq!(&found.data[..], b"data");
    assert_eq!(found.metadata.unwrap().num_tokens, 16);
    let missing = missing_get_response();
    assert!(!missing.found && missing.data.is_empty() && missing.metadata.is_none());
}

#[test]
fn failed_memory_read_counts_as_missing() {
    let hit: Result<Option<(Bytes, BlockMeta)>, &str> =
        Ok(Some((Bytes::from_static(b"x"), meta())));
    let hit = memory_get_result_to_pb(hit);
    assert!(hit.found);
    assert_eq!(&hit.data[..], b"x");
    assert_eq!(
        memory_get_result_to_pb(Ok::<Option<(Bytes, BlockMeta)>, &str>(None)),
        missing_get_response()
    );
    assert_eq!(
        memory_get_result_to_pb(Err::<Option<(Bytes, BlockMeta)>, &str>("io")),
        missing_get_response()
    );
}

#[test]
fn chunk_locations_go_through_messages() {
    let loc = ChunkLocation {
        stripe_index: 4,
        node_id: "n".to_string(),
        grpc_endpoint: "g".to_string(),
        rdma_endpoint: "r".to_string(),
        device_id: 2,
        storage_handle: "/h".to_string(),
        offset: 24,
        length: 6,
    };
    let chunk = chunk_location_to_pb(&key(), &loc);
    assert_eq!((chunk.stripe_index, chunk.offset, chunk.length), (4, 24, 6));
    assert_eq!(chunk.storage_handle, "/h");
    assert_eq!(pb_chunk_to_location(&chunk), loc);
}
