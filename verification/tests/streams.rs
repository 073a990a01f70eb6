use kv_service::messages::{
    DataChunk, ObjectDescriptor, PlacementChunk, PlacementDescriptor, PutChunk,
};
use kv_service::payload::{flatten_segments, total_len};
use kv_service::stream::{
    stream_object, stream_object_by_descriptor, stream_stripe, stripe_offsets_fit, StripeReader,
    SUB_CHUNK,
};
use kv_service::stripes::fetched_chunk;
use kv_service::writes::PutStreamReader;
use prost::bytes::Bytes;

fn numbered(len: usize, seed: u8) -> Bytes {
    let bytes: Vec<u8> = (0..len).map(|i| (i % 251) as u8 ^ seed).collect();
    Bytes::from(bytes)
}

fn chunk(offset: u64, length: u64) -> PlacementChunk {
    PlacementChunk {
        stripe_index: 1,
        node_id: "n".to_string(),
        grpc_endpoint: "g".to_string(),
        rdma_endpoint: String::new(),
        device_id: 0,
        storage_handle: "/h".to_string(),
        offset,
        length,
    }
}

fn descriptor() -> ObjectDescriptor {
    ObjectDescriptor {
        key: None,
        object_handle: "h".to_string(),
        object_generation: 3,
        content_etag: String::new(),
        layout_version: 1,
        size: 0,
        is_striped: false,
        stripe_count: 0,
        chunk_size: 0,
    }
}

fn placement() -> PlacementDescriptor {
    PlacementDescriptor {
        key: None,
        placement_epoch: 1,
        placement_policy_id: "p".to_string(),
        layout_hash: "0".to_string(),
        primary_node_id: "n".to_string(),
        primary_grpc_endpoint: "g".to_string(),
        primary_rdma_endpoint: String::new(),
        chunks: vec![chunk(0, 1)],
    }
}

#[test]
fn segments_are_cut_into_pieces() {
    assert_eq!(SUB_CHUNK, 4 * 1024 * 1024);
    let segments = vec![numbered(SUB_CHUNK + 3, 0), numbered(5, 7), numbered(SUB_CHUNK, 9)];
    let total = (2 * SUB_CHUNK + 8) as i64;
    let chunks = stream_object(&segments);
    let sizes: Vec<(usize, i64, bool)> =
        chunks.iter().map(|c| (c.data.len(), c.offset, c.is_last)).collect();
    assert_eq!(
        sizes,
        vec![
            (SUB_CHUNK, 0, false),
            (3, SUB_CHUNK as i64, false),
            (5, SUB_CHUNK as i64 + 3, false),
            (SUB_CHUNK, SUB_CHUNK as i64 + 8, true),
        ]
    );
    assert!(chunks.iter().all(|c| c.total_size == total));
    let sent: Vec<u8> = chunks.iter().flat_map(|c| c.data.to_vec()).collect();
    let object: Vec<u8> = segments.iter().flat_map(|s| s.to_vec()).collect();
    assert_eq!(sent, object);
}

#[test]
fn empty_segments_give_no_pieces() {
    assert!(stream_object(&vec![]).is_empty());
    assert!(stream_object(&vec![Bytes::new(), Bytes::new()]).is_empty());
    let chunks = stream_object(&vec![Bytes::new(), Bytes::from_static(b"x"), Bytes::new()]);
    assert_eq!(chunks.len(), 1);
    assert!(chunks[0].is_last);
}

#[test]
fn descriptor_goes_with_the_first_piece() {
    let segments = vec![numbered(SUB_CHUNK + 1, 1), numbered(2, 2)];
    let chunks = stream_object_by_descriptor(&segments, &descriptor(), &placement());
    assert_eq!(chunks.len(), 3);
    assert_eq!(chunks[0].descriptor, Some(descriptor()));
    assert_eq!(chunks[0].placement, Some(placement()));
    assert!(chunks[1..].iter().all(|c| c.descriptor.is_none() && c.placement.is_none()));
    assert_eq!(chunks[2].offset, SUB_CHUNK as i64 + 1);
    assert!(chunks[2].is_last && !chunks[1].is_last);
    assert_eq!(chunks[1].total_size, SUB_CHUNK as i64 + 3);
    assert!(stream_object_by_descriptor(&vec![], &descriptor(), &placement()).is_empty());
}

#[test]
fn stripe_is_streamed_and_read_back() {
    let data = numbered(2 * SUB_CHUNK + 10, 3);
    let stripe = chunk(1000, data.len() as u64);
    assert!(stripe_offsets_fit(&data, &stripe));
    let chunks = stream_stripe(&data, &stripe);
    assert_eq!(chunks.len(), 3);
    assert_eq!(chunks[0].offset, 1000);
    assert_eq!(chunks[2].offset, 1000 + 2 * SUB_CHUNK as i64);
    assert!(chunks.iter().all(|c| c.total_size == data.len() as i64));
    let mut reader = StripeReader::new();
    let mut more = true;
    for c in chunks {
        assert!(more);
        more = reader.accept(c);
    }
    assert!(!more);
    let (index, bytes) = fetched_chunk(7, reader);
    assert_eq!(index, 7);
    assert_eq!(bytes, data);
}

#[test]
fn object_is_streamed_and_read_back() {
    let segments = vec![numbered(SUB_CHUNK + 1, 1), Bytes::new(), numbered(9, 2)];
    let mut reader = StripeReader::new();
    for c in stream_object(&segments) {
        reader.accept(c);
    }
    assert_eq!(fetched_chunk(0, reader).1, flatten_segments(segments));
}

#[test]
fn nothing_counts_after_the_last_piece() {
    let piece = |byte: &'static [u8], is_last: bool| DataChunk {
        data: Bytes::from_static(byte),
        offset: 0,
        total_size: 0,
        is_last,
    };
    let mut reader = StripeReader::new();
    assert!(reader.accept(piece(b"a", false)));
    assert!(!reader.accept(piece(b"b", true)));
    assert!(!reader.accept(piece(b"c", false)));
    assert_eq!(&fetched_chunk(0, reader).1[..], b"ab");
    assert!(fetched_chunk(0, StripeReader::new()).1.is_empty());
}

#[test]
fn offsets_beyond_the_counter_are_noticed() {
    let data = numbered(SUB_CHUNK + 1, 3);
    let last_fit = i64::MAX as u64 - SUB_CHUNK as u64;
    assert!(stripe_offsets_fit(&data, &chunk(last_fit, 1)));
    assert!(!stripe_offsets_fit(&data, &chunk(last_fit + 1, 1)));
    assert!(stripe_offsets_fit(&Bytes::new(), &chunk(i64::MAX as u64, 0)));
    assert!(stripe_offsets_fit(&data, &chunk(u64::MAX, 1)));
}

#[test]
fn segments_are_flattened_in_order() {
    assert!(flatten_segments(vec![]).is_empty());
    let only = Bytes::from_static(b"only");
    assert_eq!(flatten_segments(vec![only.clone()]), only);
    let parts = vec![
        Bytes::from_static(b"ab"),
        Bytes::new(),
        Bytes::from_static(b"c"),
        Bytes::from_static(b"def"),
    ];
    assert_eq!(total_len(&parts), Some(6));
    assert_eq!(&flatten_segments(parts)[..], b"abcdef");
}

#[test]
fn written_stream_ends_at_the_last_message() {
    let message = |byte: &'static [u8], is_last: bool| PutChunk {
        key: None,
        metadata: None,
        options: None,
        total_size: 0,
        data: Bytes::from_static(byte),
        is_last,
    };
    let mut reader = PutStreamReader::new();
    assert!(reader.accept(message(b"a", false)));
    assert!(reader.accept(message(b"b", false)));
    assert!(!reader.accept(message(b"c", true)));
    assert!(!reader.accept(message(b"d", false)));
    assert!(reader.finished);
    let bytes: Vec<u8> = reader.chunks.iter().flat_map(|c| c.data.to_vec()).collect();
    assert_eq!(bytes, b"abc");
}
