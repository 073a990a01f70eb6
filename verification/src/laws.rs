//! What the operations of the service promise, told of their inputs and their results.
use crate::admin::{
    gpu_read_answer, gpu_transfer, health_answer, is_gpu_record, stats_answer, GdsSupport,
};
use crate::batch::{
    answered_slots, are_local_writes, filled_slots, groups_hold, groups_view, is_accepted_group,
    is_get_batch_plan, is_local_put, is_put_batch_plan, joint_outcomes, local_answer, local_indexes,
    local_part_is_exact, owners_of, placed_all, remote_groups, remote_part_is_exact,
    single_outcomes, BatchKind, GetBatchPlan, LocalPut, LocalWrites, PutBatchPlan,
};
use crate::cluster::{
    data_nodes, is_this_node, metadata_owner, spreads, stripe_node, stripe_slot, this_node,
    uri_of, xxh3_hash64,
};
use crate::convert::{
    absent_object, chunk_location, describes, descriptor_of, fresh_meta, handle_of, internal_key,
    keeps_existing, message_chunk, message_key, message_meta, present_object,
};
use crate::messages::{
    DataChunk, DescriptorDataChunk, GetResponseView, KvMetadataView, ObjectDescriptor, ObjectDescriptorView, ObjectKey,
    ObjectKeyView, PlacementChunk, PlacementChunkView, PlacementDescriptorView, PutChunk,
    PutFromGpuRequest, PutOptionsView, PutPlacementChunkRequest, PutPlacementChunkResponseView,
    PutRequest, ReadPlacementChunkRequest,
};
use crate::model::{
    BlockMeta, BlockMetaView, ChunkLocation, ChunkLocationView, DataNodeView, InternalKey,
    InternalKeyView, KVServiceContextView, NodeEnvView, StripingInfoView,
};
use crate::order::{all_ok, is_first_error, of_stripe, ok_values, stripe_sorted, Striped};
use crate::payload::{bytes_of, bytes_of_each, joined};
use crate::placement::{
    chunk_node, chunk_text, chunks_of, chunks_text, layout_text, offsets_fit, placement_of,
    placement_with, reaches_other_nodes,
};
use crate::reads::{
    absent_version, chunks_answer, delete_answer, delete_chunk_answer, exists_answer,
    is_asked_chunk, is_asked_key, is_described_key, is_descriptor_source, is_object_source,
    is_object_stream, is_required_chunk, is_required_version, is_route, is_version_stream,
    key_not_found, lookup_answer, memory_answer, outcome_name, present_version, version_answer,
    DescriptorSource, ObjectSource, Route,
};
use crate::spread::{write_goes_on, SpreadWrite, WriteAction, WriteEvent, WriteStage};
use crate::status::{peer_error, Code, PeerCall, Status};
use crate::stream::{
    data_stream, message_bytes, piece_bytes, stream_fits, stream_holds_the_object,
    stream_marks_its_ends, stream_messages_are_contiguous, stream_pieces,
};
use crate::stripes::{
    are_collected_chunks, each_stripe_is_at_its_place, is_committed_record, is_delete_chunk_step,
    is_fetched_chunk, is_loaded_chunk, is_put_chunk_step, is_read_chunk_step, is_sent_location, location_on, location_views,
    one_for_each_stripe, stripe_size, stripe_tasks, striped_descriptor, striped_record,
    DeleteChunkStep, PutChunkStep, ReadChunkStep, StripeTask,
};
use crate::text::{decimal, decimal_has_digits_alone, decimal_tells_numbers_apart, hex_digits};
use crate::writes::{
    is_put_plan, is_stream_key, is_put_stream_plan, is_store_plan, stored_answer, stream_bytes,
    stream_can_be_stored, PutPlan,
    PutStreamPlan, StorePlan,
};
use vstd::prelude::*;
use vstd::utf8::encode_utf8;

verus! {

// Numbers.

/// The value of one digit.
pub open spec fn digit_value(c: char) -> nat {
    if '0' <= c && c <= '9' {
        (c as int - '0' as int) as nat
    } else {
        (c as int - 'a' as int + 10) as nat
    }
}

/// The number that digits in base `base` stand for, highest digit first.
pub open spec fn number_of(digits: Seq<char>, base: nat) -> nat
    decreases digits.len(),
{
    if digits.len() == 0 {
        0
    } else {
        base * number_of(digits.drop_last(), base) + digit_value(digits.last())
    }
}

/// How many numbers can be written with `width` hexadecimal digits.
pub open spec fn hex_range(width: nat) -> nat
    decreases width,
{
    if width == 0 {
        1
    } else {
        16 * hex_range((width - 1) as nat)
    }
}

/// A number that is written in base ten can be read back, and has no leading zero.
pub proof fn decimal_is_read_back(n: nat)
    ensures
        number_of(decimal(n), 10) == n,
        decimal(n).len() > 0,
        n > 0 ==> decimal(n)[0] != '0',
    decreases n,
{
    if n < 10 {
        let d = decimal(n);
        assert(d.drop_last() =~= seq![]);
        assert(number_of(d.drop_last(), 10) == 0);
    } else {
        decimal_is_read_back(n / 10);
        let d = decimal(n);
        assert(d.drop_last() =~= decimal(n / 10));
        assert(d[0] == decimal(n / 10)[0]);
    }
}

/// A number that is written in hexadecimal digits can be read back, takes as many digits as it
/// is given, and is written in lower case.
pub proof fn hex_is_read_back(n: nat, width: nat)
    requires
        n < hex_range(width),
    ensures
        hex_digits(n, width).len() == width,
        number_of(hex_digits(n, width), 16) == n,
        forall|i: int|
            0 <= i < width ==> ('0' <= #[trigger] hex_digits(n, width)[i] <= '9') || ('a'
                <= hex_digits(n, width)[i] <= 'f'),
    decreases width,
{
    if width > 0 {
        let rest = hex_digits(n / 16, (width - 1) as nat);
        hex_is_read_back(n / 16, (width - 1) as nat);
        assert(hex_digits(n, width).drop_last() =~= rest);
    }
}

// Keys, records and metadata.

/// A key keeps its namespace and its name on the way into a message and out of it.
pub proof fn keys_keep_their_parts(message: ObjectKeyView, internal: InternalKeyView)
    ensures
        internal_key(message).namespace == message.namespace,
        internal_key(message).object_key == message.object_key,
        message_key(internal).namespace == internal.namespace,
        message_key(internal).object_key == internal.object_key,
{
}

/// What a read says of an object is what the record of the object holds, whatever its size and
/// its layout.
pub proof fn reads_tell_what_the_record_holds(m: BlockMetaView)
    ensures
        message_meta(m).num_tokens == m.num_tokens,
        message_meta(m).num_layers == m.num_layers,
        message_meta(m).dtype == m.dtype,
        message_meta(m).compressed == m.compressed,
        message_meta(m).created_at == m.created_at,
        message_meta(m).last_accessed_at == m.last_accessed_at,
        message_meta(m).shape == Seq::<i64>::empty(),
        message_meta(m).compression_level == 0,
{
}

/// The record of a new object holds the metadata that came with the write, and the time of the
/// write; the client's time of creation counts where it is positive.
pub proof fn new_records_hold_the_metadata(m: KvMetadataView, now: i64)
    ensures
        ({
            let r = fresh_meta(Some(m), now);
            &&& r.num_tokens == m.num_tokens
            &&& r.num_layers == m.num_layers
            &&& r.dtype == m.dtype
            &&& r.compressed == m.compressed
            &&& m.created_at > 0 ==> r.created_at == m.created_at
            &&& m.created_at <= 0 ==> r.created_at == now
            &&& r.last_accessed_at == now
        }),
{
}

/// The record of a new object is the first version of it, has no place yet and does not expire.
/// Without metadata it is a plain object of the usual type, made when it is written.
pub proof fn new_records_begin_anew(m: Option<KvMetadataView>, now: i64)
    ensures
        ({
            let r = fresh_meta(m, now);
            &&& r.object_generation == 1
            &&& r.layout_version == 1
            &&& r.object_handle.len() == 0
            &&& r.content_etag.len() == 0
            &&& r.file_path.len() == 0
            &&& r.size == 0
            &&& r.device_id == 0
            &&& r.ttl_seconds == 0
            &&& r.striping is None
            &&& r.last_accessed_at == now
            &&& m is None ==> {
                &&& r.created_at == now
                &&& r.num_tokens == 0
                &&& r.num_layers == 0
                &&& r.dtype == "bfloat16"@
                &&& !r.compressed
            }
        }),
{
}

/// Only a write that says so leaves an object that is there.
pub proof fn only_the_option_keeps_an_object(options: PutOptionsView)
    ensures
        keeps_existing(Some(options)) == options.if_not_exists,
        !keeps_existing(None),
{
}

/// An object that is found is answered with its bytes and with what its record holds; one that
/// is not is answered with nothing.
pub proof fn found_objects_are_answered_whole(data: Seq<u8>, m: BlockMetaView)
    ensures
        ({
            let found = present_object(data, m);
            &&& found.found
            &&& found.data == data
            &&& found.metadata matches Some(told) && {
                &&& told.num_tokens == m.num_tokens
                &&& told.num_layers == m.num_layers
                &&& told.dtype == m.dtype
                &&& told.compressed == m.compressed
                &&& told.created_at == m.created_at
                &&& told.last_accessed_at == m.last_accessed_at
            }
        }),
        !absent_object().found,
        absent_object().data.len() == 0,
        absent_object().metadata is None,
{
}

/// The location of a stripe keeps each of its parts on the way into a message and out of it.
pub proof fn locations_keep_their_parts(loc: ChunkLocationView, chunk: PlacementChunkView)
    ensures
        message_chunk(loc).stripe_index == loc.stripe_index,
        message_chunk(loc).node_id == loc.node_id,
        message_chunk(loc).grpc_endpoint == loc.grpc_endpoint,
        message_chunk(loc).rdma_endpoint == loc.rdma_endpoint,
        message_chunk(loc).device_id == loc.device_id,
        message_chunk(loc).storage_handle == loc.storage_handle,
        message_chunk(loc).offset == loc.offset,
        message_chunk(loc).length == loc.length,
        chunk_location(chunk).stripe_index == chunk.stripe_index,
        chunk_location(chunk).node_id == chunk.node_id,
        chunk_location(chunk).grpc_endpoint == chunk.grpc_endpoint,
        chunk_location(chunk).rdma_endpoint == chunk.rdma_endpoint,
        chunk_location(chunk).device_id == chunk.device_id,
        chunk_location(chunk).storage_handle == chunk.storage_handle,
        chunk_location(chunk).offset == chunk.offset,
        chunk_location(chunk).length == chunk.length,
{
}

// Descriptors.

proof fn lemma_same_number_at_the_end(
    a: Seq<char>,
    b: Seq<char>,
    mark: Seq<char>,
    m: nat,
    n: nat,
    tail: Seq<char>,
)
    requires
        mark.len() == 2,
        !('0' <= mark[1] <= '9'),
        a + mark + decimal(m) + tail == b + mark + decimal(n) + tail,
    ensures
        a == b,
        m == n,
{
    let dm = decimal(m);
    let dn = decimal(n);
    let ta = a + mark + dm + tail;
    let tb = b + mark + dn + tail;
    let len = ta.len() as int;
    let t = tail.len() as int;
    decimal_has_digits_alone(m);
    decimal_has_digits_alone(n);
    if dm.len() < dn.len() {
        let p = len - t - dm.len() - 1;
        assert(ta[p] == mark[1]);
        assert(tb[p] == dn[dn.len() - dm.len() - 1]);
        assert(false);
    }
    if dn.len() < dm.len() {
        let p = len - t - dn.len() - 1;
        assert(tb[p] == mark[1]);
        assert(ta[p] == dm[dm.len() - dn.len() - 1]);
        assert(false);
    }
    let k = dm.len() as int;
    assert(ta.subrange(len - t - k, len - t) =~= dm);
    assert(tb.subrange(len - t - k, len - t) =~= dn);
    decimal_tells_numbers_apart(m, n);
    assert(ta.take(len - t - k - 2) =~= a);
    assert(tb.take(len - t - k - 2) =~= b);
}

/// A handle that is made up for a version tells the object, the generation and the layout:
/// different ones have different handles. It begins with the format and the object's key.
pub proof fn made_up_handles_name_one_version(
    key_a: Seq<char>,
    key_b: Seq<char>,
    a: BlockMetaView,
    b: BlockMetaView,
)
    requires
        a.object_handle.len() == 0,
        b.object_handle.len() == 0,
    ensures
        ("v1:"@ + key_a + ":g"@).is_prefix_of(handle_of(key_a, a)),
        handle_of(key_a, a) == handle_of(key_b, b) ==> {
            &&& key_a == key_b
            &&& a.object_generation == b.object_generation
            &&& a.layout_version == b.layout_version
        },
{
    reveal_strlit(":g");
    reveal_strlit(":l");
    let ha = handle_of(key_a, a);
    let hb = handle_of(key_b, b);
    let ga = decimal(a.object_generation as nat);
    let gb = decimal(b.object_generation as nat);
    assert(ha.take(("v1:"@ + key_a + ":g"@).len() as int) =~= "v1:"@ + key_a + ":g"@);
    if ha == hb {
        let xa = "v1:"@ + key_a + ":g"@ + ga;
        let xb = "v1:"@ + key_b + ":g"@ + gb;
        let none = Seq::<char>::empty();
        assert(xa + ":l"@ + decimal(a.layout_version as nat) + none =~= ha);
        assert(xb + ":l"@ + decimal(b.layout_version as nat) + none =~= hb);
        lemma_same_number_at_the_end(
            xa,
            xb,
            ":l"@,
            a.layout_version as nat,
            b.layout_version as nat,
            none,
        );
        let ya = "v1:"@ + key_a;
        let yb = "v1:"@ + key_b;
        assert(ya + ":g"@ + ga + none =~= xa);
        assert(yb + ":g"@ + gb + none =~= xb);
        lemma_same_number_at_the_end(
            ya,
            yb,
            ":g"@,
            a.object_generation as nat,
            b.object_generation as nat,
            none,
        );
        let n = "v1:"@.len() as int;
        assert(ya.skip(n) =~= key_a);
        assert(yb.skip(n) =~= key_b);
    }
}

/// A descriptor names its object and says of the version what the record says: a handle that
/// the record holds is handed out as it is, and an object is striped exactly where its record
/// lists stripes.
pub proof fn descriptors_tell_the_version(
    key: InternalKeyView,
    str_key: Seq<char>,
    m: BlockMetaView,
)
    ensures
        ({
            let d = descriptor_of(key, str_key, m);
            &&& d.key matches Some(k) && k.namespace == key.namespace && k.object_key
                == key.object_key
            &&& m.object_handle.len() > 0 ==> d.object_handle == m.object_handle
            &&& d.object_handle.len() > 0
            &&& d.object_generation == m.object_generation
            &&& d.content_etag == m.content_etag
            &&& d.layout_version == m.layout_version
            &&& d.size == m.size
            &&& d.is_striped <==> m.striping is Some
            &&& m.striping is None ==> d.stripe_count == 0 && d.chunk_size == 0
            &&& m.striping matches Some(s) ==> d.chunk_size == s.chunk_size && (
            s.chunk_paths.len() <= u32::MAX ==> d.stripe_count == s.chunk_paths.len())
        }),
{
    reveal_strlit("v1:");
    if m.object_handle.len() == 0 {
        assert(handle_of(str_key, m).len() >= "v1:"@.len());
    }
}

/// The descriptor of one version is accepted for another one exactly where the two agree on the
/// generation, the content, the layout, the size and the handle.
pub proof fn descriptors_are_accepted_for_their_version(
    key: InternalKeyView,
    str_key: Seq<char>,
    described: BlockMetaView,
    active: BlockMetaView,
)
    requires
        described.object_handle.len() > 0,
    ensures
        describes(descriptor_of(key, str_key, described), active) <==> {
            &&& described.object_generation == active.object_generation
            &&& described.content_etag == active.content_etag
            &&& described.layout_version == active.layout_version
            &&& described.size == active.size
            &&& described.object_handle == active.object_handle
        },
{
}

// Nodes.

/// What the environment says of this node comes first, field by field, and so a data node with
/// the name or the endpoint that the environment gives is this node.
pub proof fn environment_comes_first(
    ctx: KVServiceContextView,
    env: NodeEnvView,
    node: DataNodeView,
)
    ensures
        env.node_id matches Some(v) ==> v.len() > 0 ==> {
            &&& this_node(ctx, env).node_id == v
            &&& node.node_id == v ==> is_this_node(ctx, env, node)
        },
        env.grpc_advertise matches Some(v) ==> v.len() > 0 ==> {
            &&& this_node(ctx, env).grpc_endpoint == v
            &&& node.grpc_endpoint == v ==> is_this_node(ctx, env, node)
        },
        env.rdma_advertise matches Some(v) ==> v.len() > 0 ==> this_node(ctx, env).rdma_endpoint
            == v,
{
}

/// Whether the environment leaves something open: it does not give it, or gives nothing.
pub open spec fn left_open(v: Option<Seq<char>>) -> bool {
    v is None || v == Some(Seq::<char>::empty())
}

/// What the environment leaves open, the configuration says, field by field; what that leaves
/// open too is the usual name, the address on which the service listens, and no RDMA.
pub proof fn configuration_comes_second(ctx: KVServiceContextView, env: NodeEnvView)
    ensures
        ({
            let node = this_node(ctx, env);
            let cluster = ctx.config.cluster;
            &&& left_open(env.node_id) && cluster.node_id.len() > 0 ==> node.node_id
                == cluster.node_id
            &&& left_open(env.node_id) && cluster.node_id.len() == 0 ==> node.node_id == "local"@
            &&& left_open(env.grpc_advertise) && cluster.grpc_advertise.len() > 0
                ==> node.grpc_endpoint == cluster.grpc_advertise
            &&& left_open(env.grpc_advertise) && cluster.grpc_advertise.len() == 0
                ==> node.grpc_endpoint == ctx.config.api.listen
            &&& left_open(env.rdma_advertise) && cluster.rdma_advertise.len() > 0
                ==> node.rdma_endpoint == cluster.rdma_advertise
            &&& left_open(env.rdma_advertise) && cluster.rdma_advertise.len() == 0
                ==> node.rdma_endpoint == Seq::<char>::empty()
        }),
{
}

/// The name or the endpoint tells this node, and nothing else does.
pub proof fn name_or_endpoint_tells_this_node(
    ctx: KVServiceContextView,
    env: NodeEnvView,
    node: DataNodeView,
    other: DataNodeView,
)
    ensures
        node.node_id == this_node(ctx, env).node_id ==> is_this_node(ctx, env, node),
        node.grpc_endpoint == this_node(ctx, env).grpc_endpoint ==> is_this_node(ctx, env, node),
        node.node_id != this_node(ctx, env).node_id && node.grpc_endpoint != this_node(
            ctx,
            env,
        ).grpc_endpoint ==> !is_this_node(ctx, env, node),
        node.node_id == other.node_id && node.grpc_endpoint == other.grpc_endpoint ==> (
        is_this_node(ctx, env, node) <==> is_this_node(ctx, env, other)),
{
}

/// The data nodes are those that the configuration lists, in that order and with their
/// addresses; a node without a name is known by its endpoint. Where none is listed, this node
/// is the only one.
pub proof fn listed_nodes_keep_their_addresses(
    ctx: KVServiceContextView,
    env: NodeEnvView,
    i: int,
)
    ensures
        ({
            let listed = ctx.config.cluster.data_nodes;
            let nodes = data_nodes(ctx, env);
            &&& listed.len() == 0 ==> nodes.len() == 1 && nodes[0] == this_node(ctx, env)
            &&& listed.len() > 0 ==> nodes.len() == listed.len()
            &&& 0 <= i < listed.len() ==> {
                &&& nodes[i].grpc_endpoint == listed[i].grpc_endpoint
                &&& nodes[i].rdma_endpoint == listed[i].rdma_endpoint
                &&& listed[i].node_id.len() > 0 ==> nodes[i].node_id == listed[i].node_id
                &&& listed[i].node_id.len() == 0 ==> nodes[i].node_id == listed[i].grpc_endpoint
            }
        }),
{
}

/// An object is spread exactly where a threshold is set, the object is larger, and the
/// configuration lists several nodes to spread it over.
pub proof fn large_objects_are_spread(ctx: KVServiceContextView, env: NodeEnvView, len: nat)
    ensures
        ctx.storage.striping_threshold == 0 ==> !spreads(ctx, env, len),
        len <= ctx.storage.striping_threshold ==> !spreads(ctx, env, len),
        ctx.config.cluster.data_nodes.len() <= 1 ==> !spreads(ctx, env, len),
        0 < ctx.storage.striping_threshold < len && ctx.config.cluster.data_nodes.len() >= 2
            ==> spreads(ctx, env, len),
        spreads(ctx, env, len) ==> spreads(ctx, env, len + 1),
{
}

/// The hash of the key, as the machine can count it, picks the node of the first stripe, and
/// each further stripe is on the next node, the first one coming after the last.
pub proof fn next_stripe_is_on_the_next_node(hash: u64, i: nat, count: nat)
    requires
        count > 0,
    ensures
        stripe_slot(hash, 0, count) == (hash as usize) as int % count as int,
        stripe_slot(hash, i + 1, count) == (if stripe_slot(hash, i, count) + 1 < count {
            stripe_slot(hash, i, count) + 1
        } else {
            0
        }),
{
    let n = count as int;
    let base = (hash as usize) as int % n;
    vstd::arithmetic::div_mod::lemma_small_mod(base as nat, count);
    let a = base + i;
    vstd::arithmetic::div_mod::lemma_fundamental_div_mod(a, n);
    let q = a / n;
    let r = a % n;
    if r + 1 < n {
        vstd::arithmetic::div_mod::lemma_fundamental_div_mod_converse(a + 1, n, q, r + 1);
    } else {
        assert(n * (q + 1) == n * q + n) by (nonlinear_arith);
        vstd::arithmetic::div_mod::lemma_fundamental_div_mod_converse(a + 1, n, q + 1, 0);
    }
    assert(base + (i + 1) == a + 1);
}

/// The owner of an object is a data node, the one that the hash of the object's key picks, and
/// every stripe is on a data node.
pub proof fn hash_picks_the_owner(
    ctx: KVServiceContextView,
    env: NodeEnvView,
    str_key: Seq<char>,
    i: nat,
)
    ensures
        ({
            let nodes = data_nodes(ctx, env);
            let hash = xxh3_hash64(encode_utf8(str_key));
            &&& metadata_owner(ctx, env, str_key) == nodes[(hash as usize) as int
                % nodes.len() as int]
            &&& nodes.contains(metadata_owner(ctx, env, str_key))
            &&& nodes.contains(stripe_node(ctx, env, str_key, i))
            &&& stripe_node(ctx, env, str_key, i + nodes.len()) == stripe_node(
                ctx,
                env,
                str_key,
                i,
            )
        }),
{
    let nodes = data_nodes(ctx, env);
    let hash = xxh3_hash64(encode_utf8(str_key));
    next_stripe_is_on_the_next_node(hash, 0, nodes.len());
    crate::cluster::rounds_repeat(hash, i, nodes.len());
    crate::cluster::rounds_repeat(hash, 0, nodes.len());
}

/// A node is called under its endpoint: a scheme that the endpoint has is kept, and plain HTTP
/// is put in front of one that has none.
pub proof fn uris_lead_to_the_endpoint(endpoint: Seq<char>)
    ensures
        ({
            let uri = uri_of(endpoint);
            let plain = "http://"@;
            let secure = "https://"@;
            &&& plain.is_prefix_of(uri) || secure.is_prefix_of(uri)
            &&& plain.is_prefix_of(endpoint) || secure.is_prefix_of(endpoint) ==> uri == endpoint
            &&& !plain.is_prefix_of(endpoint) && !secure.is_prefix_of(endpoint) ==> {
                &&& plain.is_prefix_of(uri)
                &&& uri.skip(plain.len() as int) == endpoint
            }
        }),
{
    let plain = "http://"@;
    assert((plain + endpoint).subrange(0, plain.len() as int) =~= plain);
    assert((plain + endpoint).skip(plain.len() as int) =~= endpoint);
}

/// A request is kept exactly where its owner has the name or the endpoint of this node.
/// Otherwise it goes, as it came, to the owner, which the hash of the key picks among the data
/// nodes, under the owner's endpoint.
pub proof fn requests_go_to_the_owner<R>(
    ctx: KVServiceContextView,
    env: NodeEnvView,
    str_key: Seq<char>,
    request: R,
    route: Route<R>,
)
    requires
        is_route(ctx, env, str_key, request, route),
    ensures
        ({
            let nodes = data_nodes(ctx, env);
            let slot = (xxh3_hash64(encode_utf8(str_key)) as usize) as int % nodes.len() as int;
            let owner = nodes[slot];
            let here = this_node(ctx, env);
            &&& route is Local <==> owner.node_id == here.node_id || owner.grpc_endpoint
                == here.grpc_endpoint
            &&& match route {
                Route::Local { request: kept } => kept == request,
                Route::Owner { node, uri, request: sent } => {
                    &&& sent == request
                    &&& node.node_id@ == owner.node_id
                    &&& node.grpc_endpoint@ == owner.grpc_endpoint
                    &&& node.rdma_endpoint@ == owner.rdma_endpoint
                    &&& uri@ == uri_of(owner.grpc_endpoint)
                },
            }
        }),
{
    hash_picks_the_owner(ctx, env, str_key, 0);
}

// Placements.

/// A chunk without a location of its own is on this node, with all of the node's addresses,
/// and this node is the primary node of the placement.
pub proof fn unlocated_chunks_are_on_this_node(
    ctx: KVServiceContextView,
    env: NodeEnvView,
    key: InternalKeyView,
    str_key: Seq<char>,
    m: BlockMetaView,
    i: int,
)
    requires
        m.striping matches Some(s) ==> s.chunk_locations.len() != s.chunk_paths.len(),
        0 <= i < placement_of(ctx, env, key, str_key, m).chunks.len(),
    ensures
        ({
            let placement = placement_of(ctx, env, key, str_key, m);
            let chunk = placement.chunks[i];
            let here = this_node(ctx, env);
            &&& chunk_node(chunk) == here
            &&& chunk.node_id == here.node_id
            &&& chunk.grpc_endpoint == here.grpc_endpoint
            &&& chunk.rdma_endpoint == here.rdma_endpoint
            &&& chunk.node_id == placement.primary_node_id
            &&& chunk.grpc_endpoint == placement.primary_grpc_endpoint
            &&& chunk.rdma_endpoint == placement.primary_rdma_endpoint
        }),
{
}

/// An object that is not striped is one chunk: all of the object, in its file and on its device.
pub proof fn whole_objects_are_one_chunk(node: DataNodeView, m: BlockMetaView)
    requires
        m.striping is None,
    ensures
        ({
            let chunks = chunks_of(node, m);
            &&& chunks.len() == 1
            &&& chunks[0].stripe_index == 0
            &&& chunks[0].offset == 0
            &&& chunks[0].length == m.size
            &&& chunks[0].storage_handle == m.file_path
            &&& chunks[0].device_id == m.device_id
            &&& chunk_node(chunks[0]) == node
        }),
{
}

/// Stripes without locations are one chunk for each file, in order, on the device that the
/// record lists for it, or on the first one where it lists none.
pub proof fn unlocated_stripes_are_their_files(
    node: DataNodeView,
    m: BlockMetaView,
    s: StripingInfoView,
    i: int,
)
    requires
        m.striping == Some(s),
        s.chunk_locations.len() != s.chunk_paths.len(),
        0 <= i < s.chunk_paths.len() <= u32::MAX,
    ensures
        ({
            let chunks = chunks_of(node, m);
            &&& chunks.len() == s.chunk_paths.len()
            &&& chunks[i].stripe_index == i
            &&& chunks[i].storage_handle == s.chunk_paths[i]
            &&& i < s.chunk_devices.len() ==> chunks[i].device_id == s.chunk_devices[i]
            &&& i >= s.chunk_devices.len() ==> chunks[i].device_id == 0
            &&& chunks[i].length <= s.chunk_size
            &&& chunk_node(chunks[i]) == node
        }),
{
}

/// Stripes with locations are one chunk for each location, in order and as it is recorded.
pub proof fn located_stripes_are_where_they_are_recorded(
    node: DataNodeView,
    m: BlockMetaView,
    s: StripingInfoView,
    i: int,
)
    requires
        m.striping == Some(s),
        s.chunk_locations.len() == s.chunk_paths.len(),
        0 <= i < s.chunk_locations.len(),
    ensures
        ({
            let chunks = chunks_of(node, m);
            let loc = s.chunk_locations[i];
            &&& chunks.len() == s.chunk_locations.len()
            &&& chunks[i].stripe_index == loc.stripe_index
            &&& chunks[i].node_id == loc.node_id
            &&& chunks[i].grpc_endpoint == loc.grpc_endpoint
            &&& chunks[i].rdma_endpoint == loc.rdma_endpoint
            &&& chunks[i].device_id == loc.device_id
            &&& chunks[i].storage_handle == loc.storage_handle
            &&& chunks[i].offset == loc.offset
            &&& chunks[i].length == loc.length
        }),
{
}

/// Stripes that are computed need offsets that can be counted: the record is refused exactly
/// where the offset of the last stripe is too large.
pub proof fn offsets_are_counted(m: BlockMetaView, s: StripingInfoView, i: int)
    requires
        m.striping == Some(s),
        s.chunk_locations.len() != s.chunk_paths.len(),
    ensures
        offsets_fit(m) && 0 <= i < s.chunk_paths.len() ==> i * s.chunk_size <= u64::MAX,
        !offsets_fit(m) ==> (s.chunk_paths.len() - 1) * s.chunk_size > u64::MAX,
{
    if 0 <= i < s.chunk_paths.len() {
        let last = s.chunk_paths.len() - 1;
        assert(i * s.chunk_size <= last * s.chunk_size) by (nonlinear_arith)
            requires
                0 <= i <= last,
                0 <= s.chunk_size,
        ;
    }
}

/// A placement names its object, its policy and its primary node, which is this one, and its
/// layout hash can be read back.
pub proof fn placements_tell_where_the_object_is(
    ctx: KVServiceContextView,
    env: NodeEnvView,
    key: InternalKeyView,
    str_key: Seq<char>,
    m: BlockMetaView,
)
    ensures
        ({
            let p = placement_of(ctx, env, key, str_key, m);
            let here = this_node(ctx, env);
            let strategy = ctx.config.router.strategy;
            let text = layout_text(str_key, m, p.placement_policy_id, p.chunks);
            &&& p.key matches Some(k) && k.namespace == key.namespace && k.object_key
                == key.object_key
            &&& p.placement_epoch == 1
            &&& p.placement_policy_id == strategy + "_v1"@
            &&& p.primary_node_id == here.node_id
            &&& p.primary_grpc_endpoint == here.grpc_endpoint
            &&& p.primary_rdma_endpoint == here.rdma_endpoint
            &&& p.chunks == chunks_of(here, m)
            &&& p.layout_hash.len() == 16
            &&& number_of(p.layout_hash, 16) == xxh3_hash64(encode_utf8(text))
        }),
{
    let p = placement_of(ctx, env, key, str_key, m);
    let hash = xxh3_hash64(
        encode_utf8(layout_text(str_key, m, p.placement_policy_id, p.chunks)),
    );
    assert(hex_range(16) == 0x1_0000_0000_0000_0000) by {
        reveal_with_fuel(hex_range, 17);
    }
    hex_is_read_back(hash as nat, 16);
}

/// A placement that is put together from its parts holds them.
pub proof fn placements_hold_their_parts(
    node: DataNodeView,
    key: InternalKeyView,
    policy: Seq<char>,
    chunks: Seq<PlacementChunkView>,
    hash: u64,
)
    ensures
        ({
            let p = placement_with(node, key, policy, chunks, hash);
            &&& p.key matches Some(k) && k.namespace == key.namespace && k.object_key
                == key.object_key
            &&& p.placement_policy_id == policy
            &&& p.chunks == chunks
            &&& number_of(p.layout_hash, 16) == hash
            &&& p.primary_node_id == node.node_id
            &&& p.primary_grpc_endpoint == node.grpc_endpoint
            &&& p.primary_rdma_endpoint == node.rdma_endpoint
        }),
{
    assert(hex_range(16) == 0x1_0000_0000_0000_0000) by {
        reveal_with_fuel(hex_range, 17);
    }
    hex_is_read_back(hash as nat, 16);
}

/// The text that is hashed tells the object and its version: two objects or versions with the
/// same chunks under the same policy have different texts.
pub proof fn layouts_tell_versions_apart(
    key_a: Seq<char>,
    key_b: Seq<char>,
    a: BlockMetaView,
    b: BlockMetaView,
    policy: Seq<char>,
    chunks: Seq<PlacementChunkView>,
)
    requires
        layout_text(key_a, a, policy, chunks) == layout_text(key_b, b, policy, chunks),
    ensures
        key_a == key_b,
        a.object_generation == b.object_generation,
        a.layout_version == b.layout_version,
{
    reveal_strlit("|g");
    reveal_strlit("|l");
    let ta = layout_text(key_a, a, policy, chunks);
    let tb = layout_text(key_b, b, policy, chunks);
    let ga = decimal(a.object_generation as nat);
    let gb = decimal(b.object_generation as nat);
    let tail = "|"@ + policy + "|"@ + decimal(chunks.len()) + chunks_text(chunks);
    let none = Seq::<char>::empty();
    let xa = key_a + "|g"@ + ga;
    let xb = key_b + "|g"@ + gb;
    assert(xa + "|l"@ + decimal(a.layout_version as nat) + tail =~= ta);
    assert(xb + "|l"@ + decimal(b.layout_version as nat) + tail =~= tb);
    lemma_same_number_at_the_end(
        xa,
        xb,
        "|l"@,
        a.layout_version as nat,
        b.layout_version as nat,
        tail,
    );
    assert(key_a + "|g"@ + ga + none =~= xa);
    assert(key_b + "|g"@ + gb + none =~= xb);
    lemma_same_number_at_the_end(
        key_a,
        key_b,
        "|g"@,
        a.object_generation as nat,
        b.object_generation as nat,
        none,
    );
}

/// The text that is hashed tells the policy: one version with the same chunks under two policies
/// has different texts.
pub proof fn layouts_tell_policies_apart(
    str_key: Seq<char>,
    m: BlockMetaView,
    a: Seq<char>,
    b: Seq<char>,
    chunks: Seq<PlacementChunkView>,
)
    requires
        layout_text(str_key, m, a, chunks) == layout_text(str_key, m, b, chunks),
    ensures
        a == b,
{
    let head = str_key + "|g"@ + decimal(m.object_generation as nat) + "|l"@ + decimal(
        m.layout_version as nat,
    ) + "|"@;
    let tail = "|"@ + decimal(chunks.len()) + chunks_text(chunks);
    let ta = layout_text(str_key, m, a, chunks);
    let tb = layout_text(str_key, m, b, chunks);
    assert(ta =~= head + a + tail);
    assert(tb =~= head + b + tail);
    let n = head.len() as int;
    assert(ta.subrange(n, ta.len() - tail.len()) =~= a);
    assert(tb.subrange(n, tb.len() - tail.len()) =~= b);
}

proof fn lemma_same_number_at_the_start(
    m: nat,
    n: nat,
    a: Seq<char>,
    b: Seq<char>,
)
    requires
        a.len() > 0,
        b.len() > 0,
        !('0' <= a[0] <= '9'),
        !('0' <= b[0] <= '9'),
        decimal(m) + a == decimal(n) + b,
    ensures
        m == n,
        a == b,
{
    let dm = decimal(m);
    let dn = decimal(n);
    let ta = dm + a;
    let tb = dn + b;
    decimal_has_digits_alone(m);
    decimal_has_digits_alone(n);
    if dm.len() < dn.len() {
        assert(ta[dm.len() as int] == a[0]);
        assert(tb[dm.len() as int] == dn[dm.len() as int]);
        assert(false);
    }
    if dn.len() < dm.len() {
        assert(tb[dn.len() as int] == b[0]);
        assert(ta[dn.len() as int] == dm[dn.len() as int]);
        assert(false);
    }
    assert(ta.take(dm.len() as int) =~= dm);
    assert(tb.take(dm.len() as int) =~= dn);
    decimal_tells_numbers_apart(m, n);
    assert(ta.skip(dm.len() as int) =~= a);
    assert(tb.skip(dm.len() as int) =~= b);
}

proof fn lemma_regroup(a: Seq<char>, b: Seq<char>, c: Seq<char>)
    ensures
        a + b + c == a + (b + c),
{
    assert(a + b + c =~= a + (b + c));
}

proof fn lemma_same_number_in_the_middle(
    head: Seq<char>,
    m: nat,
    n: nat,
    a: Seq<char>,
    b: Seq<char>,
)
    requires
        a.len() > 0,
        b.len() > 0,
        !('0' <= a[0] <= '9'),
        !('0' <= b[0] <= '9'),
        head + decimal(m) + a == head + decimal(n) + b,
    ensures
        m == n,
        a == b,
{
    lemma_regroup(head, decimal(m), a);
    lemma_regroup(head, decimal(n), b);
    let k = head.len() as int;
    assert((head + (decimal(m) + a)).skip(k) =~= decimal(m) + a);
    assert((head + (decimal(n) + b)).skip(k) =~= decimal(n) + b);
    lemma_same_number_at_the_start(m, n, a, b);
}

proof fn lemma_chunk_text_parts(c: PlacementChunkView)
    ensures
        ({
            let colon = ":"@;
            let last = colon + c.storage_handle;
            let middle = colon + decimal(c.offset as nat) + last;
            let first = colon + c.node_id + colon + decimal(c.device_id as nat) + middle;
            chunk_text(c) == "|"@ + decimal(c.stripe_index as nat) + first
        }),
{
    let colon = ":"@;
    let d = decimal(c.device_id as nat);
    let o = decimal(c.offset as nat);
    let h = c.storage_handle;
    let x = "|"@ + decimal(c.stripe_index as nat);
    let y = colon + c.node_id + colon + d;
    lemma_regroup(x, colon, c.node_id);
    lemma_regroup(x, colon + c.node_id, colon);
    lemma_regroup(x, colon + c.node_id + colon, d);
    lemma_regroup(x + y, colon, o);
    lemma_regroup(x + y + (colon + o), colon, h);
    lemma_regroup(x + y, colon + o, colon + h);
    lemma_regroup(x, y, colon + o + (colon + h));
}

/// What a chunk adds to the text that is hashed tells its stripe, its device, its offset and its
/// handle: two chunks of one node that differ in one of them have different texts.
pub proof fn chunk_texts_tell_chunks_apart(a: PlacementChunkView, b: PlacementChunkView)
    requires
        a.node_id == b.node_id,
        chunk_text(a) == chunk_text(b),
    ensures
        a.stripe_index == b.stripe_index,
        a.device_id == b.device_id,
        a.offset == b.offset,
        a.storage_handle == b.storage_handle,
{
    reveal_strlit(":");
    let colon = ":"@;
    let node = colon + a.node_id + colon;
    let last_a = colon + a.storage_handle;
    let last_b = colon + b.storage_handle;
    let middle_a = colon + decimal(a.offset as nat) + last_a;
    let middle_b = colon + decimal(b.offset as nat) + last_b;
    lemma_chunk_text_parts(a);
    lemma_chunk_text_parts(b);
    lemma_same_number_in_the_middle(
        "|"@,
        a.stripe_index as nat,
        b.stripe_index as nat,
        node + decimal(a.device_id as nat) + middle_a,
        node + decimal(b.device_id as nat) + middle_b,
    );
    lemma_same_number_in_the_middle(
        node,
        a.device_id as nat,
        b.device_id as nat,
        middle_a,
        middle_b,
    );
    lemma_same_number_in_the_middle(colon, a.offset as nat, b.offset as nat, last_a, last_b);
    assert(last_a.skip(1) =~= a.storage_handle);
    assert(last_b.skip(1) =~= b.storage_handle);
}

/// What a chunk adds to the text that is hashed tells its node: two chunks that differ in the
/// name of the node alone have different texts.
pub proof fn chunk_texts_tell_nodes_apart(a: PlacementChunkView, b: PlacementChunkView)
    requires
        a.stripe_index == b.stripe_index,
        a.device_id == b.device_id,
        a.offset == b.offset,
        a.storage_handle == b.storage_handle,
        chunk_text(a) == chunk_text(b),
    ensures
        a.node_id == b.node_id,
{
    let colon = ":"@;
    let head = "|"@ + decimal(a.stripe_index as nat) + colon;
    let tail = colon + decimal(a.device_id as nat) + colon + decimal(a.offset as nat) + colon
        + a.storage_handle;
    let ta = chunk_text(a);
    let tb = chunk_text(b);
    assert(ta =~= head + a.node_id + tail);
    assert(tb =~= head + b.node_id + tail);
    let n = head.len() as int;
    assert(ta.subrange(n, ta.len() - tail.len()) =~= a.node_id);
    assert(tb.subrange(n, tb.len() - tail.len()) =~= b.node_id);
}

/// The text that is hashed counts the chunks and goes through all of them: one chunk more adds
/// its text at the end, and two lists that differ in one chunk alone differ in its text.
pub proof fn layout_texts_cover_every_chunk(
    chunks: Seq<PlacementChunkView>,
    a: PlacementChunkView,
    b: PlacementChunkView,
)
    ensures
        chunks_text(chunks.push(a)) == chunks_text(chunks) + chunk_text(a),
        chunk_text(a).len() > 0,
        a.node_id == b.node_id && chunks_text(chunks.push(a)) == chunks_text(chunks.push(b)) ==> {
            &&& a.stripe_index == b.stripe_index
            &&& a.device_id == b.device_id
            &&& a.offset == b.offset
            &&& a.storage_handle == b.storage_handle
        },
{
    reveal_strlit("|");
    assert(chunks.push(a).drop_last() =~= chunks);
    assert(chunks.push(b).drop_last() =~= chunks);
    let head = chunks_text(chunks);
    assert((head + chunk_text(a)).skip(head.len() as int) =~= chunk_text(a));
    assert((head + chunk_text(b)).skip(head.len() as int) =~= chunk_text(b));
    if a.node_id == b.node_id && chunks_text(chunks.push(a)) == chunks_text(chunks.push(b)) {
        chunk_texts_tell_chunks_apart(a, b);
    }
}

/// An object is elsewhere exactly where some chunk has neither the name nor the endpoint of this
/// node.
pub proof fn remote_chunks_are_noticed(
    ctx: KVServiceContextView,
    env: NodeEnvView,
    chunks: Seq<PlacementChunkView>,
    i: int,
)
    requires
        0 <= i < chunks.len(),
    ensures
        ({
            let here = this_node(ctx, env);
            chunks[i].node_id != here.node_id && chunks[i].grpc_endpoint != here.grpc_endpoint
                ==> reaches_other_nodes(ctx, env, chunks)
        }),
        reaches_other_nodes(ctx, env, chunks) ==> exists|j: int|
            0 <= j < chunks.len() && (#[trigger] chunks[j]).node_id != this_node(ctx, env).node_id
                && chunks[j].grpc_endpoint != this_node(ctx, env).grpc_endpoint,
{
    if chunks[i].node_id != this_node(ctx, env).node_id && chunks[i].grpc_endpoint != this_node(
        ctx,
        env,
    ).grpc_endpoint {
        assert(!is_this_node(ctx, env, chunk_node(chunks[i])));
    }
}

// Writes.

/// Whether an object of `len` bytes is large enough, and the cluster too, to spread it.
pub open spec fn is_large(ctx: KVServiceContextView, len: nat) -> bool {
    0 < ctx.storage.striping_threshold < len && ctx.config.cluster.data_nodes.len() >= 2
}

/// A write stores what the client sent: the bytes, under the key, with the metadata of the
/// client and the time of the write. It is spread exactly where the object is large, and leaves
/// an object that is there exactly where the client says so.
pub proof fn writes_store_what_was_sent(
    ctx: KVServiceContextView,
    env: NodeEnvView,
    key: InternalKey,
    req: PutRequest,
    plan: PutPlan,
)
    requires
        is_put_plan(ctx, env, key, req, plan),
    ensures
        plan.key == key,
        bytes_of(plan.data) == bytes_of(req.data),
        plan.spread <==> is_large(ctx, bytes_of(req.data).len()),
        plan.if_not_exists <==> (req.options matches Some(o) && o.if_not_exists),
        req.metadata matches Some(m) ==> {
            &&& plan.meta.num_tokens == m.num_tokens
            &&& plan.meta.num_layers == m.num_layers
            &&& plan.meta.dtype@ == m.dtype@
            &&& plan.meta.compressed == m.compressed
            &&& m.created_at > 0 ==> plan.meta.created_at == m.created_at
            &&& m.created_at <= 0 ==> plan.meta.created_at == plan.meta.last_accessed_at
        },
        plan.meta.object_generation == 1,
        plan.meta.layout_version == 1,
        plan.meta.object_handle@.len() == 0,
        plan.meta.content_etag@.len() == 0,
        plan.meta.ttl_seconds == 0,
        plan.meta.striping is None,
        plan.meta.last_accessed_at >= 0,
{
}

/// A written stream stores what its messages carry, one behind the other, with the metadata of
/// the first message and the time of the write, whatever size the first message declares.
pub proof fn written_streams_store_what_was_sent(
    ctx: KVServiceContextView,
    env: NodeEnvView,
    key: InternalKey,
    chunks: Seq<PutChunk>,
    plan: PutStreamPlan,
)
    requires
        chunks.len() > 0,
        is_put_stream_plan(ctx, env, key, chunks, plan),
    ensures
        plan is Spread <==> is_large(ctx, joined(stream_bytes(chunks)).len()),
        ({
            let (k, bytes, meta, if_not_exists) = match plan {
                PutStreamPlan::Spread { key, data, meta, if_not_exists } => (
                    key,
                    bytes_of(data),
                    meta,
                    if_not_exists,
                ),
                PutStreamPlan::Segments { key, segments, meta, if_not_exists } => (
                    key,
                    joined(bytes_of_each(segments@)),
                    meta,
                    if_not_exists,
                ),
            };
            &&& k == key
            &&& bytes == joined(Seq::new(chunks.len(), |i: int| bytes_of(chunks[i].data)))
            &&& if_not_exists <==> (chunks[0].options matches Some(o) && o.if_not_exists)
            &&& chunks[0].metadata matches Some(m) ==> {
                &&& meta.num_tokens == m.num_tokens
                &&& meta.num_layers == m.num_layers
                &&& meta.dtype@ == m.dtype@
                &&& meta.compressed == m.compressed
                &&& m.created_at > 0 ==> meta.created_at == m.created_at
                &&& m.created_at <= 0 ==> meta.created_at == meta.last_accessed_at
            }
            &&& meta.object_generation == 1
            &&& meta.layout_version == 1
            &&& meta.object_handle@.len() == 0
            &&& meta.striping is None
            &&& meta.last_accessed_at >= 0
        }),
        plan matches PutStreamPlan::Segments { segments, .. } ==> segments.len() == chunks.len()
            && forall|i: int|
            0 <= i < chunks.len() ==> bytes_of(#[trigger] segments@[i]) == bytes_of(chunks[i].data),
{
    assert(stream_bytes(chunks) =~= Seq::new(chunks.len(), |i: int| bytes_of(chunks[i].data)));
    if let PutStreamPlan::Segments { segments, .. } = plan {
        assert(bytes_of_each(segments@).len() == segments.len());
        assert forall|i: int| 0 <= i < chunks.len() implies bytes_of(#[trigger] segments@[i])
            == bytes_of(chunks[i].data) by {
            assert(bytes_of_each(segments@)[i] == stream_bytes(chunks)[i]);
        }
    }
}

/// A stream of one message is written as one write of the same bytes, metadata and options at
/// the same time is.
pub proof fn streams_of_one_message_are_writes(
    ctx: KVServiceContextView,
    env: NodeEnvView,
    key: InternalKey,
    req: PutRequest,
    plan: PutPlan,
    chunk: PutChunk,
    stream: PutStreamPlan,
)
    requires
        is_put_plan(ctx, env, key, req, plan),
        is_put_stream_plan(ctx, env, key, seq![chunk], stream),
        bytes_of(chunk.data) == bytes_of(req.data),
        chunk.metadata == req.metadata,
        chunk.options == req.options,
    ensures
        stream is Spread <==> plan.spread,
        match stream {
            PutStreamPlan::Spread { data, meta, if_not_exists, .. } => {
                &&& bytes_of(data) == bytes_of(plan.data)
                &&& if_not_exists == plan.if_not_exists
                &&& meta.last_accessed_at == plan.meta.last_accessed_at ==> meta.deep_view()
                    == plan.meta.deep_view()
            },
            PutStreamPlan::Segments { segments, meta, if_not_exists, .. } => {
                &&& joined(bytes_of_each(segments@)) == bytes_of(plan.data)
                &&& if_not_exists == plan.if_not_exists
                &&& meta.last_accessed_at == plan.meta.last_accessed_at ==> meta.deep_view()
                    == plan.meta.deep_view()
            },
        },
{
    let parts = stream_bytes(seq![chunk]);
    assert(parts =~= Seq::<Seq<u8>>::empty().push(bytes_of(chunk.data)));
    crate::payload::joined_push(Seq::empty(), bytes_of(chunk.data));
    assert(joined(parts) =~= bytes_of(chunk.data));
}

/// A write of a batch that belongs to this node stores what the client sent with that item: the
/// bytes, under the item's key, with the item's metadata and options.
pub proof fn batched_writes_store_what_was_sent(put: LocalPut, index: usize, item: PutRequest)
    requires
        is_local_put(put, index, item),
    ensures
        put.index == index,
        item.key matches Some(k) && put.key.namespace@ == k.namespace@ && put.key.object_key@
            == k.object_key@,
        bytes_of(put.data) == bytes_of(item.data),
        put.if_not_exists <==> (item.options matches Some(o) && o.if_not_exists),
        item.metadata matches Some(m) ==> {
            &&& put.meta.num_tokens == m.num_tokens
            &&& put.meta.num_layers == m.num_layers
            &&& put.meta.dtype@ == m.dtype@
            &&& put.meta.compressed == m.compressed
            &&& m.created_at > 0 ==> put.meta.created_at == m.created_at
            &&& m.created_at <= 0 ==> put.meta.created_at == put.meta.last_accessed_at
        },
        put.meta.object_generation == 1,
        put.meta.layout_version == 1,
        put.meta.object_handle@.len() == 0,
        put.meta.ttl_seconds == 0,
        put.meta.striping is None,
        put.meta.last_accessed_at >= 0,
{
    assert(item.key->Some_0.deep_view().namespace == item.key->Some_0.namespace@);
    assert(put.key.deep_view().namespace == put.key.namespace@);
}

/// A write of a batch leaves the record that the same write alone leaves at the same time, and
/// treats an object that is there alike.
pub proof fn batched_writes_are_writes(
    ctx: KVServiceContextView,
    env: NodeEnvView,
    key: InternalKey,
    item: PutRequest,
    plan: PutPlan,
    put: LocalPut,
    index: usize,
)
    requires
        is_put_plan(ctx, env, key, item, plan),
        is_local_put(put, index, item),
    ensures
        put.data == plan.data,
        put.if_not_exists == plan.if_not_exists,
        put.meta.last_accessed_at == plan.meta.last_accessed_at ==> put.meta.deep_view()
            == plan.meta.deep_view(),
{
}

/// A write from device memory leaves a record with the client's metadata and the time of the
/// write.
pub proof fn device_writes_keep_the_metadata(req: PutFromGpuRequest, meta: BlockMeta)
    requires
        is_gpu_record(req, meta),
    ensures
        req.metadata matches Some(m) ==> {
            &&& meta.num_tokens == m.num_tokens
            &&& meta.num_layers == m.num_layers
            &&& meta.dtype@ == m.dtype@
            &&& meta.compressed == m.compressed
            &&& m.created_at > 0 ==> meta.created_at == m.created_at
            &&& m.created_at <= 0 ==> meta.created_at == meta.last_accessed_at
        },
        meta.object_generation == 1,
        meta.layout_version == 1,
        meta.striping is None,
        meta.last_accessed_at >= 0,
{
}

// Spread objects.

/// A stripe has the size that the storage tier asks for, and one byte where it asks for none.
pub proof fn stripes_have_the_size_asked_for(ctx: KVServiceContextView)
    ensures
        ctx.storage.striping_chunk_size > 0 ==> stripe_size(ctx) == ctx.storage.striping_chunk_size,
        ctx.storage.striping_chunk_size == 0 ==> stripe_size(ctx) == 1,
{
}

/// The stripes of an object are numbered in order, begin one behind the other, and go round the
/// data nodes, beginning at the object's owner.
pub proof fn stripes_go_to_their_nodes(
    ctx: KVServiceContextView,
    env: NodeEnvView,
    str_key: Seq<char>,
    data: Seq<u8>,
    i: int,
)
    requires
        0 <= i < stripe_tasks(ctx, env, str_key, data).len(),
    ensures
        ({
            let task = stripe_tasks(ctx, env, str_key, data)[i];
            let nodes = data_nodes(ctx, env);
            let hash = xxh3_hash64(encode_utf8(str_key));
            &&& task.stripe_index == i
            &&& task.offset == i * stripe_size(ctx)
            &&& task.node == nodes[stripe_slot(hash, i as nat, nodes.len())]
            &&& i == 0 ==> task.node == metadata_owner(ctx, env, str_key)
            &&& i == 0 ==> task.offset == 0
        }),
{
    assert(i == 0 ==> i * stripe_size(ctx) == 0) by (nonlinear_arith);
}

/// The record that a spread write leaves keeps what the prepared record says of the object: its
/// metadata, its times and its version. So a read tells of the object what the client sent.
pub proof fn spread_records_keep_the_metadata(
    prepared: BlockMetaView,
    total: u64,
    size: u64,
    locations: Seq<ChunkLocationView>,
)
    ensures
        ({
            let record = striped_record(prepared, total, size, locations);
            &&& record.num_tokens == prepared.num_tokens
            &&& record.num_layers == prepared.num_layers
            &&& record.dtype == prepared.dtype
            &&& record.compressed == prepared.compressed
            &&& record.created_at == prepared.created_at
            &&& record.last_accessed_at == prepared.last_accessed_at
            &&& record.ttl_seconds == prepared.ttl_seconds
            &&& record.object_handle == prepared.object_handle
            &&& record.object_generation == prepared.object_generation
            &&& record.content_etag == prepared.content_etag
            &&& record.layout_version == prepared.layout_version
            &&& message_meta(record) == message_meta(prepared)
        }),
{
}

/// The record that a spread write leaves says where the stripes are: their size, the size of the
/// object, and for each stripe its location, its file and its device. The object has no file of
/// its own, and counts as on the device of its first stripe.
pub proof fn spread_records_list_the_stripes(
    prepared: BlockMetaView,
    total: u64,
    size: u64,
    locations: Seq<ChunkLocationView>,
    i: int,
)
    ensures
        ({
            let record = striped_record(prepared, total, size, locations);
            &&& record.size == total
            &&& record.file_path.len() == 0
            &&& locations.len() > 0 ==> record.device_id == locations[0].device_id
            &&& locations.len() == 0 ==> record.device_id == 0
            &&& record.striping matches Some(s) && {
                &&& s.chunk_size == size
                &&& s.total_size == total
                &&& s.chunk_locations == locations
                &&& s.chunk_paths.len() == locations.len()
                &&& s.chunk_devices.len() == locations.len()
                &&& 0 <= i < locations.len() ==> s.chunk_paths[i] == locations[i].storage_handle
                    && s.chunk_devices[i] == locations[i].device_id
            }
        }),
{
}

/// The descriptor that goes with the stripes names the object and its version, and counts the
/// stripes.
pub proof fn stripe_descriptors_tell_the_version(
    key: InternalKeyView,
    str_key: Seq<char>,
    m: BlockMetaView,
    count: nat,
    size: nat,
)
    requires
        count <= u32::MAX,
        size <= u64::MAX,
    ensures
        ({
            let d = striped_descriptor(key, str_key, m, count, size);
            &&& d.is_striped
            &&& d.stripe_count == count
            &&& d.chunk_size == size
            &&& d.key matches Some(k) && k.namespace == key.namespace && k.object_key
                == key.object_key
            &&& m.object_handle.len() > 0 ==> d.object_handle == m.object_handle
            &&& d.object_generation == m.object_generation
            &&& d.content_etag == m.content_etag
            &&& d.layout_version == m.layout_version
            &&& d.size == m.size
        }),
{
}

/// A stripe is stored here exactly where its node has the name or the endpoint of this node, and
/// otherwise sent to that node; either way the whole stripe, with its index, its offset or the
/// size of a stripe, and its object's key and version.
pub proof fn stripes_are_stored_or_sent_whole(
    ctx: KVServiceContextView,
    env: NodeEnvView,
    key: InternalKeyView,
    descriptor: ObjectDescriptorView,
    chunk_size: u64,
    total_size: u64,
    task: StripeTask,
    step: PutChunkStep,
)
    requires
        is_put_chunk_step(ctx, env, key, descriptor, chunk_size, total_size, task, step),
    ensures
        step is Store <==> task.node.node_id@ == this_node(ctx, env).node_id
            || task.node.grpc_endpoint@ == this_node(ctx, env).grpc_endpoint,
        match step {
            PutChunkStep::Store {
                node,
                key: k,
                stripe_index,
                generation,
                layout_version,
                offset,
                data,
            } => {
                &&& node == task.node
                &&& k.namespace@ == key.namespace
                &&& k.object_key@ == key.object_key
                &&& stripe_index == task.stripe_index
                &&& generation == descriptor.object_generation
                &&& layout_version == descriptor.layout_version
                &&& offset == task.offset
                &&& bytes_of(data) == bytes_of(task.data)
            },
            PutChunkStep::Send { node, uri, request } => {
                &&& node == task.node
                &&& uri@ == uri_of(task.node.grpc_endpoint@)
                &&& request.key matches Some(k) && k.namespace@ == key.namespace && k.object_key@
                    == key.object_key
                &&& request.descriptor matches Some(d) && d.deep_view() == descriptor
                &&& task.stripe_index <= u32::MAX ==> request.stripe_index == task.stripe_index
                &&& request.chunk_size == chunk_size
                &&& request.total_size == total_size
                &&& bytes_of(request.data) == bytes_of(task.data)
            },
        },
{
    if let PutChunkStep::Store { key: k, .. } = step {
        assert(k.deep_view().namespace == k.namespace@);
    }
    if let PutChunkStep::Send { request, .. } = step {
        assert(request.deep_view().key == request.key.deep_view());
        assert(request.deep_view().descriptor == request.descriptor.deep_view());
    }
}

/// A node stores of a stripe what it was sent: the bytes, under the object's key and version, at
/// the index, which gives the offset.
pub proof fn nodes_store_what_they_are_sent(
    key: ObjectKey,
    descriptor: ObjectDescriptor,
    req: PutPlacementChunkRequest,
    plan: StorePlan,
)
    requires
        is_store_plan(key, descriptor, req, plan),
    ensures
        plan.key.namespace@ == key.namespace@,
        plan.key.object_key@ == key.object_key@,
        plan.stripe_index == req.stripe_index,
        plan.generation == descriptor.object_generation,
        plan.layout_version == descriptor.layout_version,
        plan.offset == req.stripe_index * req.chunk_size,
        bytes_of(plan.data) == bytes_of(req.data),
{
    assert(plan.key.deep_view().namespace == plan.key.namespace@);
    assert(plan.key.deep_view().object_key == plan.key.object_key@);
}

/// A stripe is stored alike wherever it is: the node that gets it stores the bytes, the key, the
/// version and the offset with which the sender would have stored it.
pub proof fn stripes_are_stored_alike(
    ctx: KVServiceContextView,
    env: NodeEnvView,
    key: InternalKeyView,
    descriptor: ObjectDescriptorView,
    chunk_size: u64,
    total_size: u64,
    task: StripeTask,
    step: PutChunkStep,
    plan: StorePlan,
)
    requires
        is_put_chunk_step(ctx, env, key, descriptor, chunk_size, total_size, task, step),
        step matches PutChunkStep::Send { request, .. } && is_store_plan(
            request.key->Some_0,
            request.descriptor->Some_0,
            request,
            plan,
        ),
        task.stripe_index <= u32::MAX,
        task.offset == task.stripe_index * chunk_size,
    ensures
        bytes_of(plan.data) == bytes_of(task.data),
        plan.key.deep_view() == key,
        plan.stripe_index == task.stripe_index,
        plan.offset == task.offset,
        plan.generation == descriptor.object_generation,
        plan.layout_version == descriptor.layout_version,
{
    if let PutChunkStep::Send { request, .. } = step {
        assert(request.deep_view().key == request.key.deep_view());
        assert(request.deep_view().descriptor == request.descriptor.deep_view());
        assert(request.descriptor->Some_0.deep_view() == descriptor);
        crate::convert::keys_survive_messages(key, message_key(key));
    }
}

/// A stored stripe is located on its node, with all of the node's addresses, under its handle
/// and at its offset.
pub proof fn stored_stripes_are_located(
    node: DataNodeView,
    stripe_index: u32,
    device_id: u32,
    storage_handle: Seq<char>,
    offset: u64,
    length: u64,
)
    ensures
        ({
            let loc = location_on(node, stripe_index, device_id, storage_handle, offset, length);
            &&& loc.node_id == node.node_id
            &&& loc.grpc_endpoint == node.grpc_endpoint
            &&& loc.rdma_endpoint == node.rdma_endpoint
            &&& loc.stripe_index == stripe_index
            &&& loc.device_id == device_id
            &&& loc.storage_handle == storage_handle
            &&& loc.offset == offset
            &&& loc.length == length
        }),
        ({
            let answer = stored_answer(
                node,
                stripe_index,
                device_id,
                storage_handle,
                offset,
                length,
            );
            &&& answer.success
            &&& answer.chunk matches Some(c) && {
                &&& c.node_id == node.node_id
                &&& c.grpc_endpoint == node.grpc_endpoint
                &&& c.rdma_endpoint == node.rdma_endpoint
                &&& c.stripe_index == stripe_index
                &&& c.device_id == device_id
                &&& c.storage_handle == storage_handle
                &&& c.offset == offset
                &&& c.length == length
            }
        }),
{
}

/// A stripe is read here exactly where its chunk has the name or the endpoint of this node: from
/// its handle, and as long as the chunk says. Otherwise the chunk's node is asked for that chunk
/// of that version.
pub proof fn stripes_are_read_where_they_are(
    ctx: KVServiceContextView,
    env: NodeEnvView,
    descriptor: ObjectDescriptorView,
    chunk: PlacementChunkView,
    step: ReadChunkStep,
)
    requires
        is_read_chunk_step(ctx, env, descriptor, chunk, step),
    ensures
        step is Load <==> chunk.node_id == this_node(ctx, env).node_id || chunk.grpc_endpoint
            == this_node(ctx, env).grpc_endpoint,
        match step {
            ReadChunkStep::Load { stripe_index, storage_handle, length } => {
                &&& stripe_index == chunk.stripe_index
                &&& storage_handle@ == chunk.storage_handle
                &&& length == chunk.length
            },
            ReadChunkStep::Fetch { node, uri, request } => {
                &&& node.node_id@ == chunk.node_id
                &&& node.grpc_endpoint@ == chunk.grpc_endpoint
                &&& node.rdma_endpoint@ == chunk.rdma_endpoint
                &&& uri@ == uri_of(chunk.grpc_endpoint)
                &&& request.descriptor matches Some(d) && d.deep_view() == descriptor
                &&& request.chunk matches Some(c) && c.deep_view() == chunk
            },
        },
{
    if let ReadChunkStep::Fetch { node, request, .. } = step {
        assert(node.deep_view().node_id == node.node_id@);
        assert(request.deep_view().descriptor == request.descriptor.deep_view());
        assert(request.deep_view().chunk == request.chunk.deep_view());
    }
}

/// A stripe is removed here exactly where its chunk has the name or the endpoint of this node,
/// under its handle. Otherwise the chunk's node is asked to remove that chunk.
pub proof fn stripes_are_removed_where_they_are(
    ctx: KVServiceContextView,
    env: NodeEnvView,
    chunk: PlacementChunkView,
    step: DeleteChunkStep,
)
    requires
        is_delete_chunk_step(ctx, env, chunk, step),
    ensures
        step is Remove <==> chunk.node_id == this_node(ctx, env).node_id || chunk.grpc_endpoint
            == this_node(ctx, env).grpc_endpoint,
        match step {
            DeleteChunkStep::Remove { storage_handle } => storage_handle@ == chunk.storage_handle,
            DeleteChunkStep::Send { node, uri, request } => {
                &&& node.node_id@ == chunk.node_id
                &&& node.grpc_endpoint@ == chunk.grpc_endpoint
                &&& node.rdma_endpoint@ == chunk.rdma_endpoint
                &&& uri@ == uri_of(chunk.grpc_endpoint)
                &&& request.chunk matches Some(c) && c.deep_view() == chunk
            },
        },
{
    if let DeleteChunkStep::Send { node, request, .. } = step {
        assert(node.deep_view().node_id == node.node_id@);
        assert(request.deep_view().chunk == request.chunk.deep_view());
    }
}

/// A spread write keeps its object, its bytes and its options to the end, has a record prepared
/// for the size of its bytes from the metadata it began with, and leaves a record that says of
/// the object what the prepared record says.
pub proof fn spread_writes_keep_what_they_write<E>(
    ctx: KVServiceContextView,
    env: NodeEnvView,
    from: SpreadWrite,
    event: WriteEvent<E>,
    to: SpreadWrite,
    action: WriteAction<E>,
)
    requires
        write_goes_on(ctx, env, from, event, to, action),
        bytes_of(from.data).len() <= u64::MAX,
    ensures
        to.key == from.key,
        to.str_key == from.str_key,
        to.data == from.data,
        to.if_not_exists == from.if_not_exists,
        action matches WriteAction::Prepare { meta, total } ==> total == bytes_of(from.data).len()
            && (from.stage == (WriteStage::Lock { meta }) || from.stage == (WriteStage::Existence {
            meta,
        })),
        action matches WriteAction::Store(write) ==> {
            &&& event matches WriteEvent::Prepared(Ok(p)) && to.stage == (WriteStage::Stripes {
                prepared: p,
                chunk_size: write.chunk_size,
                total_size: write.total_size,
            })
            &&& write.total_size == bytes_of(from.data).len()
            &&& write.chunk_size == stripe_size(ctx)
            &&& write.tasks.deep_view() == stripe_tasks(
                ctx,
                env,
                from.str_key@,
                bytes_of(from.data),
            )
            &&& event matches WriteEvent::Prepared(Ok(p)) && {
                let d = write.descriptor;
                &&& d.is_striped
                &&& d.object_generation == p.object_generation
                &&& d.content_etag@ == p.content_etag@
                &&& d.layout_version == p.layout_version
                &&& d.size == p.size
                &&& d.key matches Some(k) && k.namespace@ == from.key.namespace@ && k.object_key@
                    == from.key.object_key@
            }
        },
        from.stage matches WriteStage::Stripes { prepared, chunk_size, total_size } ==> (
        to.stage matches WriteStage::Cache { record } ==> {
            &&& record.num_tokens == prepared.num_tokens
            &&& record.num_layers == prepared.num_layers
            &&& record.dtype@ == prepared.dtype@
            &&& record.compressed == prepared.compressed
            &&& record.created_at == prepared.created_at
            &&& record.last_accessed_at == prepared.last_accessed_at
            &&& record.ttl_seconds == prepared.ttl_seconds
            &&& record.object_handle@ == prepared.object_handle@
            &&& record.object_generation == prepared.object_generation
            &&& record.content_etag@ == prepared.content_etag@
            &&& record.layout_version == prepared.layout_version
            &&& record.size == total_size
        }),
{
    if let WriteAction::Store(write) = action {
        assert(write.descriptor.deep_view().key == write.descriptor.key.deep_view());
        assert(write.descriptor.deep_view().content_etag == write.descriptor.content_etag@);
        assert(from.key.deep_view().namespace == from.key.namespace@);
    }
    if let WriteStage::Stripes { prepared, .. } = from.stage {
        if let WriteStage::Cache { record } = to.stage {
            assert(record.deep_view().num_tokens == record.num_tokens);
            assert(prepared.deep_view().num_tokens == prepared.num_tokens);
        }
    }
}

// Reads.

/// An object is read from its chunks exactly where it has a record with a chunk that has neither
/// the name nor the endpoint of this node. The chunks are those of the record, and the
/// descriptor is that of its version.
pub proof fn objects_are_read_where_they_are(
    ctx: KVServiceContextView,
    env: NodeEnvView,
    key: InternalKeyView,
    str_key: Seq<char>,
    meta: Option<BlockMeta>,
    source: ObjectSource,
)
    requires
        is_object_source(ctx, env, key, str_key, meta, source),
    ensures
        meta is None ==> source is Memory,
        meta matches Some(m) ==> (source is Chunks <==> exists|j: int|
            0 <= j < chunks_of(this_node(ctx, env), m.deep_view()).len() && (#[trigger] chunks_of(
                this_node(ctx, env),
                m.deep_view(),
            )[j]).node_id != this_node(ctx, env).node_id && chunks_of(
                this_node(ctx, env),
                m.deep_view(),
            )[j].grpc_endpoint != this_node(ctx, env).grpc_endpoint),
        source matches ObjectSource::Chunks { meta: m, descriptor, placement } ==> {
            &&& meta == Some(m)
            &&& placement.chunks.deep_view() == chunks_of(this_node(ctx, env), m.deep_view())
            &&& descriptor.object_generation == m.object_generation
            &&& descriptor.content_etag@ == m.content_etag@
            &&& descriptor.layout_version == m.layout_version
            &&& descriptor.size == m.size
            &&& descriptor.key matches Some(k) && k.namespace@ == key.namespace && k.object_key@
                == key.object_key
        },
{
    if let Some(m) = meta {
        let chunks = chunks_of(this_node(ctx, env), m.deep_view());
        let here = this_node(ctx, env);
        if exists|j: int|
            0 <= j < chunks.len() && (#[trigger] chunks[j]).node_id != here.node_id
                && chunks[j].grpc_endpoint != here.grpc_endpoint {
            let j = choose|j: int|
                0 <= j < chunks.len() && (#[trigger] chunks[j]).node_id != here.node_id
                    && chunks[j].grpc_endpoint != here.grpc_endpoint;
            remote_chunks_are_noticed(ctx, env, chunks, j);
        }
        if reaches_other_nodes(ctx, env, chunks) {
            let i = choose|i: int|
                0 <= i < chunks.len() && !is_this_node(ctx, env, chunk_node(#[trigger] chunks[i]));
            remote_chunks_are_noticed(ctx, env, chunks, i);
        }
    }
    if let ObjectSource::Chunks { meta: m, descriptor, placement } = source {
        assert(descriptor.deep_view().content_etag == descriptor.content_etag@);
        assert(descriptor.deep_view().key == descriptor.key.deep_view());
        assert(placement.deep_view().chunks == placement.chunks.deep_view());
    }
}

/// A read by descriptor is refused as stale exactly where the object exists in another version:
/// another generation, content, layout, size or handle. Otherwise the version that is read is
/// the one that the record holds, and the answer's descriptor is of that version.
pub proof fn reads_by_descriptor_give_the_version_named(
    ctx: KVServiceContextView,
    env: NodeEnvView,
    key: InternalKeyView,
    str_key: Seq<char>,
    descriptor: ObjectDescriptorView,
    active: Option<BlockMeta>,
    source: Result<DescriptorSource, Status>,
)
    requires
        is_descriptor_source(ctx, env, key, str_key, descriptor, active, source),
    ensures
        active is None <==> source == Ok::<DescriptorSource, Status>(DescriptorSource::Absent),
        active matches Some(m) ==> (source is Err <==> (descriptor.object_generation
            != m.object_generation || descriptor.content_etag != m.content_etag@
            || descriptor.layout_version != m.layout_version || descriptor.size != m.size
            || descriptor.object_handle != m.object_handle@)),
        source matches Err(e) ==> e.code == Code::FailedPrecondition && e.message@
            == "stale descriptor"@,
        ({
            let (told, fresh, chunks) = match source {
                Ok(DescriptorSource::Chunks { meta, fresh, placement }) => (
                    Some(meta),
                    fresh.deep_view(),
                    placement.deep_view().chunks,
                ),
                Ok(DescriptorSource::Storage { meta, fresh, placement }) => (
                    Some(meta),
                    fresh.deep_view(),
                    placement.deep_view().chunks,
                ),
                _ => (None, descriptor, Seq::empty()),
            };
            told matches Some(m) ==> {
                &&& active == Some(m)
                &&& fresh.object_generation == m.object_generation
                &&& fresh.content_etag == m.content_etag@
                &&& fresh.layout_version == m.layout_version
                &&& fresh.size == m.size
                &&& fresh.key matches Some(k) && k.namespace == key.namespace && k.object_key
                    == key.object_key
                &&& chunks == chunks_of(this_node(ctx, env), m.deep_view())
                &&& source matches Ok(s) && (s is Chunks <==> reaches_other_nodes(
                    ctx,
                    env,
                    chunks,
                ))
            }
        }),
{
    if let Some(m) = active {
        assert(m.deep_view().content_etag == m.content_etag@);
        assert(m.deep_view().object_handle == m.object_handle@);
    }
    if let Err(e) = source {
        assert(e.deep_view().message == e.message@);
        assert(e.deep_view().code == e.code);
    }
}

/// A lookup finds an object exactly where it has a record, and hands out the descriptor of the
/// version and the placement of its chunks.
pub proof fn lookups_tell_version_and_place(
    ctx: KVServiceContextView,
    env: NodeEnvView,
    key: InternalKeyView,
    str_key: Seq<char>,
    meta: Option<BlockMetaView>,
)
    ensures
        ({
            let answer = lookup_answer(ctx, env, key, str_key, meta);
            &&& answer.found <==> meta is Some
            &&& answer.descriptor is Some <==> meta is Some
            &&& answer.placement is Some <==> meta is Some
            &&& meta matches Some(m) ==> {
                let d = answer.descriptor->Some_0;
                let p = answer.placement->Some_0;
                let here = this_node(ctx, env);
                &&& d.key == p.key
                &&& d.key matches Some(k) && k.namespace == key.namespace && k.object_key
                    == key.object_key
                &&& d.object_generation == m.object_generation
                &&& d.content_etag == m.content_etag
                &&& d.layout_version == m.layout_version
                &&& d.size == m.size
                &&& m.object_handle.len() > 0 ==> d.object_handle == m.object_handle && describes(
                    d,
                    m,
                )
                &&& p.chunks == chunks_of(here, m)
                &&& p.primary_node_id == here.node_id
                &&& p.primary_grpc_endpoint == here.grpc_endpoint
                &&& p.primary_rdma_endpoint == here.rdma_endpoint
            }
        }),
{
}

/// A read by descriptor that finds the version answers with its bytes, with what its record
/// holds, and with its descriptor and placement; one that does not answers with nothing.
pub proof fn found_versions_are_answered_whole(
    data: Seq<u8>,
    m: BlockMetaView,
    fresh: ObjectDescriptorView,
    placement: PlacementDescriptorView,
)
    ensures
        ({
            let found = present_version(data, m, fresh, placement);
            &&& found.found
            &&& found.data == data
            &&& found.descriptor == Some(fresh)
            &&& found.placement == Some(placement)
            &&& found.metadata matches Some(told) && {
                &&& told.num_tokens == m.num_tokens
                &&& told.num_layers == m.num_layers
                &&& told.dtype == m.dtype
                &&& told.compressed == m.compressed
                &&& told.created_at == m.created_at
                &&& told.last_accessed_at == m.last_accessed_at
            }
        }),
        ({
            let absent = absent_version();
            &&& !absent.found
            &&& absent.data.len() == 0
            &&& absent.metadata is None
            &&& absent.descriptor is None
            &&& absent.placement is None
        }),
{
}

/// A read by key and a read by descriptor of one object tell the same bytes and the same
/// metadata.
pub proof fn reads_agree(
    data: Seq<u8>,
    m: BlockMetaView,
    fresh: ObjectDescriptorView,
    placement: PlacementDescriptorView,
)
    ensures
        present_object(data, m).data == present_version(data, m, fresh, placement).data,
        present_object(data, m).metadata == present_version(data, m, fresh, placement).metadata,
        present_object(data, m).found == present_version(data, m, fresh, placement).found,
{
}

// Batches.

/// A batched read of an object on this node is answered as a read of it is, and one that failed
/// as a read of an object that does not exist.
pub proof fn batched_reads_are_reads<E>(
    result: Result<Option<(prost::bytes::Bytes, BlockMeta)>, E>,
)
    ensures
        result matches Ok(Some((data, meta))) ==> {
            let answer = local_answer(result);
            &&& answer.found
            &&& answer.data == bytes_of(data)
            &&& answer.metadata matches Some(told) && {
                &&& told.num_tokens == meta.num_tokens
                &&& told.num_layers == meta.num_layers
                &&& told.dtype == meta.dtype@
                &&& told.compressed == meta.compressed
                &&& told.created_at == meta.created_at
                &&& told.last_accessed_at == meta.last_accessed_at
            }
        },
        !(result matches Ok(Some(_))) ==> !local_answer(result).found && local_answer(
            result,
        ).data.len() == 0 && local_answer(result).metadata is None,
{
}

/// A batched read asks for every key once, at its owner: for a key of this node here, with the
/// key's parts, and for any other key in the group of its owner, as it came.
pub proof fn batched_reads_ask_for_every_key(
    ctx: KVServiceContextView,
    env: NodeEnvView,
    keys: Seq<ObjectKey>,
    str_keys: Seq<Seq<char>>,
    plan: GetBatchPlan,
    i: int,
)
    requires
        is_get_batch_plan(ctx, env, keys, str_keys, plan),
        keys.len() == str_keys.len(),
        keys.len() <= usize::MAX,
        0 <= i < keys.len(),
    ensures
        plan.total == keys.len(),
        is_this_node(ctx, env, metadata_owner(ctx, env, str_keys[i])) ==> exists|j: int|
            0 <= j < plan.local.len() && (#[trigger] plan.local@[j]).0 == i
                && plan.local@[j].1.namespace@ == keys[i].namespace@
                && plan.local@[j].1.object_key@ == keys[i].object_key@,
        !is_this_node(ctx, env, metadata_owner(ctx, env, str_keys[i])) ==> exists|g: int, p: int|
            0 <= g < plan.remote.len() && 0 <= p < plan.remote@[g].1.len() && (
            #[trigger] plan.remote@[g].1@[p]) == (i as usize, keys[i])
                && plan.remote@[g].0.deep_view() == metadata_owner(ctx, env, str_keys[i]),
{
    let owners = owners_of(ctx, env, str_keys);
    let indexes = local_indexes(ctx, env, owners);
    assert(owners[i] == metadata_owner(ctx, env, str_keys[i]));
    if is_this_node(ctx, env, owners[i]) {
        local_part_is_exact(ctx, env, owners);
        assert(indexes.contains(i as usize));
        let j = choose|j: int| 0 <= j < indexes.len() && indexes[j] == i as usize;
        assert(plan.local@[j].0 == i);
        assert(plan.local@[j].1.deep_view().namespace == plan.local@[j].1.namespace@);
        assert(keys[i].deep_view().namespace == keys[i].namespace@);
    } else {
        lemma_group_of(ctx, env, owners, keys, plan.remote@, i);
    }
}

proof fn lemma_group_of<T>(
    ctx: KVServiceContextView,
    env: NodeEnvView,
    owners: Seq<DataNodeView>,
    items: Seq<T>,
    groups: Seq<(crate::model::DataNode, Vec<(usize, T)>)>,
    i: int,
)
    requires
        items.len() == owners.len(),
        items.len() <= usize::MAX,
        0 <= i < items.len(),
        !is_this_node(ctx, env, owners[i]),
        groups_view(groups) == remote_groups(ctx, env, owners, items),
    ensures
        exists|g: int, p: int|
            0 <= g < groups.len() && 0 <= p < groups[g].1.len() && (#[trigger] groups[g].1@[p]) == (
                i as usize,
                items[i],
            ) && groups[g].0.deep_view() == owners[i],
{
    let views = groups_view(groups);
    remote_part_is_exact(ctx, env, owners, items);
    assert(groups_hold(views, (i as usize, items[i])));
    let (g, p) = choose|g: int, p: int|
        0 <= g < views.len() && 0 <= p < views[g].1.len() && #[trigger] views[g].1[p] == (
            i as usize,
            items[i],
        );
    assert(views[g] == (groups[g].0.deep_view(), groups[g].1@));
    assert(groups[g].1@[p] == (i as usize, items[i]));
}

/// A batch of writes does every write once, at the owner of its object: here with what the
/// client sent, and elsewhere in the group of its owner, as it came.
pub proof fn batched_writes_reach_their_owners(
    ctx: KVServiceContextView,
    env: NodeEnvView,
    items: Seq<PutRequest>,
    str_keys: Seq<Seq<char>>,
    plan: PutBatchPlan,
    i: int,
)
    requires
        is_put_batch_plan(ctx, env, items, str_keys, plan),
        items.len() == str_keys.len(),
        items.len() <= usize::MAX,
        0 <= i < items.len(),
    ensures
        plan.total == items.len(),
        is_this_node(ctx, env, metadata_owner(ctx, env, str_keys[i])) ==> exists|j: int|
            0 <= j < plan.local.len() && is_local_put(
                #[trigger] plan.local@[j],
                i as usize,
                items[i],
            ),
        !is_this_node(ctx, env, metadata_owner(ctx, env, str_keys[i])) ==> exists|g: int, p: int|
            0 <= g < plan.remote.len() && 0 <= p < plan.remote@[g].1.len() && (
            #[trigger] plan.remote@[g].1@[p]) == (i as usize, items[i])
                && plan.remote@[g].0.deep_view() == metadata_owner(ctx, env, str_keys[i]),
        is_this_node(ctx, env, metadata_owner(ctx, env, str_keys[i])) && (
        items[i].options matches Some(o) && o.if_not_exists) ==> plan.has_if_not_exists,
{
    let owners = owners_of(ctx, env, str_keys);
    let indexes = local_indexes(ctx, env, owners);
    assert(owners[i] == metadata_owner(ctx, env, str_keys[i]));
    if is_this_node(ctx, env, owners[i]) {
        local_part_is_exact(ctx, env, owners);
        assert(indexes.contains(i as usize));
        let j = choose|j: int| 0 <= j < indexes.len() && indexes[j] == i as usize;
        assert(is_local_put(plan.local@[j], i as usize, items[i]));
        batched_writes_store_what_was_sent(plan.local@[j], i as usize, items[i]);
    } else {
        lemma_group_of(ctx, env, owners, items, plan.remote@, i);
    }
}

// Failures, statistics and device memory.

/// The failure that is handed out is one of the failures, and all results before it are good.
pub proof fn first_failure_comes_first<T, E>(results: Seq<Result<T, E>>, e: E)
    requires
        is_first_error(results, e),
    ensures
        exists|i: int|
            0 <= i < results.len() && (#[trigger] results[i]) == Err::<T, E>(e) && forall|j: int|
                0 <= j < i ==> (#[trigger] results[j]) is Ok,
        exists|i: int| 0 <= i < results.len() && (#[trigger] results[i]) is Err,
{
    let i = choose|i: int|
        0 <= i < results.len() && #[trigger] results[i] == Err::<T, E>(e) && all_ok(
            results.take(i),
        );
    assert forall|j: int| 0 <= j < i implies (#[trigger] results[j]) is Ok by {
        assert(results.take(i)[j] is Ok);
    }
}

/// The counters are those of the cache, and the storage tier counts nothing.
pub proof fn statistics_are_those_of_the_cache(hits: u64, misses: u64, size: u64)
    ensures
        ({
            let s = stats_answer(hits, misses, size);
            &&& hits <= i64::MAX ==> s.l1_cache_hits == hits
            &&& misses <= i64::MAX ==> s.l1_cache_misses == misses
            &&& size <= i64::MAX ==> s.l1_cache_size_bytes == size
            &&& s.l2_reads_total == 0
            &&& s.l2_writes_total == 0
            &&& s.l2_bytes_read == 0
            &&& s.l2_bytes_written == 0
            &&& s.metadata_entries == 0
            &&& s.devices.len() == 0
        }),
{
}

/// A transfer between an object and device memory goes ahead exactly where the machine can do
/// it, the request names the object, and its handle has the size of one. It uses the object's
/// key, the handle and the size of the request, and its device where the number is not negative.
pub proof fn transfers_are_those_asked_for(
    support: GdsSupport,
    unavailable: Seq<char>,
    key: Option<ObjectKeyView>,
    ipc_handle: Seq<u8>,
    buf_size: u64,
    gpu_device: i32,
)
    ensures
        ({
            let r = gpu_transfer(support, unavailable, key, ipc_handle, buf_size, gpu_device);
            &&& r is Ok <==> support is Ready && key is Some && ipc_handle.len() == 64
            &&& r matches Ok(t) ==> {
                &&& key matches Some(k) && t.key.namespace == k.namespace && t.key.object_key
                    == k.object_key
                &&& t.ipc_handle == ipc_handle
                &&& buf_size <= usize::MAX ==> t.buf_size == buf_size
                &&& gpu_device >= 0 ==> t.device == Some(gpu_device)
                &&& gpu_device < 0 ==> t.device is None
            }
            &&& r matches Err(e) ==> {
                &&& support is NotCompiled ==> e.code == Code::Unimplemented
                &&& support is Unavailable ==> e.code == Code::FailedPrecondition && e.message
                    == unavailable
                &&& support is Ready ==> e.code == Code::InvalidArgument
            }
        }),
{
}

/// A read into device memory tells how many bytes were read and what the record holds.
pub proof fn device_reads_tell_what_was_read(n: usize, m: BlockMetaView)
    ensures
        ({
            let found = gpu_read_answer(Some((n, m)));
            &&& found.found
            &&& found.bytes_read == n
            &&& found.metadata matches Some(told) && {
                &&& told.num_tokens == m.num_tokens
                &&& told.num_layers == m.num_layers
                &&& told.dtype == m.dtype
                &&& told.compressed == m.compressed
                &&& told.created_at == m.created_at
                &&& told.last_accessed_at == m.last_accessed_at
            }
        }),
        ({
            let absent = gpu_read_answer(None);
            &&& !absent.found
            &&& absent.bytes_read == 0
            &&& absent.metadata is None
        }),
{
}

// Requests and answers.

/// A request asks for the object that its key names, and is refused exactly where it has none.
pub proof fn requests_ask_for_their_key(
    key: Option<ObjectKeyView>,
    r: Result<InternalKey, Status>,
)
    requires
        is_asked_key(key, r),
    ensures
        r is Ok <==> key is Some,
        r matches Ok(internal) ==> (key matches Some(k) && internal.namespace@ == k.namespace
            && internal.object_key@ == k.object_key),
        r matches Err(e) ==> e.code == Code::InvalidArgument && e.message@ == "missing key"@,
{
    if let Ok(internal) = r {
        assert(internal.deep_view().namespace == internal.namespace@);
    }
    if let Err(e) = r {
        assert(e.deep_view().message == e.message@);
    }
}

/// A request by descriptor asks for the object that its descriptor names, and is refused
/// exactly where it has no descriptor, or one without a key.
pub proof fn descriptors_ask_for_their_key(
    descriptor: Option<ObjectDescriptorView>,
    r: Result<InternalKey, Status>,
)
    requires
        is_described_key(descriptor, r),
    ensures
        r is Ok <==> (descriptor matches Some(d) && d.key is Some),
        r matches Ok(internal) ==> (descriptor matches Some(d) && d.key matches Some(k)
            && internal.namespace@ == k.namespace && internal.object_key@ == k.object_key),
        r matches Err(e) ==> e.code == Code::InvalidArgument && (descriptor is None <==> e.message@
            == "missing descriptor"@),
{
    reveal_strlit("missing descriptor");
    reveal_strlit("descriptor missing key");
    assert("missing descriptor"@.len() != "descriptor missing key"@.len());
    if let Ok(internal) = r {
        assert(internal.deep_view().namespace == internal.namespace@);
    }
    if let Err(e) = r {
        assert(e.deep_view().message == e.message@);
    }
}

/// A written stream is for the object that its first message names, and is refused exactly
/// where it has no message, or a first one without a key.
pub proof fn streams_are_for_their_first_key(chunks: Seq<PutChunk>, r: Result<InternalKey, Status>)
    requires
        is_stream_key(chunks, r),
    ensures
        r is Ok <==> chunks.len() > 0 && chunks[0].key is Some,
        r matches Ok(internal) ==> (chunks[0].key matches Some(k) && internal.namespace@
            == k.namespace@ && internal.object_key@ == k.object_key@),
        r matches Err(e) ==> e.code == Code::InvalidArgument,
{
    if chunks.len() > 0 {
        assert(chunks[0].deep_view().key == chunks[0].key.deep_view());
    }
    if let Ok(internal) = r {
        assert(internal.deep_view().namespace == internal.namespace@);
        assert(chunks[0].key->Some_0.deep_view().namespace == chunks[0].key->Some_0.namespace@);
    }
    if let Err(e) = r {
        assert(e.deep_view().code == e.code);
    }
}

/// A request for a stripe asks for the stripe and the version that it names, of the object that
/// the version is of, and is refused exactly where it leaves one of them out.
pub proof fn requests_ask_for_their_stripe(
    req: ReadPlacementChunkRequest,
    r: Result<(InternalKey, ObjectDescriptor, PlacementChunk), Status>,
)
    requires
        is_asked_chunk(req, r),
    ensures
        r is Ok <==> (req.descriptor matches Some(d) && d.key is Some) && req.chunk is Some,
        r matches Ok((key, descriptor, chunk)) ==> {
            &&& req.descriptor == Some(descriptor)
            &&& req.chunk == Some(chunk)
            &&& descriptor.key matches Some(k) && key.namespace@ == k.namespace@ && key.object_key@
                == k.object_key@
        },
        r matches Err(e) ==> e.code == Code::InvalidArgument,
{
    if let Some(d) = req.descriptor {
        assert(d.deep_view().key == d.key.deep_view());
    }
    if let Ok((key, descriptor, _)) = r {
        assert(key.deep_view().namespace == key.namespace@);
        assert(descriptor.key->Some_0.deep_view().namespace == descriptor.key->Some_0.namespace@);
    }
    if let Err(e) = r {
        assert(e.deep_view().code == e.code);
    }
}

/// A read of an object that is spread is answered with the bytes of its chunks, one behind the
/// other, and with what its record holds.
pub proof fn spread_objects_are_answered_whole(chunks: Seq<Seq<u8>>, m: BlockMetaView)
    ensures
        ({
            let answer = chunks_answer(chunks, m);
            &&& answer.found
            &&& answer.data == joined(chunks)
            &&& answer.metadata matches Some(told) && {
                &&& told.num_tokens == m.num_tokens
                &&& told.num_layers == m.num_layers
                &&& told.dtype == m.dtype
                &&& told.compressed == m.compressed
                &&& told.created_at == m.created_at
                &&& told.last_accessed_at == m.last_accessed_at
            }
        }),
{
}

/// A read of an object of this node is answered with the bytes and with what the record holds
/// that were found, and with nothing where nothing was.
pub proof fn local_objects_are_answered_whole(found: Option<(prost::bytes::Bytes, BlockMeta)>)
    ensures
        ({
            let answer = memory_answer(found);
            &&& answer.found <==> found is Some
            &&& found is None ==> answer.data.len() == 0 && answer.metadata is None
            &&& found matches Some((data, meta)) ==> answer.data == bytes_of(data) && (
            answer.metadata matches Some(told) && {
                &&& told.num_tokens == meta.num_tokens
                &&& told.num_layers == meta.num_layers
                &&& told.dtype == meta.dtype@
                &&& told.compressed == meta.compressed
                &&& told.created_at == meta.created_at
                &&& told.last_accessed_at == meta.last_accessed_at
            })
        }),
{
}

/// A read by descriptor finds the version exactly where there are bytes of it, and answers with
/// them, with what the record holds, and with the descriptor and the placement.
pub proof fn versions_are_answered_whole(
    data: Option<Seq<u8>>,
    m: BlockMetaView,
    fresh: ObjectDescriptorView,
    placement: PlacementDescriptorView,
)
    ensures
        ({
            let answer = version_answer(data, m, fresh, placement);
            &&& answer.found <==> data is Some
            &&& data is None ==> answer.data.len() == 0 && answer.metadata is None
                && answer.descriptor is None && answer.placement is None
            &&& data matches Some(bytes) ==> answer.data == bytes && answer.descriptor == Some(
                fresh,
            ) && answer.placement == Some(placement) && (answer.metadata matches Some(told) && {
                &&& told.num_tokens == m.num_tokens
                &&& told.num_layers == m.num_layers
                &&& told.dtype == m.dtype
                &&& told.compressed == m.compressed
                &&& told.created_at == m.created_at
                &&& told.last_accessed_at == m.last_accessed_at
            })
        }),
{
}

/// What is not found is told as such.
pub proof fn missing_objects_are_told()
    ensures
        key_not_found().code == Code::NotFound,
        key_not_found().message == "key not found"@,
{
}

/// The location of a stripe that was sent out is what its node answers, where the node has
/// stored it; otherwise the write fails, and the error names the node that refused.
pub proof fn nodes_tell_where_stripes_are(
    node_id: Seq<char>,
    resp: PutPlacementChunkResponseView,
    r: Result<ChunkLocation, Status>,
)
    requires
        is_sent_location(node_id, resp, r),
    ensures
        r is Ok <==> resp.success && resp.chunk is Some,
        r matches Ok(loc) ==> (resp.chunk matches Some(c) && {
            &&& loc.stripe_index == c.stripe_index
            &&& loc.node_id@ == c.node_id
            &&& loc.grpc_endpoint@ == c.grpc_endpoint
            &&& loc.rdma_endpoint@ == c.rdma_endpoint
            &&& loc.device_id == c.device_id
            &&& loc.storage_handle@ == c.storage_handle
            &&& loc.offset == c.offset
            &&& loc.length == c.length
        }),
        r matches Err(e) ==> e.code == Code::Internal && (!resp.success ==> e.message@
            == "data node "@ + node_id + " rejected placement chunk"@),
{
    if let Ok(loc) = r {
        assert(loc.deep_view().node_id == loc.node_id@);
        assert(loc.deep_view().grpc_endpoint == loc.grpc_endpoint@);
        assert(loc.deep_view().stripe_index == loc.stripe_index);
    }
    if let Err(e) = r {
        assert(e.deep_view().code == e.code);
        assert(e.deep_view().message == e.message@);
    }
}

/// A spread write succeeds exactly where every node has stored its stripe. Its record keeps what
/// the prepared one says of the object, is of the size of the object, and lists each stripe at
/// its place, in whatever order the nodes answer.
pub proof fn committed_records_are_complete<E>(
    prepared: BlockMetaView,
    total: u64,
    size: u64,
    results: Seq<Result<ChunkLocation, E>>,
    r: Result<BlockMeta, E>,
    i: int,
)
    requires
        is_committed_record(prepared, total, size, results, r),
        all_ok(results) ==> one_for_each_stripe(ok_values(results), results.len()),
        0 <= i < results.len(),
    ensures
        r is Ok <==> all_ok(results),
        r matches Err(e) ==> exists|j: int|
            0 <= j < results.len() && (#[trigger] results[j]) == Err::<ChunkLocation, E>(e),
        r matches Ok(record) ==> {
            &&& record.num_tokens == prepared.num_tokens
            &&& record.num_layers == prepared.num_layers
            &&& record.dtype@ == prepared.dtype
            &&& record.compressed == prepared.compressed
            &&& record.created_at == prepared.created_at
            &&& record.last_accessed_at == prepared.last_accessed_at
            &&& record.ttl_seconds == prepared.ttl_seconds
            &&& record.object_handle@ == prepared.object_handle
            &&& record.object_generation == prepared.object_generation
            &&& record.content_etag@ == prepared.content_etag
            &&& record.layout_version == prepared.layout_version
            &&& record.size == total
            &&& record.striping matches Some(s) && {
                &&& s.chunk_size == size
                &&& s.total_size == total
                &&& s.chunk_locations.len() == results.len()
                &&& s.chunk_locations@[i].stripe_index == i
                &&& exists|j: int|
                    0 <= j < results.len() && ((#[trigger] results[j]) matches Ok(loc)
                        && s.chunk_locations@[i].deep_view() == loc.deep_view())
            }
        },
{
    if let Err(e) = r {
        crate::order::results_are_good_or_fail(results, e);
        first_failure_comes_first(results, e);
    }
    if let Ok(record) = r {
        let locations = ok_values(results);
        let sorted = stripe_sorted(locations);
        each_stripe_is_at_its_place(locations, results.len());
        let view = striped_record(prepared, total, size, location_views(sorted));
        assert(record.deep_view() == view);
        assert(record.deep_view().num_tokens == record.num_tokens);
        let s = record.striping->Some_0;
        assert(record.striping is Some && s.deep_view() == view.striping->Some_0);
        assert(s.deep_view().chunk_locations == location_views(sorted));
        assert(s.chunk_locations.deep_view() == location_views(sorted));
        assert(s.chunk_locations.deep_view().len() == s.chunk_locations.len());
        assert(s.chunk_locations.deep_view()[i] == s.chunk_locations@[i].deep_view());
        assert(sorted[i].stripe() == i);
        assert(locations.contains(sorted[i]));
        let j = choose|j: int| 0 <= j < locations.len() && locations[j] == sorted[i];
        assert(results[j] is Ok);
        assert(results[j]->Ok_0 == locations[j]);
        assert(s.chunk_locations@[i].deep_view() == results[j]->Ok_0.deep_view());
        assert(s.chunk_locations@[i].deep_view().stripe_index == s.chunk_locations@[i].stripe_index);
    }
}

/// A read of a spread object succeeds exactly where every stripe was read, and then has each
/// stripe at its place, in whatever order the nodes answer.
pub proof fn collected_chunks_are_in_order<E>(
    results: Seq<Result<(u32, prost::bytes::Bytes), E>>,
    r: Result<Vec<prost::bytes::Bytes>, E>,
    j: int,
)
    requires
        are_collected_chunks(results, r),
        all_ok(results) ==> one_for_each_stripe(ok_values(results), results.len()),
        0 <= j < results.len(),
    ensures
        r is Ok <==> all_ok(results),
        r matches Err(e) ==> exists|i: int|
            0 <= i < results.len() && (#[trigger] results[i]) == Err::<
                (u32, prost::bytes::Bytes),
                E,
            >(e),
        r matches Ok(buffers) ==> buffers.len() == results.len() && (results[j] matches Ok((
            stripe,
            data,
        )) && stripe < buffers.len() && buffers@[stripe as int] == data),
{
    if let Err(e) = r {
        crate::order::results_are_good_or_fail(results, e);
        first_failure_comes_first(results, e);
    }
    if let Ok(buffers) = r {
        let items = ok_values(results);
        let sorted = stripe_sorted(items);
        each_stripe_is_at_its_place(items, results.len());
        assert(results[j] is Ok);
        let k = items[j].0;
        assert(items[j].stripe() == k);
        assert(k < results.len());
        let only = of_stripe(items, k);
        assert(only.len() == 1);
        broadcast use vstd::seq_lib::group_filter_ensures;
        assert(only.contains(items[j]));
        assert(only[0] == items[j]);
        assert(sorted[k as int] == only[0]);
        assert(buffers@[k as int] == sorted[k as int].1);
    }
}

/// The answers of a batch stand at the places of their keys, and a place without an answer
/// counts as an object that does not exist.
pub proof fn batch_answers_stand_at_their_places<E>(
    slots: Seq<Option<GetResponseView>>,
    results: Seq<Result<Option<(prost::bytes::Bytes, BlockMeta)>, E>>,
    i: int,
)
    ensures
        filled_slots(slots).len() == slots.len(),
        0 <= i < slots.len() ==> {
            &&& slots[i] matches Some(answer) ==> filled_slots(slots)[i] == answer
            &&& slots[i] is None ==> !filled_slots(slots)[i].found && filled_slots(
                slots,
            )[i].data.len() == 0 && filled_slots(slots)[i].metadata is None
        },
        answered_slots(results).len() == results.len(),
        0 <= i < results.len() ==> (answered_slots(results)[i] matches Some(answer) && (
        answer.found <==> (results[i] matches Ok(found) && found is Some))),
        0 <= i < results.len() ==> (results[i] matches Ok(Some((data, meta))) ==> (
        answered_slots(results)[i] matches Some(answer) && answer.data == bytes_of(data))),
{
}

/// A write of a batch succeeds exactly where it stored its object.
pub proof fn batch_outcomes_tell_success<E>(
    single: Seq<Result<bool, E>>,
    joint: Seq<Result<(), E>>,
    i: int,
)
    ensures
        single_outcomes(single).len() == single.len(),
        joint_outcomes(joint).len() == joint.len(),
        0 <= i < single.len() ==> (single_outcomes(single)[i] <==> (single[i] matches Ok(stored)
            && stored)),
        0 <= i < joint.len() ==> (joint_outcomes(joint)[i] <==> joint[i] is Ok),
{
}

/// The writes of a batch are done one by one exactly where one of them depends on what is there;
/// either way all of them are done, with the key, the bytes and the record of each, in order.
pub proof fn local_writes_are_all_done(
    has_if_not_exists: bool,
    local: Vec<LocalPut>,
    indexes: Vec<usize>,
    writes: LocalWrites,
    i: int,
)
    requires
        are_local_writes(has_if_not_exists, local, indexes, writes),
        0 <= i < local.len(),
    ensures
        indexes.len() == local.len(),
        indexes@[i] == local@[i].index,
        writes is OneByOne <==> has_if_not_exists,
        match writes {
            LocalWrites::OneByOne { writes } => writes.len() == local.len() && writes@[i]
                == local@[i],
            LocalWrites::Together { items } => {
                &&& items.len() == local.len()
                &&& items@[i].0 == local@[i].key
                &&& items@[i].1 == local@[i].data
                &&& items@[i].2 == local@[i].meta
            },
        },
{
    assert(indexes@.len() == local@.len());
}

/// A failed call to another node is told as such: the error says that the node is not
/// available, names it, and ends with the cause.
pub proof fn failed_calls_name_node_and_cause(
    call: PeerCall,
    node_id: Seq<char>,
    cause: Seq<char>,
)
    ensures
        ({
            let e = peer_error(call, node_id, cause);
            let start = e.message.len() - cause.len();
            &&& e.code == Code::Unavailable
            &&& e.message.skip(start) == cause
            &&& e.message.subrange(start - 2 - node_id.len(), start - 2) == node_id
            &&& e.message.subrange(start - 2, start) == ": "@
        }),
{
    reveal_strlit(": ");
    let e = peer_error(call, node_id, cause);
    let start = e.message.len() - cause.len();
    assert(e.message.skip(start) =~= cause);
    assert(e.message.subrange(start - 2 - node_id.len(), start - 2) =~= node_id);
    assert(e.message.subrange(start - 2, start) =~= ": "@);
}

/// A service that answers a health probe is serving, in the version that it is.
pub proof fn answering_services_serve(version: Seq<char>)
    ensures
        health_answer(version).status is Serving,
        health_answer(version).version == version,
{
}

/// A stream by key sends the object that was found, from the first byte to the last, and fails
/// exactly where none was.
pub proof fn found_objects_are_streamed_whole(
    segments: Option<Vec<prost::bytes::Bytes>>,
    r: Result<Vec<DataChunk>, Status>,
)
    requires
        is_object_stream(segments, r),
        segments matches Some(s) ==> joined(bytes_of_each(s@)).len() <= i64::MAX,
    ensures
        r is Ok <==> segments is Some,
        r matches Err(e) ==> e.code == Code::NotFound,
        segments matches Some(s) ==> (r matches Ok(messages) && joined(
            message_bytes(messages.deep_view()),
        ) == joined(bytes_of_each(s@)) && (messages.len() == 0 <==> joined(
            bytes_of_each(s@),
        ).len() == 0)),
{
    if let Err(e) = r {
        assert(e.deep_view().code == e.code);
    }
    if let Some(s) = segments {
        let messages = r->Ok_0.deep_view();
        lemma_stream_holds_the_object(bytes_of_each(s@));
        assert(messages.len() == r->Ok_0.len());
    }
}

proof fn lemma_stream_holds_the_object(segments: Seq<Seq<u8>>)
    requires
        stream_fits(segments),
    ensures
        joined(message_bytes(data_stream(segments))) == joined(segments),
        data_stream(segments).len() == 0 <==> joined(segments).len() == 0,
{
    let messages = data_stream(segments);
    if messages.len() > 0 {
        stream_messages_are_contiguous(segments, 0);
        let parts = message_bytes(messages);
        crate::payload::joined_prefix_len(parts, 0);
        crate::payload::joined_prefix_len(parts, 1);
        assert(parts.take(0) =~= Seq::empty());
        assert(parts[0] == messages[0].data);
    } else {
        stream_holds_the_object(segments);
        assert(message_bytes(messages) =~= piece_bytes(stream_pieces(segments)));
        assert(message_bytes(messages) =~= Seq::empty());
    }
}

/// A stream by descriptor sends what a stream by key of the same object does, and tells the
/// version and its place at the beginning.
pub proof fn found_versions_are_streamed_whole(
    segments: Option<Vec<prost::bytes::Bytes>>,
    fresh: ObjectDescriptorView,
    placement: PlacementDescriptorView,
    r: Result<Vec<DescriptorDataChunk>, Status>,
    i: int,
)
    requires
        is_version_stream(segments, fresh, placement, r),
        segments matches Some(s) ==> joined(bytes_of_each(s@)).len() <= i64::MAX,
    ensures
        r is Ok <==> segments is Some,
        r matches Err(e) ==> e.code == Code::NotFound,
        segments matches Some(s) ==> (r matches Ok(messages) && {
            let plain = data_stream(bytes_of_each(s@));
            &&& messages.len() == plain.len()
            &&& 0 <= i < messages.len() ==> {
                let m = messages.deep_view()[i];
                &&& m.data == plain[i].data
                &&& m.offset == plain[i].offset
                &&& m.total_size == joined(bytes_of_each(s@)).len()
                &&& m.is_last <==> i == messages.len() - 1
                &&& i == 0 ==> m.descriptor == Some(fresh) && m.placement == Some(placement)
                &&& i > 0 ==> m.descriptor is None && m.placement is None
            }
        }),
{
    if let Err(e) = r {
        assert(e.deep_view().code == e.code);
    }
    if let Some(s) = segments {
        let plain = data_stream(bytes_of_each(s@));
        assert(r->Ok_0.deep_view().len() == r->Ok_0.len());
        if 0 <= i < plain.len() {
            stream_marks_its_ends(bytes_of_each(s@), fresh, placement, i);
        }
    }
}

/// A stream by descriptor fails exactly where the object does not exist, and otherwise goes on
/// with what was decided.
pub proof fn streams_need_a_version(source: DescriptorSource, r: Result<DescriptorSource, Status>)
    requires
        is_required_version(source, r),
    ensures
        r is Err <==> source is Absent,
        r matches Ok(s) ==> s == source,
        r matches Err(e) ==> e.code == Code::NotFound,
{
    if let Err(e) = r {
        assert(e.deep_view().code == e.code);
    }
}

/// A stripe that is asked to be removed is the one that the request names.
pub proof fn removals_are_of_the_stripe_named(
    chunk: Option<PlacementChunk>,
    r: Result<PlacementChunk, Status>,
)
    requires
        is_required_chunk(chunk, r),
    ensures
        r is Ok <==> chunk is Some,
        r matches Ok(c) ==> chunk == Some(c),
        r matches Err(e) ==> e.code == Code::InvalidArgument,
{
    if let Err(e) = r {
        assert(e.deep_view().code == e.code);
    }
}

/// Removals and questions are answered with what was found.
pub proof fn answers_tell_what_was_there(there: bool)
    ensures
        delete_answer(there).success == there,
        delete_chunk_answer(there).success == there,
        exists_answer(there).exists == there,
        there ==> outcome_name(there) == "ok"@,
        !there ==> outcome_name(there) == "not_found"@,
{
}

/// A stripe that is read keeps its index, and its bytes are those that were stored here or that
/// have arrived, in order; one that is not here fails the read.
pub proof fn read_stripes_are_whole(
    stripe_index: u32,
    loaded: Option<prost::bytes::Bytes>,
    r: Result<(u32, prost::bytes::Bytes), Status>,
    parts: Seq<Seq<u8>>,
    fetched: (u32, prost::bytes::Bytes),
)
    requires
        is_loaded_chunk(stripe_index, loaded, r),
        is_fetched_chunk(stripe_index, parts, fetched),
    ensures
        r is Ok <==> loaded is Some,
        r matches Ok((index, data)) ==> index == stripe_index && loaded == Some(data),
        r matches Err(e) ==> e.code == Code::NotFound,
        fetched.0 == stripe_index,
        bytes_of(fetched.1) == joined(parts),
{
    if let Err(e) = r {
        assert(e.deep_view().code == e.code);
    }
}

/// The answers of a node are taken exactly where there is one for each item, and then each goes
/// to the place of its item; otherwise nothing changes, and the error tells the node and both
/// numbers.
pub proof fn miscounted_answers_change_nothing<T>(
    kind: BatchKind,
    before: Seq<T>,
    node_id: Seq<char>,
    indexes: Seq<usize>,
    values: Seq<T>,
    after: Seq<T>,
    r: Result<(), Status>,
)
    requires
        is_accepted_group(kind, before, node_id, indexes, values, after, r),
    ensures
        r is Ok <==> values.len() == indexes.len(),
        r is Ok ==> after == placed_all(before, indexes, values),
        r matches Err(e) ==> {
            let head = "metadata owner "@ + node_id + " returned "@ + decimal(values.len());
            &&& after == before
            &&& e.code == Code::Internal
            &&& head.is_prefix_of(e.message@)
        },
{
    if let Err(e) = r {
        assert(e.deep_view().code == e.code);
        assert(e.deep_view().message == e.message@);
        let head = "metadata owner "@ + node_id + " returned "@ + decimal(values.len());
        assert(e.message@.take(head.len() as int) =~= head);
    }
}

/// A written stream can be stored exactly where it has a message and can be counted, and, where
/// it is large and came in several messages, fits into one buffer.
pub proof fn storable_streams_fit(
    ctx: KVServiceContextView,
    env: NodeEnvView,
    chunks: Seq<PutChunk>,
)
    ensures
        ({
            let total = joined(Seq::new(chunks.len(), |i: int| bytes_of(chunks[i].data))).len();
            stream_can_be_stored(ctx, env, chunks) <==> {
                &&& chunks.len() > 0
                &&& total <= usize::MAX
                &&& chunks.len() > 1 && is_large(ctx, total) ==> total <= isize::MAX
            }
        }),
{
    assert(stream_bytes(chunks) =~= Seq::new(chunks.len(), |i: int| bytes_of(chunks[i].data)));
}

} // verus!
