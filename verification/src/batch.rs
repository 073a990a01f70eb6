//! Requests for many objects at once: what this node does, what goes to which other node, and
//! how the answers are put together.
use crate::cluster::{
    is_local_node, is_this_node, metadata_owner, select_metadata_owner,
};
use crate::convert::{
    absent_object, fresh_meta, internal_key, keeps_existing, memory_get_result_to_pb, meta_from_pb,
    missing_get_response, pb_key_to_internal, present_object, put_options_if_not_exists,
};
use crate::messages::{GetBatchResponse, GetResponse, GetResponseView, ObjectKey, PutRequest};
use crate::model::{
    BlockMeta, DataNode, DataNodeView, InternalKey, KVServiceContext, KVServiceContextView,
    NodeEnv, NodeEnvView,
};
use crate::payload::bytes_of;
use crate::status::{error, Code, Status};
use crate::text::{decimal, push_decimal};
use prost::bytes::Bytes;
use vstd::prelude::*;

verus! {

/// What goes to each node.
pub open spec fn groups_view<T>(groups: Seq<(DataNode, Vec<T>)>) -> Seq<(DataNodeView, Seq<T>)> {
    Seq::new(groups.len(), |i: int| (groups[i].0.deep_view(), groups[i].1@))
}

/// Whether group `i` is the first one for `node`.
pub open spec fn is_first_group<T>(
    groups: Seq<(DataNodeView, Seq<T>)>,
    node: DataNodeView,
    i: int,
) -> bool {
    &&& 0 <= i < groups.len()
    &&& groups[i].0 == node
    &&& forall|j: int| 0 <= j < i ==> (#[trigger] groups[j]).0 != node
}

/// The groups with one more item for `node`: in the node's group, or in a new group at the end.
pub open spec fn with_item<T>(
    groups: Seq<(DataNodeView, Seq<T>)>,
    node: DataNodeView,
    item: T,
) -> Seq<(DataNodeView, Seq<T>)> {
    if exists|i: int| is_first_group(groups, node, i) {
        let i = choose|i: int| is_first_group(groups, node, i);
        groups.update(i, (node, groups[i].1.push(item)))
    } else {
        groups.push((node, seq![item]))
    }
}

fn same_node(a: &DataNode, b: &DataNode) -> (r: bool)
    ensures
        r == (a.deep_view() == b.deep_view()),
{
    a.node_id == b.node_id && a.grpc_endpoint == b.grpc_endpoint && a.rdma_endpoint
        == b.rdma_endpoint
}

/// Adds an item to the group of `node`, or to a new group where there is none yet.
pub fn push_node_group<T>(groups: &mut Vec<(DataNode, Vec<T>)>, node: DataNode, item: T)
    ensures
        groups_view(final(groups)@) == with_item(groups_view(old(groups)@), node.deep_view(), item),
{
    let ghost before = groups_view(groups@);
    let mut i: usize = 0;
    while i < groups.len()
        invariant
            i <= groups.len(),
            before == groups_view(groups@),
            groups@ == old(groups)@,
            forall|j: int| 0 <= j < i ==> (#[trigger] before[j]).0 != node.deep_view(),
        decreases groups.len() - i,
    {
        assert(before[i as int].0 == groups@[i as int].0.deep_view());
        if same_node(&groups[i].0, &node) {
            proof {
                assert(is_first_group(before, node.deep_view(), i as int));
                let k = choose|k: int| is_first_group(before, node.deep_view(), k);
                assert(k == i);
            }
            let group = &mut groups[i];
            group.1.push(item);
            assert(groups_view(groups@) =~= with_item(before, node.deep_view(), item));
            return;
        }
        i = i + 1;
    }
    let mut items: Vec<T> = Vec::new();
    items.push(item);
    assert(items@ =~= seq![item]);
    groups.push((node, items));
    assert(groups_view(groups@) =~= with_item(before, node.deep_view(), item));
}

/// The nodes that hold the metadata of several objects, by the string forms of their keys.
pub open spec fn owners_of(
    ctx: KVServiceContextView,
    env: NodeEnvView,
    str_keys: Seq<Seq<char>>,
) -> Seq<DataNodeView> {
    Seq::new(str_keys.len(), |i: int| metadata_owner(ctx, env, str_keys[i]))
}

/// The indices, in order, of the objects that belong to this node.
pub open spec fn local_indexes(
    ctx: KVServiceContextView,
    env: NodeEnvView,
    owners: Seq<DataNodeView>,
) -> Seq<usize>
    decreases owners.len(),
{
    if owners.len() == 0 {
        seq![]
    } else {
        let before = local_indexes(ctx, env, owners.drop_last());
        if is_this_node(ctx, env, owners.last()) {
            before.push((owners.len() - 1) as usize)
        } else {
            before
        }
    }
}

/// What goes to the other nodes: the items that do not belong to this node, each with its
/// index, in groups by owner.
pub open spec fn remote_groups<T>(
    ctx: KVServiceContextView,
    env: NodeEnvView,
    owners: Seq<DataNodeView>,
    items: Seq<T>,
) -> Seq<(DataNodeView, Seq<(usize, T)>)>
    decreases items.len(),
{
    if items.len() == 0 {
        seq![]
    } else {
        let before = remote_groups(ctx, env, owners, items.drop_last());
        let last = items.len() - 1;
        if is_this_node(ctx, env, owners[last]) {
            before
        } else {
            with_item(before, owners[last], (last as usize, items[last]))
        }
    }
}

/// How a read of many objects is shared out.
pub struct GetBatchPlan {
    pub total: usize,
    pub local: Vec<(usize, InternalKey)>,
    pub remote: Vec<(DataNode, Vec<(usize, ObjectKey)>)>,
}

/// Whether `plan` is how a read of `keys`, whose string forms are `str_keys`, is shared out.
pub open spec fn is_get_batch_plan(
    ctx: KVServiceContextView,
    env: NodeEnvView,
    keys: Seq<ObjectKey>,
    str_keys: Seq<Seq<char>>,
    plan: GetBatchPlan,
) -> bool {
    let owners = owners_of(ctx, env, str_keys);
    let indexes = local_indexes(ctx, env, owners);
    &&& plan.total == keys.len()
    &&& plan.local.len() == indexes.len()
    &&& forall|j: int|
        0 <= j < indexes.len() ==> (#[trigger] plan.local@[j]).0 == indexes[j]
            && plan.local@[j].1.deep_view() == internal_key(keys[indexes[j] as int].deep_view())
    &&& groups_view(plan.remote@) == remote_groups(ctx, env, owners, keys)
}

/// Shares a read of many objects out. `str_keys` are the string forms of `keys`.
pub fn plan_get_batch(
    ctx: &KVServiceContext,
    env: &NodeEnv,
    keys: Vec<ObjectKey>,
    str_keys: &Vec<String>,
) -> (r: GetBatchPlan)
    requires
        keys.len() == str_keys.len(),
    ensures
        is_get_batch_plan(ctx.deep_view(), env.deep_view(), keys@, str_keys.deep_view(), r),
{
    let ghost c = ctx.deep_view();
    let ghost e = env.deep_view();
    let ghost owners = owners_of(c, e, str_keys.deep_view());
    let total: usize = keys.len();
    let mut local: Vec<(usize, InternalKey)> = Vec::new();
    let mut remote: Vec<(DataNode, Vec<(usize, ObjectKey)>)> = Vec::new();
    let mut idx: usize = 0;
    proof {
        assert(owners.take(0) =~= seq![]);
        assert(keys@.take(0) =~= seq![]);
        assert(groups_view(remote@) =~= seq![]);
    }
    for key in iter: keys
        invariant
            c == ctx.deep_view(),
            e == env.deep_view(),
            owners == owners_of(c, e, str_keys.deep_view()),
            keys.len() == str_keys.len(),
            iter.seq() == keys@,
            idx == iter.index(),
            local.len() == local_indexes(c, e, owners.take(idx as int)).len(),
            forall|j: int|
                0 <= j < local.len() ==> (#[trigger] local@[j]).0 == local_indexes(
                    c,
                    e,
                    owners.take(idx as int),
                )[j] && local@[j].1.deep_view() == internal_key(
                    keys@[local_indexes(c, e, owners.take(idx as int))[j] as int].deep_view(),
                ),
            groups_view(remote@) == remote_groups(c, e, owners, keys@.take(idx as int)),
    {
        let ghost n = idx as int;
        proof {
            assert(owners.take(n + 1).drop_last() =~= owners.take(n));
            assert(keys@.take(n + 1).drop_last() =~= keys@.take(n));
            assert(owners[n] == metadata_owner(c, e, str_keys@[n]@));
            assert(key == keys@[n]);
        }
        let owner = select_metadata_owner(ctx, env, str_keys[idx].as_str());
        if is_local_node(ctx, env, &owner) {
            local.push((idx, pb_key_to_internal(&key)));
        } else {
            push_node_group(&mut remote, owner, (idx, key));
        }
        idx = idx + 1;
    }
    assert(owners.take(idx as int) =~= owners);
    assert(keys@.take(idx as int) =~= keys@);
    GetBatchPlan { total, local, remote }
}

/// One write of a batch that belongs to this node.
pub struct LocalPut {
    pub index: usize,
    pub key: InternalKey,
    pub data: Bytes,
    pub meta: BlockMeta,
    pub if_not_exists: bool,
}

/// Whether `put` is the write that `item`, at `index` of a batch, asks for.
pub open spec fn is_local_put(put: LocalPut, index: usize, item: PutRequest) -> bool {
    &&& put.index == index
    &&& item.key is Some
    &&& put.key.deep_view() == internal_key(item.key->Some_0.deep_view())
    &&& put.data == item.data
    &&& put.meta.deep_view() == fresh_meta(item.metadata.deep_view(), put.meta.last_accessed_at)
    &&& put.meta.last_accessed_at >= 0
    &&& put.if_not_exists == keeps_existing(item.options.deep_view())
}

/// How a batch of writes is shared out.
pub struct PutBatchPlan {
    pub total: usize,
    pub local: Vec<LocalPut>,
    pub has_if_not_exists: bool,
    pub remote: Vec<(DataNode, Vec<(usize, PutRequest)>)>,
}

/// Whether every write of a batch names its object.
pub open spec fn all_have_keys(items: Seq<PutRequest>) -> bool {
    forall|i: int| 0 <= i < items.len() ==> (#[trigger] items[i]).key is Some
}

/// Whether `plan` is how the writes `items`, with the string keys `str_keys`, are shared out.
pub open spec fn is_put_batch_plan(
    ctx: KVServiceContextView,
    env: NodeEnvView,
    items: Seq<PutRequest>,
    str_keys: Seq<Seq<char>>,
    plan: PutBatchPlan,
) -> bool {
    let owners = owners_of(ctx, env, str_keys);
    let indexes = local_indexes(ctx, env, owners);
    &&& plan.total == items.len()
    &&& plan.local.len() == indexes.len()
    &&& forall|j: int|
        0 <= j < indexes.len() ==> is_local_put(
            #[trigger] plan.local@[j],
            indexes[j],
            items[indexes[j] as int],
        )
    &&& plan.has_if_not_exists <==> exists|j: int|
        0 <= j < plan.local.len() && (#[trigger] plan.local@[j]).if_not_exists
    &&& groups_view(plan.remote@) == remote_groups(ctx, env, owners, items)
}

/// Shares a batch of writes out. `str_keys` are the string forms of the keys of `items`; what
/// stands there for an item without a key does not matter. A write that does not name its
/// object fails the whole batch.
pub fn plan_put_batch(
    ctx: &KVServiceContext,
    env: &NodeEnv,
    items: Vec<PutRequest>,
    str_keys: &Vec<String>,
) -> (r: Result<PutBatchPlan, Status>)
    requires
        items.len() == str_keys.len(),
    ensures
        r is Ok <==> all_have_keys(items@),
        match r {
            Ok(plan) => is_put_batch_plan(
                ctx.deep_view(),
                env.deep_view(),
                items@,
                str_keys.deep_view(),
                plan,
            ),
            Err(e) => e.deep_view() == error(Code::InvalidArgument, "missing key in batch item"@),
        },
{
    let ghost c = ctx.deep_view();
    let ghost e = env.deep_view();
    let ghost owners = owners_of(c, e, str_keys.deep_view());
    let total: usize = items.len();
    let mut local: Vec<LocalPut> = Vec::new();
    let mut remote: Vec<(DataNode, Vec<(usize, PutRequest)>)> = Vec::new();
    let mut has_if_not_exists = false;
    let mut idx: usize = 0;
    proof {
        assert(owners.take(0) =~= seq![]);
        assert(items@.take(0) =~= seq![]);
        assert(groups_view(remote@) =~= seq![]);
    }
    for item in iter: items
        invariant
            c == ctx.deep_view(),
            e == env.deep_view(),
            owners == owners_of(c, e, str_keys.deep_view()),
            items.len() == str_keys.len(),
            iter.seq() == items@,
            idx == iter.index(),
            forall|i: int| 0 <= i < idx ==> (#[trigger] items@[i]).key is Some,
            local.len() == local_indexes(c, e, owners.take(idx as int)).len(),
            forall|j: int|
                0 <= j < local.len() ==> is_local_put(
                    #[trigger] local@[j],
                    local_indexes(c, e, owners.take(idx as int))[j],
                    items@[local_indexes(c, e, owners.take(idx as int))[j] as int],
                ),
            has_if_not_exists <==> exists|j: int|
                0 <= j < local.len() && (#[trigger] local@[j]).if_not_exists,
            groups_view(remote@) == remote_groups(c, e, owners, items@.take(idx as int)),
    {
        let ghost n = idx as int;
        proof {
            assert(owners.take(n + 1).drop_last() =~= owners.take(n));
            assert(items@.take(n + 1).drop_last() =~= items@.take(n));
            assert(owners[n] == metadata_owner(c, e, str_keys@[n]@));
            assert(item == items@[n]);
        }
        let key = match &item.key {
            Some(k) => pb_key_to_internal(k),
            None => {
                return Err(Status::new(Code::InvalidArgument, "missing key in batch item"));
            },
        };
        let owner = select_metadata_owner(ctx, env, str_keys[idx].as_str());
        if is_local_node(ctx, env, &owner) {
            let meta = meta_from_pb(item.metadata.as_ref());
            let if_not_exists = put_options_if_not_exists(item.options.as_ref());
            let ghost before = local@;
            let ghost had = has_if_not_exists;
            has_if_not_exists = has_if_not_exists || if_not_exists;
            local.push(LocalPut { index: idx, key, data: item.data, meta, if_not_exists });
            proof {
                if has_if_not_exists {
                    if had {
                        let j = choose|j: int|
                            0 <= j < before.len() && (#[trigger] before[j]).if_not_exists;
                        assert(local@[j].if_not_exists);
                    } else {
                        assert(local@[before.len() as int].if_not_exists);
                    }
                } else {
                    assert forall|j: int| 0 <= j < local.len() implies !(
                    #[trigger] local@[j]).if_not_exists by {
                        if j < before.len() {
                            assert(!before[j].if_not_exists);
                        }
                    }
                }
            }
        } else {
            push_node_group(&mut remote, owner, (idx, item));
        }
        idx = idx + 1;
    }
    assert(owners.take(idx as int) =~= owners);
    assert(items@.take(idx as int) =~= items@);
    Ok(PutBatchPlan { total, local, has_if_not_exists, remote })
}

/// The answers `slots` with `values[j]` at `indexes[j]`, for the first `n` of both.
pub open spec fn placed<T>(slots: Seq<T>, indexes: Seq<usize>, values: Seq<T>, n: nat) -> Seq<T>
    decreases n,
{
    if n == 0 {
        slots
    } else {
        placed(slots, indexes, values, (n - 1) as nat).update(
            indexes[n - 1] as int,
            values[n - 1],
        )
    }
}

/// The answers `slots` with the values at their indices. Where there are more of the one than
/// of the other, the rest does not count.
pub open spec fn placed_all<T>(slots: Seq<T>, indexes: Seq<usize>, values: Seq<T>) -> Seq<T> {
    placed(
        slots,
        indexes,
        values,
        if indexes.len() < values.len() {
            indexes.len()
        } else {
            values.len()
        },
    )
}

/// Puts values at their indices. Where there are more of the one than of the other, the rest
/// does not count.
pub fn place<T>(slots: &mut Vec<T>, indexes: &Vec<usize>, values: Vec<T>)
    requires
        forall|j: int| 0 <= j < indexes.len() ==> (#[trigger] indexes@[j]) < old(slots).len(),
    ensures
        final(slots)@ == placed_all(old(slots)@, indexes@, values@),
        final(slots).len() == old(slots).len(),
{
    let ghost before = slots@;
    let ghost n = if indexes.len() < values.len() {
        indexes.len() as int
    } else {
        values.len() as int
    };
    let mut j: usize = 0;
    for value in iter: values
        invariant
            iter.seq() == values@,
            0 <= n <= indexes.len(),
            n <= values.len(),
            n == indexes.len() || n == values.len(),
            j == (if iter.index() < n {
                iter.index()
            } else {
                n
            }),
            forall|k: int| 0 <= k < indexes.len() ==> (#[trigger] indexes@[k]) < before.len(),
            slots@ == placed(before, indexes@, values@, j as nat),
            slots.len() == before.len(),
    {
        if j < indexes.len() {
            let i: usize = indexes[j];
            assert(value == values@[j as int]);
            slots[i] = value;
            j = j + 1;
        }
    }
}

/// Takes the indices of several items apart from the items.
pub fn split_entries<T>(entries: Vec<(usize, T)>) -> (r: (Vec<usize>, Vec<T>))
    ensures
        r.0@ == Seq::new(entries@.len(), |i: int| entries@[i].0),
        r.1@ == Seq::new(entries@.len(), |i: int| entries@[i].1),
{
    let mut indexes: Vec<usize> = Vec::new();
    let mut items: Vec<T> = Vec::new();
    for entry in iter: entries
        invariant
            iter.seq() == entries@,
            indexes.len() == iter.index(),
            items.len() == iter.index(),
            forall|i: int| 0 <= i < indexes.len() ==> #[trigger] indexes@[i] == entries@[i].0,
            forall|i: int| 0 <= i < items.len() ==> #[trigger] items@[i] == entries@[i].1,
    {
        indexes.push(entry.0);
        items.push(entry.1);
    }
    assert(indexes@ =~= Seq::new(entries@.len(), |i: int| entries@[i].0));
    assert(items@ =~= Seq::new(entries@.len(), |i: int| entries@[i].1));
    (indexes, items)
}

/// What a batch asks of a node.
#[derive(Debug, Clone, Copy, PartialEq, Eq)]
pub enum BatchKind {
    Get,
    Put,
}

/// The message for a node that answers a batch of `wanted` items with `got` results.
pub open spec fn miscount_text(
    kind: BatchKind,
    node_id: Seq<char>,
    got: nat,
    wanted: nat,
) -> Seq<char> {
    match kind {
        BatchKind::Get => "metadata owner "@ + node_id + " returned "@ + decimal(got)
            + " get results for "@ + decimal(wanted) + " keys"@,
        BatchKind::Put => "metadata owner "@ + node_id + " returned "@ + decimal(got)
            + " put results for "@ + decimal(wanted) + " items"@,
    }
}

fn miscount(kind: BatchKind, node_id: &str, got: usize, wanted: usize) -> (r: Status)
    ensures
        r.deep_view() == error(
            Code::Internal,
            miscount_text(kind, node_id@, got as nat, wanted as nat),
        ),
{
    let mut message = "metadata owner ".to_string();
    message.append(node_id);
    message.append(" returned ");
    push_decimal(&mut message, got as u64);
    match kind {
        BatchKind::Get => {
            message.append(" get results for ");
            push_decimal(&mut message, wanted as u64);
            message.append(" keys");
        },
        BatchKind::Put => {
            message.append(" put results for ");
            push_decimal(&mut message, wanted as u64);
            message.append(" items");
        },
    }
    Status { code: Code::Internal, message }
}

/// Whether a node's answers `values` for the items at `indexes` take the answers `before` to
/// `after`, with the result `r`.
pub open spec fn is_accepted_group<T>(
    kind: BatchKind,
    before: Seq<T>,
    node_id: Seq<char>,
    indexes: Seq<usize>,
    values: Seq<T>,
    after: Seq<T>,
    r: Result<(), Status>,
) -> bool {
    &&& r is Ok <==> values.len() == indexes.len()
    &&& match r {
        Ok(_) => after == placed_all(before, indexes, values),
        Err(e) => after == before && e.deep_view() == error(
            Code::Internal,
            miscount_text(kind, node_id, values.len(), indexes.len()),
        ),
    }
}

/// Puts what a node has answered where it belongs. A node that does not answer for each item
/// fails the batch.
pub fn accept_group<T>(
    kind: BatchKind,
    slots: &mut Vec<T>,
    node_id: &str,
    indexes: &Vec<usize>,
    values: Vec<T>,
) -> (r: Result<(), Status>)
    requires
        forall|j: int| 0 <= j < indexes.len() ==> (#[trigger] indexes@[j]) < old(slots).len(),
    ensures
        final(slots).len() == old(slots).len(),
        is_accepted_group(kind, old(slots)@, node_id@, indexes@, values@, final(slots)@, r),
{
    if values.len() != indexes.len() {
        return Err(miscount(kind, node_id, values.len(), indexes.len()));
    }
    place(slots, indexes, values);
    Ok(())
}

/// The answers to a batch before any node has answered.
pub fn unanswered(total: usize) -> (slots: Vec<Option<GetResponse>>)
    ensures
        slots@ == Seq::new(total as nat, |i: int| None::<GetResponse>),
{
    let mut slots: Vec<Option<GetResponse>> = Vec::new();
    while slots.len() < total
        invariant
            slots.len() <= total,
            forall|i: int| 0 <= i < slots.len() ==> #[trigger] slots@[i] == None::<GetResponse>,
        decreases total - slots.len(),
    {
        slots.push(None);
    }
    assert(slots@ =~= Seq::new(total as nat, |i: int| None::<GetResponse>));
    slots
}

/// The answers of another node, ready to be placed.
pub fn answers(results: Vec<GetResponse>) -> (r: Vec<Option<GetResponse>>)
    ensures
        r@ == Seq::new(results@.len(), |i: int| Some(results@[i])),
{
    let mut out: Vec<Option<GetResponse>> = Vec::new();
    for result in iter: results
        invariant
            iter.seq() == results@,
            out.len() == iter.index(),
            forall|i: int| 0 <= i < out.len() ==> #[trigger] out@[i] == Some(results@[i]),
    {
        out.push(Some(result));
    }
    assert(out@ =~= Seq::new(results@.len(), |i: int| Some(results@[i])));
    out
}

/// The answer for one read of a batch on this node.
pub open spec fn local_answer<E>(result: Result<Option<(Bytes, BlockMeta)>, E>) -> GetResponseView {
    match result {
        Ok(Some((data, meta))) => present_object(bytes_of(data), meta.deep_view()),
        _ => absent_object(),
    }
}

/// The answers of this node to reads with `results`.
pub open spec fn answered_slots<E>(results: Seq<Result<Option<(Bytes, BlockMeta)>, E>>) -> Seq<
    Option<GetResponseView>,
> {
    Seq::new(results.len(), |i: int| Some(local_answer(results[i])))
}

/// The answers of this node, ready to be placed. A read that failed counts as an object that
/// does not exist.
pub fn local_answers<E>(results: Vec<Result<Option<(Bytes, BlockMeta)>, E>>) -> (r: Vec<
    Option<GetResponse>,
>)
    ensures
        r.deep_view() == answered_slots(results@),
{
    let mut out: Vec<Option<GetResponse>> = Vec::new();
    for result in iter: results
        invariant
            iter.seq() == results@,
            out.len() == iter.index(),
            forall|i: int|
                0 <= i < out.len() ==> (#[trigger] out@[i]).deep_view() == Some(
                    local_answer(results@[i]),
                ),
    {
        out.push(Some(memory_get_result_to_pb(result)));
    }
    assert(out.deep_view() =~= answered_slots(results@));
    out
}

/// The answers in `slots`, where an empty one stands for an object that does not exist.
pub open spec fn filled_slots(slots: Seq<Option<GetResponseView>>) -> Seq<GetResponseView> {
    Seq::new(
        slots.len(),
        |i: int|
            match slots[i] {
                Some(answer) => answer,
                None => absent_object(),
            },
    )
}

/// The answer to a batch. A key without an answer counts as an object that does not exist.
pub fn finish_get_batch(slots: Vec<Option<GetResponse>>) -> (r: GetBatchResponse)
    ensures
        r.deep_view().results == filled_slots(slots.deep_view()),
{
    let ghost expected = filled_slots(slots.deep_view());
    let mut results: Vec<GetResponse> = Vec::new();
    for slot in iter: slots
        invariant
            iter.seq() == slots@,
            expected == filled_slots(slots.deep_view()),
            results.len() == iter.index(),
            forall|i: int|
                0 <= i < results.len() ==> (#[trigger] results@[i]).deep_view() == expected[i],
    {
        assert(slots.deep_view()[results.len() as int] == slot.deep_view());
        match slot {
            Some(answer) => {
                results.push(answer);
            },
            None => {
                results.push(missing_get_response());
            },
        }
    }
    let r = GetBatchResponse { results };
    assert(r.deep_view().results =~= expected);
    r
}

/// The outcomes of a batch before any node has answered.
pub fn no_successes(total: usize) -> (slots: Vec<bool>)
    ensures
        slots@ == Seq::new(total as nat, |i: int| false),
{
    let mut slots: Vec<bool> = Vec::new();
    while slots.len() < total
        invariant
            slots.len() <= total,
            forall|i: int| 0 <= i < slots.len() ==> #[trigger] slots@[i] == false,
        decreases total - slots.len(),
    {
        slots.push(false);
    }
    assert(slots@ =~= Seq::new(total as nat, |i: int| false));
    slots
}

/// How the writes of a batch that belong to this node are done: one by one, or together.
pub enum LocalWrites {
    OneByOne { writes: Vec<LocalPut> },
    Together { items: Vec<(InternalKey, Bytes, BlockMeta)> },
}

/// Whether `indexes` and `writes` are the writes `local` of a batch, taken apart.
pub open spec fn are_local_writes(
    has_if_not_exists: bool,
    local: Vec<LocalPut>,
    indexes: Vec<usize>,
    writes: LocalWrites,
) -> bool {
    &&& indexes@ == Seq::new(local@.len(), |i: int| local@[i].index)
    &&& match writes {
        LocalWrites::OneByOne { writes } => has_if_not_exists && writes == local,
        LocalWrites::Together { items } => !has_if_not_exists && items@ == Seq::new(
            local@.len(),
            |i: int| (local@[i].key, local@[i].data, local@[i].meta),
        ),
    }
}

/// Takes the writes of a batch that belong to this node apart: their indices, and the writes,
/// which are done one by one where `has_if_not_exists`, and together otherwise.
pub fn split_local_puts(has_if_not_exists: bool, local: Vec<LocalPut>) -> (r: (
    Vec<usize>,
    LocalWrites,
))
    ensures
        are_local_writes(has_if_not_exists, local, r.0, r.1),
{
    let mut indexes: Vec<usize> = Vec::new();
    let mut i: usize = 0;
    while i < local.len()
        invariant
            i <= local.len(),
            indexes.len() == i,
            forall|j: int| 0 <= j < i ==> #[trigger] indexes@[j] == local@[j].index,
        decreases local.len() - i,
    {
        indexes.push(local[i].index);
        i = i + 1;
    }
    assert(indexes@ =~= Seq::new(local@.len(), |i: int| local@[i].index));
    if has_if_not_exists {
        return (indexes, LocalWrites::OneByOne { writes: local });
    }
    let mut items: Vec<(InternalKey, Bytes, BlockMeta)> = Vec::new();
    for put in iter: local
        invariant
            iter.seq() == local@,
            items.len() == iter.index(),
            forall|j: int|
                0 <= j < items.len() ==> #[trigger] items@[j] == (
                    local@[j].key,
                    local@[j].data,
                    local@[j].meta,
                ),
    {
        items.push((put.key, put.data, put.meta));
    }
    assert(items@ =~= Seq::new(
        local@.len(),
        |i: int| (local@[i].key, local@[i].data, local@[i].meta),
    ));
    (indexes, LocalWrites::Together { items })
}

/// The outcomes of writes that were done one by one with `results`.
pub open spec fn single_outcomes<E>(results: Seq<Result<bool, E>>) -> Seq<bool> {
    Seq::new(results.len(), |i: int| results[i] == Ok::<bool, E>(true))
}

/// The outcomes of writes that were done together with `results`.
pub open spec fn joint_outcomes<E>(results: Seq<Result<(), E>>) -> Seq<bool> {
    Seq::new(results.len(), |i: int| results[i] is Ok)
}

/// The outcomes of writes that were done one by one: a write that failed, or that found an
/// object that it had to leave, did not succeed.
pub fn single_put_outcomes<E>(results: Vec<Result<bool, E>>) -> (r: Vec<bool>)
    ensures
        r@ == single_outcomes(results@),
{
    let mut out: Vec<bool> = Vec::new();
    for result in iter: results
        invariant
            iter.seq() == results@,
            out.len() == iter.index(),
            forall|i: int|
                0 <= i < out.len() ==> #[trigger] out@[i] == (results@[i] == Ok::<bool, E>(true)),
    {
        let ok = match result {
            Ok(inserted) => inserted,
            Err(_) => false,
        };
        out.push(ok);
    }
    assert(out@ =~= Seq::new(results@.len(), |i: int| results@[i] == Ok::<bool, E>(true)));
    out
}

/// The outcomes of writes that were done together: a write that failed did not succeed.
pub fn joint_put_outcomes<E>(results: Vec<Result<(), E>>) -> (r: Vec<bool>)
    ensures
        r@ == joint_outcomes(results@),
{
    let mut out: Vec<bool> = Vec::new();
    for result in iter: results
        invariant
            iter.seq() == results@,
            out.len() == iter.index(),
            forall|i: int| 0 <= i < out.len() ==> #[trigger] out@[i] == (results@[i] is Ok),
    {
        out.push(result.is_ok());
    }
    assert(out@ =~= Seq::new(results@.len(), |i: int| results@[i] is Ok));
    out
}

/// This node takes exactly the objects that belong to it, each one once and in order.
pub proof fn local_part_is_exact(
    ctx: KVServiceContextView,
    env: NodeEnvView,
    owners: Seq<DataNodeView>,
)
    requires
        owners.len() <= usize::MAX,
    ensures
        ({
            let indexes = local_indexes(ctx, env, owners);
            &&& forall|j: int|
                0 <= j < indexes.len() ==> (#[trigger] indexes[j]) < owners.len() && is_this_node(
                    ctx,
                    env,
                    owners[indexes[j] as int],
                )
            &&& forall|j: int, k: int|
                0 <= j < k < indexes.len() ==> (#[trigger] indexes[j]) < (#[trigger] indexes[k])
            &&& forall|i: int|
                0 <= i < owners.len() && is_this_node(ctx, env, #[trigger] owners[i])
                    ==> indexes.contains(i as usize)
        }),
    decreases owners.len(),
{
    if owners.len() > 0 {
        let before = local_indexes(ctx, env, owners.drop_last());
        let indexes = local_indexes(ctx, env, owners);
        local_part_is_exact(ctx, env, owners.drop_last());
        let last = owners.len() - 1;
        assert forall|j: int| 0 <= j < indexes.len() implies (#[trigger] indexes[j]) < owners.len()
            && is_this_node(ctx, env, owners[indexes[j] as int]) by {
            if j < before.len() {
                assert(indexes[j] == before[j]);
                assert(owners.drop_last()[before[j] as int] == owners[before[j] as int]);
            }
        }
        assert forall|i: int|
            0 <= i < owners.len() && is_this_node(
                ctx,
                env,
                #[trigger] owners[i],
            ) implies indexes.contains(i as usize) by {
            if i < last {
                assert(owners.drop_last()[i] == owners[i]);
                assert(before.contains(i as usize));
                let j = choose|j: int| 0 <= j < before.len() && before[j] == i as usize;
                assert(indexes[j] == i as usize);
            } else {
                assert(indexes[indexes.len() - 1] == i as usize);
            }
        }
    }
}

/// Whether some group holds the item `entry`.
pub open spec fn groups_hold<T>(groups: Seq<(DataNodeView, Seq<T>)>, entry: T) -> bool {
    exists|g: int, p: int|
        0 <= g < groups.len() && 0 <= p < groups[g].1.len() && #[trigger] groups[g].1[p] == entry
}

/// Whether the groups hold exactly those of the first `n` items that do not belong to this
/// node, each one in the group of its owner and in order, and no node has two groups.
pub open spec fn shares_out<T>(
    ctx: KVServiceContextView,
    env: NodeEnvView,
    owners: Seq<DataNodeView>,
    items: Seq<T>,
    groups: Seq<(DataNodeView, Seq<(usize, T)>)>,
) -> bool {
    &&& forall|g: int, h: int|
        0 <= g < h < groups.len() ==> (#[trigger] groups[g]).0 != (#[trigger] groups[h]).0
    &&& forall|g: int, p: int|
        0 <= g < groups.len() && 0 <= p < groups[g].1.len() ==> {
            let entry = #[trigger] groups[g].1[p];
            &&& entry.0 < items.len()
            &&& entry.1 == items[entry.0 as int]
            &&& groups[g].0 == owners[entry.0 as int]
            &&& !is_this_node(ctx, env, owners[entry.0 as int])
        }
    &&& forall|g: int, p: int, q: int|
        0 <= g < groups.len() && 0 <= p < q < groups[g].1.len() ==> (
        #[trigger] groups[g].1[p]).0 < (#[trigger] groups[g].1[q]).0
    &&& forall|i: int|
        0 <= i < items.len() && !is_this_node(ctx, env, #[trigger] owners[i]) ==> groups_hold(
            groups,
            (i as usize, items[i]),
        )
}

proof fn lemma_with_item_shares_out<T>(
    ctx: KVServiceContextView,
    env: NodeEnvView,
    owners: Seq<DataNodeView>,
    items: Seq<T>,
    before: Seq<(DataNodeView, Seq<(usize, T)>)>,
)
    requires
        0 < items.len() <= owners.len(),
        items.len() <= usize::MAX,
        shares_out(ctx, env, owners, items.drop_last(), before),
        !is_this_node(ctx, env, owners[items.len() - 1]),
    ensures
        shares_out(
            ctx,
            env,
            owners,
            items,
            with_item(
                before,
                owners[items.len() - 1],
                ((items.len() - 1) as usize, items[items.len() - 1]),
            ),
        ),
{
    let n = items.len() - 1;
    let node = owners[n];
    let entry = (n as usize, items[n]);
    let after = with_item(before, node, entry);
    let found = exists|i: int| is_first_group(before, node, i);
    let at = if found {
        choose|i: int| is_first_group(before, node, i)
    } else {
        before.len() as int
    };
    let old_items = items.drop_last();
    if found {
        assert(is_first_group(before, node, at));
    }
    assert forall|g: int, h: int| 0 <= g < h < after.len() implies (#[trigger] after[g]).0 != (
    #[trigger] after[h]).0 by {
        if !found && h == before.len() {
            if before[g].0 == node {
                lemma_first_group_exists(before, node, g);
            }
        } else {
            assert(after[g].0 == before[g].0);
            assert(after[h].0 == before[h].0);
        }
    }
    assert forall|g: int, p: int| 0 <= g < after.len() && 0 <= p < after[g].1.len() implies ({
        let e = #[trigger] after[g].1[p];
        &&& e.0 < items.len()
        &&& e.1 == items[e.0 as int]
        &&& after[g].0 == owners[e.0 as int]
        &&& !is_this_node(ctx, env, owners[e.0 as int])
    }) by {
        let e = after[g].1[p];
        if g < before.len() && p < before[g].1.len() {
            assert(e == before[g].1[p]);
            assert(old_items[e.0 as int] == items[e.0 as int]);
        } else {
            assert(g == at);
            assert(e == entry);
        }
    }
    assert forall|g: int, p: int, q: int|
        0 <= g < after.len() && 0 <= p < q < after[g].1.len() implies (
    #[trigger] after[g].1[p]).0 < (#[trigger] after[g].1[q]).0 by {
        if g < before.len() {
            assert(after[g].1[p] == before[g].1[p]);
            assert(before[g].1[p].0 < old_items.len());
            if q < before[g].1.len() {
                assert(after[g].1[q] == before[g].1[q]);
            }
        }
    }
    assert forall|i: int|
        0 <= i < items.len() && !is_this_node(ctx, env, #[trigger] owners[i]) implies groups_hold(
        after,
        (i as usize, items[i]),
    ) by {
        if i < n {
            assert(old_items[i] == items[i]);
            assert(groups_hold(before, (i as usize, items[i])));
            let (g, p) = choose|g: int, p: int|
                0 <= g < before.len() && 0 <= p < before[g].1.len() && #[trigger] before[g].1[p]
                    == (i as usize, items[i]);
            assert(after[g].1[p] == before[g].1[p]);
        } else {
            assert(after[at].1[after[at].1.len() - 1] == entry);
        }
    }
}

proof fn lemma_first_group_exists<T>(
    groups: Seq<(DataNodeView, Seq<T>)>,
    node: DataNodeView,
    g: int,
)
    requires
        0 <= g < groups.len(),
        groups[g].0 == node,
    ensures
        exists|i: int| is_first_group(groups, node, i),
    decreases g,
{
    if exists|j: int| 0 <= j < g && (#[trigger] groups[j]).0 == node {
        let j = choose|j: int| 0 <= j < g && (#[trigger] groups[j]).0 == node;
        lemma_first_group_exists(groups, node, j);
    } else {
        assert(is_first_group(groups, node, g));
    }
}

/// The other nodes get exactly the items that do not belong to this node: each one goes to its
/// owner, with its index, in order, and no node is asked twice.
pub proof fn remote_part_is_exact<T>(
    ctx: KVServiceContextView,
    env: NodeEnvView,
    owners: Seq<DataNodeView>,
    items: Seq<T>,
)
    requires
        items.len() <= owners.len(),
        items.len() <= usize::MAX,
    ensures
        shares_out(ctx, env, owners, items, remote_groups(ctx, env, owners, items)),
    decreases items.len(),
{
    if items.len() > 0 {
        let before = remote_groups(ctx, env, owners, items.drop_last());
        let n = items.len() - 1;
        remote_part_is_exact(ctx, env, owners, items.drop_last());
        if is_this_node(ctx, env, owners[n]) {
            assert forall|g: int, p: int|
                0 <= g < before.len() && 0 <= p < before[g].1.len() implies ({
                let e = #[trigger] before[g].1[p];
                &&& e.0 < items.len()
                &&& e.1 == items[e.0 as int]
                &&& before[g].0 == owners[e.0 as int]
                &&& !is_this_node(ctx, env, owners[e.0 as int])
            }) by {
                let e = before[g].1[p];
                assert(items.drop_last()[e.0 as int] == items[e.0 as int]);
            }
            assert forall|i: int|
                0 <= i < items.len() && !is_this_node(
                    ctx,
                    env,
                    #[trigger] owners[i],
                ) implies groups_hold(before, (i as usize, items[i])) by {
                assert(items.drop_last()[i] == items[i]);
            }
        } else {
            lemma_with_item_shares_out(ctx, env, owners, items, before);
        }
    }
}

proof fn lemma_placed<T>(
    slots: Seq<T>,
    indexes: Seq<usize>,
    values: Seq<T>,
    n: nat,
    expected: Seq<T>,
)
    requires
        n <= indexes.len(),
        n <= values.len(),
        slots.len() == expected.len(),
        forall|j: int|
            0 <= j < n ==> (#[trigger] indexes[j]) < slots.len() && values[j]
                == expected[indexes[j] as int],
    ensures
        placed(slots, indexes, values, n).len() == slots.len(),
        forall|k: int|
            0 <= k < slots.len() ==> (#[trigger] placed(slots, indexes, values, n)[k])
                == expected[k] || placed(slots, indexes, values, n)[k] == slots[k],
        forall|j: int|
            0 <= j < n ==> placed(slots, indexes, values, n)[(#[trigger] indexes[j]) as int]
                == expected[indexes[j] as int],
    decreases n,
{
    if n > 0 {
        lemma_placed(slots, indexes, values, (n - 1) as nat, expected);
    }
}

/// The indices of the items of a group.
pub open spec fn entry_indexes<T>(entries: Seq<(usize, T)>) -> Seq<usize> {
    Seq::new(entries.len(), |i: int| entries[i].0)
}

/// The answers `slots` once the first `n` groups have answered.
pub open spec fn placed_groups<T, U>(
    slots: Seq<U>,
    groups: Seq<(DataNodeView, Seq<(usize, T)>)>,
    answers: Seq<Seq<U>>,
    n: nat,
) -> Seq<U>
    decreases n,
{
    if n == 0 {
        slots
    } else {
        placed_all(
            placed_groups(slots, groups, answers, (n - 1) as nat),
            entry_indexes(groups[n - 1].1),
            answers[n - 1],
        )
    }
}

proof fn lemma_placed_groups<T, U>(
    slots: Seq<U>,
    groups: Seq<(DataNodeView, Seq<(usize, T)>)>,
    answers: Seq<Seq<U>>,
    n: nat,
    expected: Seq<U>,
)
    requires
        n <= groups.len() == answers.len(),
        slots.len() == expected.len(),
        forall|g: int|
            0 <= g < groups.len() ==> (#[trigger] answers[g]).len() == groups[g].1.len(),
        forall|g: int, p: int|
            0 <= g < groups.len() && 0 <= p < groups[g].1.len() ==> (
            #[trigger] groups[g].1[p]).0 < slots.len() && answers[g][p]
                == expected[groups[g].1[p].0 as int],
    ensures
        placed_groups(slots, groups, answers, n).len() == slots.len(),
        forall|k: int|
            0 <= k < slots.len() ==> (#[trigger] placed_groups(slots, groups, answers, n)[k])
                == expected[k] || placed_groups(slots, groups, answers, n)[k] == slots[k],
        forall|g: int, p: int|
            0 <= g < n && 0 <= p < groups[g].1.len() ==> placed_groups(
                slots,
                groups,
                answers,
                n,
            )[(#[trigger] groups[g].1[p]).0 as int] == expected[groups[g].1[p].0 as int],
    decreases n,
{
    if n > 0 {
        let m = (n - 1) as nat;
        lemma_placed_groups(slots, groups, answers, m, expected);
        let before = placed_groups(slots, groups, answers, m);
        let entries = groups[n - 1].1;
        let indexes = entry_indexes(entries);
        assert(answers[n - 1].len() == entries.len());
        assert forall|j: int| 0 <= j < indexes.len() implies (#[trigger] indexes[j])
            < before.len() && answers[n - 1][j] == expected[indexes[j] as int] by {
            assert(groups[n - 1].1[j].0 == indexes[j]);
        }
        lemma_placed(before, indexes, answers[n - 1], indexes.len(), expected);
        let after = placed_groups(slots, groups, answers, n);
        assert forall|g: int, p: int| 0 <= g < n && 0 <= p < groups[g].1.len() implies after[(
        #[trigger] groups[g].1[p]).0 as int] == expected[groups[g].1[p].0 as int] by {
            if g == n - 1 {
                assert(indexes[p] == groups[g].1[p].0);
            } else {
                let k = groups[g].1[p].0 as int;
                assert(before[k] == expected[k]);
                assert(after[k] == expected[k] || after[k] == before[k]);
            }
        }
    }
}

/// A batch is answered in the order in which it was asked: where this node and each other node
/// answer for item `i` with `expected[i]`, the batch is answered with `expected`.
pub proof fn batch_is_answered_in_order<T, U>(
    ctx: KVServiceContextView,
    env: NodeEnvView,
    owners: Seq<DataNodeView>,
    items: Seq<T>,
    slots: Seq<U>,
    local: Seq<U>,
    answers: Seq<Seq<U>>,
    expected: Seq<U>,
)
    requires
        items.len() == owners.len() == slots.len() == expected.len(),
        items.len() <= usize::MAX,
        ({
            let indexes = local_indexes(ctx, env, owners);
            &&& local.len() == indexes.len()
            &&& forall|j: int|
                0 <= j < indexes.len() ==> local[j] == expected[(#[trigger] indexes[j]) as int]
        }),
        ({
            let groups = remote_groups(ctx, env, owners, items);
            &&& answers.len() == groups.len()
            &&& forall|g: int|
                0 <= g < groups.len() ==> (#[trigger] answers[g]).len() == groups[g].1.len()
            &&& forall|g: int, p: int|
                0 <= g < groups.len() && 0 <= p < groups[g].1.len() ==> answers[g][p] == expected[(
                #[trigger] groups[g].1[p]).0 as int]
        }),
    ensures
        placed_groups(
            placed_all(slots, local_indexes(ctx, env, owners), local),
            remote_groups(ctx, env, owners, items),
            answers,
            answers.len(),
        ) == expected,
{
    let indexes = local_indexes(ctx, env, owners);
    let groups = remote_groups(ctx, env, owners, items);
    local_part_is_exact(ctx, env, owners);
    remote_part_is_exact(ctx, env, owners, items);
    lemma_placed(slots, indexes, local, indexes.len(), expected);
    let first = placed_all(slots, indexes, local);
    assert forall|g: int, p: int| 0 <= g < groups.len() && 0 <= p < groups[g].1.len() implies (
    #[trigger] groups[g].1[p]).0 < first.len() && answers[g][p]
        == expected[groups[g].1[p].0 as int] by {}
    lemma_placed_groups(first, groups, answers, answers.len(), expected);
    let result = placed_groups(first, groups, answers, answers.len());
    assert forall|i: int| 0 <= i < expected.len() implies result[i] == expected[i] by {
        if is_this_node(ctx, env, owners[i]) {
            assert(indexes.contains(i as usize));
            let j = choose|j: int| 0 <= j < indexes.len() && indexes[j] == i as usize;
            assert(first[indexes[j] as int] == expected[i]);
        } else {
            assert(groups_hold(groups, (i as usize, items[i])));
            let (g, p) = choose|g: int, p: int|
                0 <= g < groups.len() && 0 <= p < groups[g].1.len() && #[trigger] groups[g].1[p]
                    == (i as usize, items[i]);
            assert(result[groups[g].1[p].0 as int] == expected[i]);
        }
    }
    assert(result =~= expected);
}

} // verus!
