//! The course of a spread write: what comes after what, from the lock to the record.
use crate::model::{
    BlockMeta, ChunkLocation, DataNodeView, InternalKey, KVServiceContext, KVServiceContextView,
    NodeEnv, NodeEnvView,
};
use crate::order::{
    all_ok, is_first_error, ok_values, results_are_good_or_fail, stripe_sorted, Striped,
};
use crate::payload::{bytes_of, bytes_of_each, joined};
use crate::placement::chunks_of;
use crate::stripes::{
    commit_distributed_write, is_planned_write, location_views, ordered_stripes_are_one_for_each,
    plan_distributed_write, recorded_object_is_read_back, stripe_buffers, stripe_bytes,
    stripe_size, striped_record, DistributedWrite,
};
use prost::bytes::Bytes;
use vstd::prelude::*;

verus! {

/// What a spread write waits for.
pub enum WriteStage {
    /// For the lock on the object.
    Lock { meta: BlockMeta },
    /// For the word whether the object exists.
    Existence { meta: BlockMeta },
    /// For the record that the storage tier prepares.
    Preparation,
    /// For the nodes that store the stripes.
    Stripes { prepared: BlockMeta, chunk_size: u64, total_size: u64 },
    /// For the object to be dropped from the cache, before `record` is stored.
    Cache { record: BlockMeta },
    /// For the record to be stored.
    Record,
    /// For nothing: it is over.
    Done,
}

/// What has happened. `E` is the error of a call that failed.
pub enum WriteEvent<E> {
    /// The lock is held.
    Locked,
    /// Whether the object exists is known.
    Existing(Result<bool, E>),
    /// The storage tier has prepared a record.
    Prepared(Result<BlockMeta, E>),
    /// Every node has answered, in the order of the stripes that were sent out.
    Stored(Vec<Result<ChunkLocation, E>>),
    /// The object is no longer in the cache.
    Dropped,
    /// The record is stored.
    Recorded(Result<(), E>),
}

/// What is to be done next.
pub enum WriteAction<E> {
    /// Wait for the lock on the object, and hold it to the end.
    TakeLock,
    /// Look whether the object exists.
    LookUp,
    /// Have a record prepared for an object of `total` bytes.
    Prepare { meta: BlockMeta, total: u64 },
    /// Store the stripes.
    Store(DistributedWrite),
    /// Drop the object from the cache.
    DropCached,
    /// Store the record.
    Commit { record: BlockMeta },
    /// Answer whether the object was stored.
    Finish(Result<bool, E>),
}

/// A spread write on its way.
pub struct SpreadWrite {
    pub key: InternalKey,
    pub str_key: String,
    pub data: Bytes,
    pub if_not_exists: bool,
    pub stage: WriteStage,
}

/// Whether a write in the stage `stage` waits for `event`.
pub open spec fn awaits<E>(stage: WriteStage, event: WriteEvent<E>) -> bool {
    match stage {
        WriteStage::Lock { .. } => event is Locked,
        WriteStage::Existence { .. } => event is Existing,
        WriteStage::Preparation => event is Prepared,
        WriteStage::Stripes { .. } => event is Stored,
        WriteStage::Cache { .. } => event is Dropped,
        WriteStage::Record => event is Recorded,
        WriteStage::Done => false,
    }
}

/// Whether `event` takes the write `from` to the write `to` with the next action `action`.
pub open spec fn write_goes_on<E>(
    ctx: KVServiceContextView,
    env: NodeEnvView,
    from: SpreadWrite,
    event: WriteEvent<E>,
    to: SpreadWrite,
    action: WriteAction<E>,
) -> bool {
    let total = bytes_of(from.data).len();
    &&& awaits(from.stage, event)
    &&& to == (SpreadWrite { stage: to.stage, ..from })
    &&& match (from.stage, event) {
        (WriteStage::Lock { meta }, _) => if from.if_not_exists {
            to.stage == (WriteStage::Existence { meta }) && action is LookUp
        } else {
            to.stage is Preparation && action == (WriteAction::<E>::Prepare {
                meta,
                total: total as u64,
            })
        },
        (WriteStage::Existence { meta }, WriteEvent::Existing(exists)) => match exists {
            Ok(true) => to.stage is Done && action == WriteAction::<E>::Finish(Ok(false)),
            Ok(false) => to.stage is Preparation && action == (WriteAction::<E>::Prepare {
                meta,
                total: total as u64,
            }),
            Err(e) => to.stage is Done && action == WriteAction::<E>::Finish(Err(e)),
        },
        (WriteStage::Preparation, WriteEvent::Prepared(prepared)) => match prepared {
            Ok(p) => {
                &&& to.stage == (WriteStage::Stripes {
                    prepared: p,
                    chunk_size: stripe_size(ctx) as u64,
                    total_size: total as u64,
                })
                &&& action matches WriteAction::Store(write)
                &&& is_planned_write(
                    ctx,
                    env,
                    from.key.deep_view(),
                    from.str_key@,
                    p.deep_view(),
                    bytes_of(from.data),
                    write,
                )
            },
            Err(e) => to.stage is Done && action == WriteAction::<E>::Finish(Err(e)),
        },
        (
            WriteStage::Stripes { prepared, chunk_size, total_size },
            WriteEvent::Stored(results),
        ) => if all_ok(results@) {
            &&& to.stage matches WriteStage::Cache { record }
            &&& record.deep_view() == striped_record(
                prepared.deep_view(),
                total_size,
                chunk_size,
                location_views(stripe_sorted(ok_values(results@))),
            )
            &&& action is DropCached
        } else {
            &&& to.stage is Done
            &&& action matches WriteAction::Finish(Err(e))
            &&& is_first_error(results@, e)
        },
        (WriteStage::Cache { record }, _) => {
            &&& to.stage is Record
            &&& action == (WriteAction::<E>::Commit { record })
        },
        (WriteStage::Record, WriteEvent::Recorded(recorded)) => {
            &&& to.stage is Done
            &&& action == WriteAction::<E>::Finish(
                match recorded {
                    Ok(_) => Ok(true),
                    Err(e) => Err(e),
                },
            )
        },
        _ => false,
    }
}

impl SpreadWrite {
    /// A write that has not begun: it waits for the lock. `str_key` is the string form of
    /// `key`.
    pub fn new(
        key: InternalKey,
        str_key: String,
        data: Bytes,
        meta: BlockMeta,
        if_not_exists: bool,
    ) -> (r: Self)
        ensures
            r == (SpreadWrite {
                key,
                str_key,
                data,
                if_not_exists,
                stage: WriteStage::Lock { meta },
            }),
    {
        SpreadWrite { key, str_key, data, if_not_exists, stage: WriteStage::Lock { meta } }
    }

    /// Begins a write, and tells what is to be done first: nothing is done without the lock.
    pub fn start<E>(
        key: InternalKey,
        str_key: String,
        data: Bytes,
        meta: BlockMeta,
        if_not_exists: bool,
    ) -> (r: (Self, WriteAction<E>))
        ensures
            r.0 == (SpreadWrite {
                key,
                str_key,
                data,
                if_not_exists,
                stage: WriteStage::Lock { meta },
            }),
            r.1 is TakeLock,
    {
        (SpreadWrite::new(key, str_key, data, meta, if_not_exists), WriteAction::TakeLock)
    }

    /// Goes on once `event` has happened, and tells what is to be done next.
    pub fn step<E>(self, ctx: &KVServiceContext, env: &NodeEnv, event: WriteEvent<E>) -> (r: (
        Self,
        WriteAction<E>,
    ))
        requires
            awaits(self.stage, event),
            ctx.storage.striping_chunk_size <= usize::MAX,
        ensures
            write_goes_on(ctx.deep_view(), env.deep_view(), self, event, r.0, r.1),
    {
        let SpreadWrite { key, str_key, data, if_not_exists, stage } = self;
        let total: u64 = data.len() as u64;
        let (stage, action) = match (stage, event) {
            (WriteStage::Lock { meta }, WriteEvent::Locked) => if if_not_exists {
                (WriteStage::Existence { meta }, WriteAction::LookUp)
            } else {
                (WriteStage::Preparation, WriteAction::Prepare { meta, total })
            },
            (WriteStage::Existence { meta }, WriteEvent::Existing(exists)) => match exists {
                Ok(true) => (WriteStage::Done, WriteAction::Finish(Ok(false))),
                Ok(false) => (WriteStage::Preparation, WriteAction::Prepare { meta, total }),
                Err(e) => (WriteStage::Done, WriteAction::Finish(Err(e))),
            },
            (WriteStage::Preparation, WriteEvent::Prepared(Ok(prepared))) => {
                let write = plan_distributed_write(
                    ctx,
                    env,
                    &key,
                    str_key.as_str(),
                    &prepared,
                    &data,
                );
                let stage = WriteStage::Stripes {
                    prepared,
                    chunk_size: write.chunk_size,
                    total_size: write.total_size,
                };
                (stage, WriteAction::Store(write))
            },
            (
                WriteStage::Stripes { prepared, chunk_size, total_size },
                WriteEvent::Stored(results),
            ) => {
                proof {
                    assert forall|e: E| #[trigger] is_first_error(results@, e) implies !all_ok(
                        results@,
                    ) by {
                        results_are_good_or_fail(results@, e);
                    }
                }
                match commit_distributed_write(prepared, total_size, chunk_size, results) {
                    Ok(record) => (WriteStage::Cache { record }, WriteAction::DropCached),
                    Err(e) => (WriteStage::Done, WriteAction::Finish(Err(e))),
                }
            },
            (WriteStage::Cache { record }, WriteEvent::Dropped) => (
                WriteStage::Record,
                WriteAction::Commit { record },
            ),
            (WriteStage::Record, WriteEvent::Recorded(Ok(_))) => (
                WriteStage::Done,
                WriteAction::Finish(Ok(true)),
            ),
            (_, WriteEvent::Prepared(Err(e))) => (WriteStage::Done, WriteAction::Finish(Err(e))),
            (_, WriteEvent::Recorded(Err(e))) => (WriteStage::Done, WriteAction::Finish(Err(e))),
            _ => (WriteStage::Done, WriteAction::Finish(Ok(false))),
        };
        (SpreadWrite { key, str_key, data, if_not_exists, stage }, action)
    }
}

/// The record of an object is stored only after each of its stripes is, and after the object
/// has left the cache: a write that drops the object from the cache has stored every stripe,
/// and a write that stores the record was waiting for nothing but the cache, with that record.
pub proof fn record_follows_the_stripes<E>(
    ctx: KVServiceContextView,
    env: NodeEnvView,
    from: SpreadWrite,
    event: WriteEvent<E>,
    to: SpreadWrite,
    action: WriteAction<E>,
)
    requires
        write_goes_on(ctx, env, from, event, to, action),
    ensures
        action is DropCached <==> to.stage is Cache,
        action is DropCached ==> from.stage is Stripes && (event matches WriteEvent::Stored(results)
            && all_ok(results@)),
        action matches WriteAction::Commit { record } ==> from.stage == (WriteStage::Cache {
            record,
        }) && event is Dropped,
{
}

/// Success is answered only after the record is stored.
pub proof fn success_follows_the_record<E>(
    ctx: KVServiceContextView,
    env: NodeEnvView,
    from: SpreadWrite,
    event: WriteEvent<E>,
    to: SpreadWrite,
    action: WriteAction<E>,
)
    requires
        write_goes_on(ctx, env, from, event, to, action),
        action == WriteAction::<E>::Finish(Ok(true)),
    ensures
        from.stage is Record,
        event matches WriteEvent::Recorded(recorded) && recorded is Ok,
{
}

/// A write that must leave an object that is there leaves it: it looks for the object once it
/// holds the lock, which is taken once, and where there is one it ends without storing
/// anything. No other write is answered with a refusal.
pub proof fn existing_object_is_left<E>(
    ctx: KVServiceContextView,
    env: NodeEnvView,
    from: SpreadWrite,
    event: WriteEvent<E>,
    to: SpreadWrite,
    action: WriteAction<E>,
)
    requires
        write_goes_on(ctx, env, from, event, to, action),
    ensures
        from.stage is Lock ==> (from.if_not_exists <==> action is LookUp) && (to.stage is Existence
            <==> from.if_not_exists),
        event == WriteEvent::<E>::Existing(Ok(true)) <==> action == WriteAction::<E>::Finish(
            Ok(false),
        ),
        action is Store ==> from.stage is Preparation,
        !(action is TakeLock),
        to.stage is Preparation ==> (from.stage is Lock && !from.if_not_exists) || event
            == WriteEvent::<E>::Existing(Ok(false)),
{
}

/// How many events a write still waits for at most.
pub open spec fn events_left(stage: WriteStage) -> nat {
    match stage {
        WriteStage::Lock { .. } => 6,
        WriteStage::Existence { .. } => 5,
        WriteStage::Preparation => 4,
        WriteStage::Stripes { .. } => 3,
        WriteStage::Cache { .. } => 2,
        WriteStage::Record => 1,
        WriteStage::Done => 0,
    }
}

/// Every write ends: each event brings it closer to its end, and it answers exactly when it is
/// over.
pub proof fn every_write_ends<E>(
    ctx: KVServiceContextView,
    env: NodeEnvView,
    from: SpreadWrite,
    event: WriteEvent<E>,
    to: SpreadWrite,
    action: WriteAction<E>,
)
    requires
        write_goes_on(ctx, env, from, event, to, action),
    ensures
        events_left(to.stage) < events_left(from.stage),
        to.stage is Done <==> action is Finish,
{
}

/// What a client writes, it reads: where each node has stored the stripe that was sent to it,
/// and the chunks of the placement of the record that the write leaves are read where the
/// placement says, the buffers of the read hold exactly the bytes of the write. `stored` is
/// what the nodes store, by node and handle.
pub proof fn written_object_is_read_back<E>(
    ctx: KVServiceContextView,
    env: NodeEnvView,
    start: SpreadWrite,
    prepared: BlockMeta,
    middle: SpreadWrite,
    write: DistributedWrite,
    results: Vec<Result<ChunkLocation, E>>,
    stored_all: SpreadWrite,
    end: SpreadWrite,
    record: BlockMeta,
    node: DataNodeView,
    stored: Map<(Seq<char>, Seq<char>), Seq<u8>>,
    reads: Seq<(u32, Bytes)>,
)
    requires
        write_goes_on(
            ctx,
            env,
            start,
            WriteEvent::<E>::Prepared(Ok(prepared)),
            middle,
            WriteAction::<E>::Store(write),
        ),
        write_goes_on(
            ctx,
            env,
            middle,
            WriteEvent::Stored(results),
            stored_all,
            WriteAction::<E>::DropCached,
        ),
        write_goes_on(
            ctx,
            env,
            stored_all,
            WriteEvent::<E>::Dropped,
            end,
            WriteAction::<E>::Commit { record },
        ),
        write.tasks.len() == results.len() <= u32::MAX + 1,
        forall|i: int|
            0 <= i < results.len() ==> {
                &&& (#[trigger] results@[i]) matches Ok(loc)
                &&& loc.stripe_index == i
                &&& stored[(loc.node_id@, loc.storage_handle@)] == bytes_of(write.tasks@[i].data)
            },
        ({
            let chunks = chunks_of(node, record.deep_view());
            &&& reads.len() == chunks.len()
            &&& forall|i: int|
                0 <= i < reads.len() ==> {
                    let read = #[trigger] reads[i];
                    &&& read.0 == chunks[i].stripe_index
                    &&& bytes_of(read.1) == stored[(chunks[i].node_id, chunks[i].storage_handle)]
                }
        }),
    ensures
        joined(bytes_of_each(stripe_buffers(stripe_sorted(reads)))) == bytes_of(start.data),
{
    let data = bytes_of(start.data);
    let size = stripe_size(ctx);
    let locations = ok_values(results@);
    assert(write.chunk_size == size);
    assert(write.tasks.deep_view().len() == write.tasks.len());
    assert forall|i: int| 0 <= i < locations.len() implies (#[trigger] locations[i]).stripe() == i
        && stored[(locations[i].node_id@, locations[i].storage_handle@)] == stripe_bytes(
        data,
        size,
        i,
    ) by {
        assert(results@[i] is Ok);
        assert(write.tasks.deep_view()[i] == write.tasks@[i].deep_view());
    }
    ordered_stripes_are_one_for_each(locations);
    recorded_object_is_read_back(
        node,
        prepared.deep_view(),
        data,
        data.len() as u64,
        size as u64,
        locations,
        stored,
        reads,
    );
}

} // verus!
