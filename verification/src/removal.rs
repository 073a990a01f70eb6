//! The course of the removal of a spread object: the stripes, the cache, the record.
use crate::messages::{DeleteResponse, PlacementChunk, PlacementDescriptor};
use crate::order::{all_ok, is_first_error, results_are_good_or_fail};
use crate::reads::delete_distributed_chunks;
use vstd::prelude::*;

verus! {

/// What the removal of a spread object waits for.
#[derive(Debug, Clone, Copy, PartialEq, Eq)]
pub enum RemovalStage {
    /// For the nodes that remove the stripes.
    Stripes,
    /// For the object to be dropped from the cache.
    Cache,
    /// For the record to be removed.
    Record,
    /// For nothing: it is over.
    Done,
}

/// What has happened. `E` is the error of a call that failed.
pub enum RemovalEvent<E> {
    /// Every node has answered, in the order of the chunks.
    Removed(Vec<Result<(), E>>),
    /// The object is no longer in the cache.
    Dropped,
    /// The record is removed.
    Erased(Result<(), E>),
}

/// What is to be done next.
pub enum RemovalAction<E> {
    /// Remove the stripes.
    RemoveStripes { chunks: Vec<PlacementChunk> },
    /// Drop the object from the cache.
    DropCached,
    /// Remove the record.
    EraseRecord,
    /// Answer.
    Finish(Result<DeleteResponse, E>),
}

/// The removal of a spread object on its way.
pub struct SpreadRemoval {
    pub stage: RemovalStage,
}

/// Whether a removal in the stage `stage` waits for `event`.
pub open spec fn removal_awaits<E>(stage: RemovalStage, event: RemovalEvent<E>) -> bool {
    match stage {
        RemovalStage::Stripes => event is Removed,
        RemovalStage::Cache => event is Dropped,
        RemovalStage::Record => event is Erased,
        RemovalStage::Done => false,
    }
}

/// Whether `event` takes the removal `from` to the removal `to` with the next action `action`.
pub open spec fn removal_goes_on<E>(
    from: SpreadRemoval,
    event: RemovalEvent<E>,
    to: SpreadRemoval,
    action: RemovalAction<E>,
) -> bool {
    &&& removal_awaits(from.stage, event)
    &&& match event {
        RemovalEvent::Removed(results) => if all_ok(results@) {
            to.stage is Cache && action is DropCached
        } else {
            &&& to.stage is Done
            &&& action matches RemovalAction::Finish(Err(e))
            &&& is_first_error(results@, e)
        },
        RemovalEvent::Dropped => to.stage is Record && action is EraseRecord,
        RemovalEvent::Erased(erased) => {
            &&& to.stage is Done
            &&& action == RemovalAction::<E>::Finish(
                match erased {
                    Ok(_) => Ok(DeleteResponse { success: true }),
                    Err(e) => Err(e),
                },
            )
        },
    }
}

impl SpreadRemoval {
    /// Begins a removal, and tells what is to be done first: the stripes go, all of them.
    pub fn start<E>(placement: PlacementDescriptor) -> (r: (Self, RemovalAction<E>))
        ensures
            r.0.stage is Stripes,
            r.1 == (RemovalAction::<E>::RemoveStripes { chunks: placement.chunks }),
    {
        (
            SpreadRemoval { stage: RemovalStage::Stripes },
            RemovalAction::RemoveStripes { chunks: placement.chunks },
        )
    }

    /// Goes on once `event` has happened, and tells what is to be done next.
    pub fn step<E>(self, event: RemovalEvent<E>) -> (r: (Self, RemovalAction<E>))
        requires
            removal_awaits(self.stage, event),
        ensures
            removal_goes_on(self, event, r.0, r.1),
    {
        let (stage, action) = match event {
            RemovalEvent::Removed(results) => {
                proof {
                    assert forall|e: E| #[trigger] is_first_error(results@, e) implies !all_ok(
                        results@,
                    ) by {
                        results_are_good_or_fail(results@, e);
                    }
                }
                match delete_distributed_chunks(results) {
                    Ok(_) => (RemovalStage::Cache, RemovalAction::DropCached),
                    Err(e) => (RemovalStage::Done, RemovalAction::Finish(Err(e))),
                }
            },
            RemovalEvent::Dropped => (RemovalStage::Record, RemovalAction::EraseRecord),
            RemovalEvent::Erased(Ok(_)) => (
                RemovalStage::Done,
                RemovalAction::Finish(Ok(DeleteResponse { success: true })),
            ),
            RemovalEvent::Erased(Err(e)) => (RemovalStage::Done, RemovalAction::Finish(Err(e))),
        };
        (SpreadRemoval { stage }, action)
    }
}

/// The record of an object outlives its stripes: it is removed only after every stripe is, and
/// after the object has left the cache. Where a stripe cannot be removed, the first failure is
/// answered, and the record stays.
pub proof fn record_outlives_the_stripes<E>(
    start: SpreadRemoval,
    results: Vec<Result<(), E>>,
    middle: SpreadRemoval,
    first: RemovalAction<E>,
    event: RemovalEvent<E>,
    end: SpreadRemoval,
    second: RemovalAction<E>,
)
    requires
        removal_goes_on(start, RemovalEvent::Removed(results), middle, first),
    ensures
        first is DropCached <==> all_ok(results@),
        !all_ok(results@) ==> (first matches RemovalAction::Finish(Err(e)) && is_first_error(
            results@,
            e,
        )) && !removal_goes_on(middle, event, end, second),
        removal_goes_on(middle, event, end, second) ==> all_ok(results@) && event is Dropped
            && second is EraseRecord,
{
}

/// The record is removed only from a removal that has dropped the object from the cache, which
/// follows only on stripes that are all removed, and success is answered only after the record
/// is removed.
pub proof fn removal_goes_in_order<E>(
    from: SpreadRemoval,
    event: RemovalEvent<E>,
    to: SpreadRemoval,
    action: RemovalAction<E>,
)
    requires
        removal_goes_on(from, event, to, action),
    ensures
        action is DropCached ==> from.stage is Stripes && (event matches RemovalEvent::Removed(
            results,
        ) && all_ok(results@)),
        action is EraseRecord ==> from.stage is Cache && event is Dropped,
        to.stage is Cache <==> action is DropCached,
        (action matches RemovalAction::Finish(answer) && answer is Ok) ==> from.stage is Record && (
        event matches RemovalEvent::Erased(erased) && erased is Ok),
        action matches RemovalAction::Finish(answer) ==> (answer matches Ok(a) ==> a.success),
{
}

/// How many events a removal still waits for at most.
pub open spec fn removal_events_left(stage: RemovalStage) -> nat {
    match stage {
        RemovalStage::Stripes => 3,
        RemovalStage::Cache => 2,
        RemovalStage::Record => 1,
        RemovalStage::Done => 0,
    }
}

/// Every removal ends: each event brings it closer to its end, and it answers exactly when it is
/// over.
pub proof fn every_removal_ends<E>(
    from: SpreadRemoval,
    event: RemovalEvent<E>,
    to: SpreadRemoval,
    action: RemovalAction<E>,
)
    requires
        removal_goes_on(from, event, to, action),
    ensures
        removal_events_left(to.stage) < removal_events_left(from.stage),
        to.stage is Done <==> action is Finish,
{
}

} // verus!
