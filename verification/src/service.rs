//! The service: what its handlers share, and the locks that put the writes of one object in a
//! row.
use crate::cluster::{distributed_placement_enabled, spreads};
use crate::model::{KVServiceContext, KVServiceContextView, NodeEnv};
use dashmap::DashMap;
use std::sync::Arc;
use tokio::sync::Mutex as AsyncMutex;
use vstd::prelude::*;

verus! {

/// `dashmap::DashMap`: a map that threads share.
#[verifier::external_type_specification]
#[verifier::external_body]
#[verifier::reject_recursive_types(K)]
#[verifier::reject_recursive_types(V)]
#[verifier::reject_recursive_types(S)]
pub struct ExDashMap<K, V, S>(dashmap::DashMap<K, V, S>);

/// `tokio::sync::Mutex`: a lock that is waited for without blocking the thread.
#[verifier::external_type_specification]
#[verifier::external_body]
#[verifier::reject_recursive_types(T)]
pub struct ExAsyncMutex<T: ?Sized>(tokio::sync::Mutex<T>);

/// `tokio::sync::Mutex::new`: a lock that nobody holds yet. Nothing is claimed of it: whether a
/// lock is held changes behind shared references, so it is not a property of the value, and two
/// new locks differ in nothing but which one they are.
#[verifier::external_body]
fn new_mutex() -> AsyncMutex<()> {
    AsyncMutex::new(())
}

/// The locks that a table gives out, by key.
pub uninterp spec fn write_lock_table(locks: DashMap<String, Arc<AsyncMutex<()>>>) -> Map<
    Seq<char>,
    Arc<AsyncMutex<()>>,
>;

/// `DashMap::new`: a table that has not given out a lock yet.
#[verifier::external_body]
fn new_lock_table() -> DashMap<String, Arc<AsyncMutex<()>>> {
    DashMap::new()
}

/// A lock that nobody holds.
fn new_lock() -> Arc<AsyncMutex<()>> {
    Arc::new(new_mutex())
}

/// `DashMap::entry` for `key`, with a fresh `tokio::sync::Mutex` where the table has none: the
/// lock that the table has for `key`. Nothing takes a lock out of a table or puts another in
/// its place, so a table has one lock for a key for good. That two keys have different locks
/// is not claimed.
#[verifier::external_body]
fn lock_entry(locks: &DashMap<String, Arc<AsyncMutex<()>>>, key: String) -> (lock: Arc<
    AsyncMutex<()>,
>)
    ensures
        lock == write_lock_table(*locks)[key@],
{
    locks.entry(key).or_insert_with(new_lock).clone()
}

/// What the handlers of the service share.
pub struct KVServiceImpl {
    ctx: Arc<KVServiceContext>,
    write_locks: Arc<DashMap<String, Arc<AsyncMutex<()>>>>,
}

impl KVServiceImpl {
    /// What the handlers know.
    pub closed spec fn context(&self) -> KVServiceContextView {
        self.ctx.deep_view()
    }

    /// The lock under which the writes of the object with the string key `str_key` stand.
    pub closed spec fn write_lock(&self, str_key: Seq<char>) -> Arc<AsyncMutex<()>> {
        write_lock_table(*self.write_locks)[str_key]
    }

    /// A service on `ctx`.
    pub fn new(ctx: KVServiceContext) -> (r: Self)
        ensures
            r.context() == ctx.deep_view(),
    {
        KVServiceImpl { ctx: Arc::new(ctx), write_locks: Arc::new(new_lock_table()) }
    }

    /// A service on a context that others use too.
    pub fn new_shared(ctx: Arc<KVServiceContext>) -> (r: Self)
        ensures
            r.context() == ctx.deep_view(),
    {
        KVServiceImpl { ctx, write_locks: Arc::new(new_lock_table()) }
    }

    /// What the handlers know.
    pub fn ctx(&self) -> (r: &KVServiceContext)
        ensures
            r.deep_view() == self.context(),
    {
        &self.ctx
    }

    /// Tells whether an object of `len` bytes is spread over the data nodes.
    pub fn should_use_distributed_placement(&self, env: &NodeEnv, len: usize) -> (r: bool)
        ensures
            r == spreads(self.context(), env.deep_view(), len as nat),
    {
        distributed_placement_enabled(&self.ctx, env, len)
    }

    /// The lock under which the writes of the object with the string key `str_key` stand: the
    /// same one in every call.
    pub fn key_write_lock(&self, str_key: &str) -> (lock: Arc<AsyncMutex<()>>)
        ensures
            lock == self.write_lock(str_key@),
    {
        lock_entry(&self.write_locks, str_key.to_string())
    }
}

} // verus!
