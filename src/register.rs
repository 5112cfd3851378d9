use vstd::prelude::*;

use std::sync::Arc;

use crate::hook::{Hook, Interceptor};
use crate::order::is_used_stages;
use crate::registry::{NonSkippableRegisters, RegisterJsTapKind};

verus! {

/// Declares `once_cell::sync::OnceCell`, carried opaque: the blocking cache.
#[verifier::external_type_specification]
#[verifier::external_body]
#[verifier::reject_recursive_types(T)]
pub struct ExSyncOnceCell<T>(once_cell::sync::OnceCell<T>);

/// Declares `tokio::sync::OnceCell`, carried opaque: the suspending cache.
#[verifier::external_type_specification]
#[verifier::external_body]
#[verifier::reject_recursive_types(T)]
pub struct ExAsyncOnceCell<T>(tokio::sync::OnceCell<T>);

/// The host's registration function: handed a hook's used stages,
/// ascending, it answers with the taps to add to that hook's call.
pub trait RegisterFunction<T, E> {
    /// Handed `stages`, the host answered `r`. An implementation that says
    /// nothing of it claims nothing.
    open spec fn answered(&self, stages: Seq<i32>, r: Result<Vec<T>, E>) -> bool {
        true
    }

    fn call_blocking(&self, stages: &Vec<i32>) -> (r: Result<Vec<T>, E>)
        ensures
            self.answered(stages@, r),
    ;
}

/// Asks the host for taps.
pub fn lookup<T, E, G: RegisterFunction<T, E>>(register: &G, stages: &Vec<i32>) -> (r: Result<
    Vec<T>,
    E,
>)
    ensures
        register.answered(stages@, r),
{
    register.call_blocking(stages)
}

/// Relies on `once_cell::sync::OnceCell::new`: an empty cell.
#[verifier::external_body]
fn new_sync_cell<T>() -> once_cell::sync::OnceCell<Vec<T>> {
    once_cell::sync::OnceCell::new()
}

/// Relies on `tokio::sync::OnceCell::new`: an empty cell.
#[verifier::external_body]
fn new_async_cell<T>() -> tokio::sync::OnceCell<Vec<T>> {
    tokio::sync::OnceCell::new()
}

/// Relies on `once_cell::sync::OnceCell::get_or_try_init`: the held taps, or
/// else those of one lookup, which the cell keeps when it succeeds. Callers on
/// other threads wait for that one lookup; a failed lookup leaves the cell
/// empty.
#[verifier::external_body]
fn cached_lookup<'a, T, E, G: RegisterFunction<T, E>>(
    cell: &'a once_cell::sync::OnceCell<Vec<T>>,
    register: &G,
    stages: &Vec<i32>,
) -> Result<&'a Vec<T>, E> {
    cell.get_or_try_init(|| lookup(register, stages))
}

/// How the taps that the host supplies are kept between calls.
#[derive(Clone)]
#[verifier::reject_recursive_types(T)]
pub enum RegisterJsTapsCache<T> {
    /// Each call asks the host again.
    NoCache,
    /// The first successful answer is kept, for calls that suspend.
    Cache(Arc<tokio::sync::OnceCell<Vec<T>>>),
    /// The first successful answer is kept, for calls that block.
    SyncCache(Arc<once_cell::sync::OnceCell<Vec<T>>>),
}

impl<T> RegisterJsTapsCache<T> {
    /// The policy for `cache` and `sync`, with an empty cell.
    pub fn new(cache: bool, sync: bool) -> (r: Self)
        ensures
            !cache ==> r is NoCache,
            cache && sync ==> r is SyncCache,
            cache && !sync ==> r is Cache,
    {
        if cache {
            if sync {
                RegisterJsTapsCache::SyncCache(Arc::new(new_sync_cell()))
            } else {
                RegisterJsTapsCache::Cache(Arc::new(new_async_cell()))
            }
        } else {
            RegisterJsTapsCache::NoCache
        }
    }
}

/// Whether an interceptor must ask the host: always when it cannot be
/// skipped, when its kind is marked non-skippable, or when some static tap
/// uses a stage.
pub open spec fn must_query(skippable: bool, non_skippable: bool, used_stages: Seq<i32>) -> bool {
    !skippable || non_skippable || used_stages.len() > 0
}

/// Decides whether an interceptor asks the host.
pub fn query_needed(skippable: bool, non_skippable: bool, used_stages: &Vec<i32>) -> (r: bool)
    ensures
        r == must_query(skippable, non_skippable, used_stages@),
{
    !skippable || non_skippable || used_stages.len() > 0
}

/// With no stage in use and its kind not marked, a skippable interceptor does
/// not ask the host.
pub proof fn lemma_skip_elision(used_stages: Seq<i32>)
    requires
        used_stages.len() == 0,
    ensures
        !must_query(true, false, used_stages),
{
}

/// Marking a kind non-skippable makes its interceptor ask the host whatever
/// stages are in use.
pub proof fn lemma_non_skippable_forces_lookup(skippable: bool, used_stages: Seq<i32>)
    ensures
        must_query(skippable, true, used_stages),
{
}

/// The shared state of an interceptor that gets its taps from the host.
#[derive(Clone)]
#[verifier::reject_recursive_types(T)]
pub struct RegisterJsTapsInner<T, G> {
    pub register: G,
    pub cache: RegisterJsTapsCache<T>,
    pub non_skippable_registers: Option<NonSkippableRegisters>,
}

impl<T, G> RegisterJsTapsInner<T, G> {
    /// An interceptor state over `register`; it may skip the host only when
    /// given a registry.
    pub fn new(
        register: G,
        non_skippable_registers: Option<NonSkippableRegisters>,
        cache: bool,
        sync: bool,
    ) -> (r: Self)
        ensures
            r.register == register,
            r.non_skippable_registers == non_skippable_registers,
            !cache ==> r.cache is NoCache,
            cache && sync ==> r.cache is SyncCache,
            cache && !sync ==> r.cache is Cache,
    {
        RegisterJsTapsInner {
            register,
            cache: RegisterJsTapsCache::new(cache, sync),
            non_skippable_registers,
        }
    }

    /// Whether a call for `kind` must ask the host, reading the registry as
    /// it stands now.
    pub fn needs_lookup(&self, kind: RegisterJsTapKind, used_stages: &Vec<i32>) -> (r: bool)
        ensures
            self.non_skippable_registers is None ==> r,
            used_stages@.len() > 0 ==> r,
    {
        match &self.non_skippable_registers {
            None => query_needed(false, false, used_stages),
            Some(registers) => query_needed(true, registers.is_non_skippable(&kind), used_stages),
        }
    }

    /// The taps that the host supplies for a call of a blocking hook: none
    /// when the call may skip the host; else the kept answer, or a fresh one.
    /// Without a registry, or with some stage in use, the host is asked, and
    /// without a cache its answer is returned.
    pub fn call_register_blocking<E>(&self, kind: RegisterJsTapKind, used_stages: &Vec<i32>) -> (r:
        Result<Vec<T>, E>)
        where T: Clone, G: RegisterFunction<T, E>,
        ensures
            self.answers_call(used_stages@, r),
    {
        let query = self.needs_lookup(kind, used_stages);
        self.supplied_taps(query, used_stages)
    }

    /// What a call with `used_stages` may return: no taps, when the host was
    /// skipped, or the host's answer; with no registry or with a stage in use,
    /// only the host's answer. A kept answer is the cache's to give.
    pub open spec fn answers_call<E>(&self, used_stages: Seq<i32>, r: Result<Vec<T>, E>) -> bool
        where G: RegisterFunction<T, E>,
    {
        &&& self.cache is NoCache ==> ((r matches Ok(v) && v@.len() == 0) || self.register.answered(
            used_stages,
            r,
        ))
        &&& (self.cache is NoCache && (self.non_skippable_registers is None || used_stages.len()
            > 0)) ==> self.register.answered(used_stages, r)
    }

    /// The taps for one call once it is known whether the host is asked:
    /// without a query, none and no lookup; with one and no cache, the host's
    /// answer.
    pub fn supplied_taps<E>(&self, query: bool, used_stages: &Vec<i32>) -> (r: Result<Vec<T>, E>)
        where T: Clone, G: RegisterFunction<T, E>,
        ensures
            !query ==> (r matches Ok(v) && v@.len() == 0),
            query && self.cache is NoCache ==> self.register.answered(used_stages@, r),
    {
        if !query {
            return Ok(Vec::new());
        }
        match &self.cache {
            RegisterJsTapsCache::SyncCache(cell) => match cached_lookup(
                cell,
                &self.register,
                used_stages,
            ) {
                Ok(taps) => Ok(taps.clone()),
                Err(e) => Err(e),
            },
            _ => lookup(&self.register, used_stages),
        }
    }
}

/// An interceptor of the hook of one kind, whose taps come from the host.
#[derive(Clone)]
#[verifier::reject_recursive_types(T)]
pub struct RegisterTaps<T, G> {
    pub kind: RegisterJsTapKind,
    pub inner: RegisterJsTapsInner<T, G>,
}

impl<T, G> RegisterTaps<T, G> {
    /// The interceptor of the suspending before-run hook: no cache, skippable.
    pub fn before_run(register: G, non_skippable_registers: NonSkippableRegisters) -> (r: Self)
        ensures
            r.kind == RegisterJsTapKind::BeforeRun,
            r.inner.register == register,
            r.inner.cache is NoCache,
            r.inner.non_skippable_registers == Some(non_skippable_registers),
    {
        RegisterTaps {
            kind: RegisterJsTapKind::BeforeRun,
            inner: RegisterJsTapsInner::new(register, Some(non_skippable_registers), false, false),
        }
    }

    /// The interceptor of the blocking before-run hook: no cache, skippable.
    pub fn before_run_sync(register: G, non_skippable_registers: NonSkippableRegisters) -> (r:
        Self)
        ensures
            r.kind == RegisterJsTapKind::BeforeRunSync,
            r.inner.register == register,
            r.inner.cache is NoCache,
            r.inner.non_skippable_registers == Some(non_skippable_registers),
    {
        RegisterTaps {
            kind: RegisterJsTapKind::BeforeRunSync,
            inner: RegisterJsTapsInner::new(register, Some(non_skippable_registers), false, true),
        }
    }

    /// An interceptor of the hook of `kind` with the given policies.
    pub fn new(
        kind: RegisterJsTapKind,
        register: G,
        non_skippable_registers: Option<NonSkippableRegisters>,
        cache: bool,
        sync: bool,
    ) -> (r: Self)
        ensures
            r.kind == kind,
            r.inner.register == register,
            r.inner.non_skippable_registers == non_skippable_registers,
            !cache ==> r.inner.cache is NoCache,
            cache && sync ==> r.inner.cache is SyncCache,
            cache && !sync ==> r.inner.cache is Cache,
    {
        RegisterTaps {
            kind,
            inner: RegisterJsTapsInner::new(register, non_skippable_registers, cache, sync),
        }
    }
}

impl<T: Clone, E, G: RegisterFunction<T, E>> Interceptor<T, E> for RegisterTaps<T, G> {
    /// The host was asked with the hook's used stages, or skipped (see
    /// `RegisterJsTapsInner::answers_call`).
    open spec fn supplied(&self, hook: Hook<T, Self>, r: Result<Vec<T>, E>) -> bool {
        exists|used: Seq<i32>| #[trigger]
            is_used_stages(hook.stages(), used) && self.inner.answers_call(used, r)
    }

    fn call_blocking(&self, hook: &Hook<T, Self>) -> (r: Result<Vec<T>, E>) {
        let used = hook.used_stages();
        let r = self.inner.call_register_blocking(self.kind, &used);
        proof {
            assert(is_used_stages(hook.stages(), used@) && self.inner.answers_call(used@, r));
        }
        r
    }
}

} // verus!
