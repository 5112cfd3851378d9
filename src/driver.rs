use vstd::prelude::*;

use std::sync::Arc;

use crate::hook::Hook;
use crate::register::RegisterTaps;
use crate::registry::{NonSkippableRegisters, RegisterJsTapKind};

verus! {

/// What a plugin reaches while it is applied: the compiler's hooks.
pub struct ApplyContext<H> {
    pub compiler_hooks: H,
}

/// A plugin registers taps and interceptors on the hooks it reaches; this is
/// its only entry point.
pub trait Plugin<H, E> {
    /// Applied to the hooks `before`, the plugin left `after` and returned
    /// `r`. An implementation that says nothing of it claims nothing.
    open spec fn applied(&self, before: H, after: H, r: Result<(), E>) -> bool {
        true
    }

    fn name(&self) -> &'static str;

    fn apply(&self, ctx: &mut ApplyContext<H>) -> (r: Result<(), E>)
        ensures
            self.applied(old(ctx).compiler_hooks, final(ctx).compiler_hooks, r),
    ;
}

/// Plugin `i` took `hs[i]` to `hs[i + 1]` and succeeded, for each of the
/// first `hs.len() - 1` plugins.
pub open spec fn applied_in_turn<H, E, P: Plugin<H, E>>(plugins: Seq<P>, hs: Seq<H>) -> bool {
    &&& hs.len() >= 1
    &&& hs.len() <= plugins.len() + 1
    &&& forall|i: int|
        0 <= i < hs.len() - 1 ==> #[trigger] plugins[i].applied(hs[i], hs[i + 1], Ok::<(), E>(()))
}

/// The plugins before the one at `hs.len() - 1` took their turns as
/// `applied_in_turn` says; that one, applied to `hs.last()`, left `after` and
/// failed with `e`.
pub open spec fn failed_in_turn<H, E, P: Plugin<H, E>>(
    plugins: Seq<P>,
    hs: Seq<H>,
    after: H,
    e: E,
) -> bool {
    &&& applied_in_turn::<H, E, P>(plugins, hs)
    &&& hs.len() <= plugins.len()
    &&& plugins[hs.len() - 1].applied(hs.last(), after, Err::<(), E>(e))
}

/// The fixed bundle of lifecycle hooks of a compiler.
pub struct CompilerHooks<AT, AI, ST, SI> {
    /// Fired, suspending, before a run.
    pub before_run: Hook<AT, AI>,
    /// Fired, blocking, before a run.
    pub before_run_sync: Hook<ST, SI>,
}

impl<AT, AI, ST, SI> CompilerHooks<AT, AI, ST, SI> {
    pub open spec fn wf(&self) -> bool {
        self.before_run.wf() && self.before_run_sync.wf()
    }

    /// Hooks with no taps and no interceptors.
    pub fn new() -> (r: Self)
        ensures
            r.wf(),
            r.before_run.taps().len() == 0,
            r.before_run.interceptors().len() == 0,
            r.before_run_sync.taps().len() == 0,
            r.before_run_sync.interceptors().len() == 0,
    {
        CompilerHooks { before_run: Hook::new(), before_run_sync: Hook::new() }
    }
}

/// The plugins of a compiler and the hooks they filled. Built once; from
/// then on it is only read, so that any number of calls may share it.
pub struct PluginDriver<P, H> {
    plugins: Vec<P>,
    compiler_hooks: H,
}

impl<P, H> PluginDriver<P, H> {
    pub closed spec fn plugin_seq(&self) -> Seq<P> {
        self.plugins@
    }

    pub closed spec fn hooks(&self) -> H {
        self.compiler_hooks
    }

    /// Applies `plugins` in their order to `hooks`, each to the hooks the one
    /// before it left; the first failure ends the construction with its
    /// error, and no later plugin is applied.
    pub fn new<E>(plugins: Vec<P>, hooks: H) -> (r: Result<Arc<Self>, E>)
        where P: Plugin<H, E>,
        ensures
            r matches Ok(d) ==> d.plugin_seq() == plugins@ && exists|hs: Seq<H>|
                #[trigger] applied_in_turn::<H, E, P>(plugins@, hs) && hs.len() == plugins@.len()
                    + 1 && hs[0] == hooks && d.hooks() == hs.last(),
            r is Err ==> exists|hs: Seq<H>, after: H|
                #[trigger] failed_in_turn::<H, E, P>(plugins@, hs, after, r->Err_0) && hs[0] == hooks,
            plugins@.len() == 0 ==> (r matches Ok(d) && d.hooks() == hooks),
    {
        let mut ctx = ApplyContext { compiler_hooks: hooks };
        let ghost mut hs: Seq<H> = seq![hooks];
        let mut i: usize = 0;
        while i < plugins.len()
            invariant
                i <= plugins@.len(),
                hs.len() == i + 1,
                hs[0] == hooks,
                hs.last() == ctx.compiler_hooks,
                applied_in_turn::<H, E, P>(plugins@, hs),
            decreases plugins@.len() - i,
        {
            let ghost before = ctx.compiler_hooks;
            let r = plugins[i].apply(&mut ctx);
            proof {
                assert(plugins@[i as int].applied(before, ctx.compiler_hooks, r));
                assert(hs.last() == before);
            }
            let ghost outcome = r;
            match r {
                Err(e) => {
                    let res: Result<Arc<Self>, E> = Err(e);
                    proof {
                        assert(outcome == Err::<(), E>(res->Err_0));
                        assert(failed_in_turn::<H, E, P>(plugins@, hs, ctx.compiler_hooks, res->Err_0));
                        assert(hs[0] == hooks);
                    }
                    return res;
                },
                Ok(u) => {
                    proof {
                        assert(outcome == Ok::<(), E>(u));
                    }
                },
            }
            proof {
                let next = hs.push(ctx.compiler_hooks);
                assert forall|j: int| 0 <= j < next.len() - 1 implies #[trigger] plugins@[j].applied(
                    next[j],
                    next[j + 1],
                    Ok::<(), E>(()),
                ) by {
                    if j < i {
                        assert(next[j] == hs[j] && next[j + 1] == hs[j + 1]);
                    } else {
                        assert(next[j] == before && next[j + 1] == ctx.compiler_hooks);
                    }
                }
                hs = next;
            }
            i += 1;
        }
        Ok(Arc::new(PluginDriver { plugins, compiler_hooks: ctx.compiler_hooks }))
    }

    /// The plugins, in the order they were applied.
    pub fn plugins(&self) -> (r: &Vec<P>)
        ensures
            r@ == self.plugin_seq(),
    {
        &self.plugins
    }

    /// The hooks as the plugins left them.
    pub fn compiler_hooks(&self) -> (r: &H)
        ensures
            *r == self.hooks(),
    {
        &self.compiler_hooks
    }
}

/// The host's two registration functions.
pub struct RegisterJsTaps<G, GS> {
    pub register_before_run_taps: G,
    pub register_before_run_sync_taps: GS,
}

/// The plugin that bridges the compiler's hooks to the host: it puts one
/// interceptor on each, which share one registry of non-skippable kinds.
#[verifier::reject_recursive_types(AT)]
#[verifier::reject_recursive_types(ST)]
pub struct JsHooksAdapterPlugin<AT, ST, G, GS> {
    pub register_before_run_taps: RegisterTaps<AT, G>,
    pub register_before_run_sync_taps: RegisterTaps<ST, GS>,
    pub non_skippable_registers: NonSkippableRegisters,
}

impl<AT, ST, G, GS> JsHooksAdapterPlugin<AT, ST, G, GS> {
    /// The adapter over the host's registration functions, with an empty
    /// registry.
    pub fn from_js_hooks(register_js_taps: RegisterJsTaps<G, GS>) -> (r: Self)
        ensures
            r.register_before_run_taps.kind == RegisterJsTapKind::BeforeRun,
            r.register_before_run_taps.inner.register == register_js_taps.register_before_run_taps,
            r.register_before_run_taps.inner.cache is NoCache,
            r.register_before_run_taps.inner.non_skippable_registers is Some,
            r.register_before_run_sync_taps.kind == RegisterJsTapKind::BeforeRunSync,
            r.register_before_run_sync_taps.inner.register
                == register_js_taps.register_before_run_sync_taps,
            r.register_before_run_sync_taps.inner.cache is NoCache,
            r.register_before_run_sync_taps.inner.non_skippable_registers is Some,
    {
        let non_skippable_registers = NonSkippableRegisters::new();
        JsHooksAdapterPlugin {
            register_before_run_taps: RegisterTaps::before_run(
                register_js_taps.register_before_run_taps,
                non_skippable_registers.clone(),
            ),
            register_before_run_sync_taps: RegisterTaps::before_run_sync(
                register_js_taps.register_before_run_sync_taps,
                non_skippable_registers.clone(),
            ),
            non_skippable_registers,
        }
    }

    /// Replaces the set of kinds that the interceptors never skip.
    pub fn set_non_skippable_registers(&self, kinds: Vec<RegisterJsTapKind>) {
        self.non_skippable_registers.set_non_skippable_registers(kinds);
    }
}

/// `after` is `before` with one more interceptor on each before-run hook;
/// no tap changes, and well-formed hooks stay so.
pub open spec fn intercepted<AT, AI, ST, SI>(
    before: CompilerHooks<AT, AI, ST, SI>,
    after: CompilerHooks<AT, AI, ST, SI>,
) -> bool {
    &&& after.wf() == before.wf()
    &&& after.before_run.taps() == before.before_run.taps()
    &&& after.before_run.stages() == before.before_run.stages()
    &&& after.before_run.interceptors().len() == before.before_run.interceptors().len() + 1
    &&& after.before_run.interceptors().drop_last() == before.before_run.interceptors()
    &&& after.before_run_sync.taps() == before.before_run_sync.taps()
    &&& after.before_run_sync.stages() == before.before_run_sync.stages()
    &&& after.before_run_sync.interceptors().len() == before.before_run_sync.interceptors().len()
        + 1
    &&& after.before_run_sync.interceptors().drop_last() == before.before_run_sync.interceptors()
}

impl<AT: Clone, ST: Clone, G: Clone, GS: Clone> JsHooksAdapterPlugin<AT, ST, G, GS> {
    /// Puts this plugin's interceptors on the two before-run hooks; no tap
    /// changes.
    pub fn intercept_hooks(
        &self,
        hooks: &mut CompilerHooks<AT, RegisterTaps<AT, G>, ST, RegisterTaps<ST, GS>>,
    )
        ensures
            intercepted(*old(hooks), *final(hooks)),
    {
        hooks.before_run.intercept(self.register_before_run_taps.clone());
        hooks.before_run_sync.intercept(self.register_before_run_sync_taps.clone());
        proof {
            assert(hooks.before_run.interceptors().drop_last() =~= old(
                hooks,
            ).before_run.interceptors());
            assert(hooks.before_run_sync.interceptors().drop_last() =~= old(
                hooks,
            ).before_run_sync.interceptors());
        }
    }
}

impl<AT: Clone, ST: Clone, G: Clone, GS: Clone, E> Plugin<
    CompilerHooks<AT, RegisterTaps<AT, G>, ST, RegisterTaps<ST, GS>>,
    E,
> for JsHooksAdapterPlugin<AT, ST, G, GS> {
    /// Always succeeds, adding its two interceptors.
    open spec fn applied(
        &self,
        before: CompilerHooks<AT, RegisterTaps<AT, G>, ST, RegisterTaps<ST, GS>>,
        after: CompilerHooks<AT, RegisterTaps<AT, G>, ST, RegisterTaps<ST, GS>>,
        r: Result<(), E>,
    ) -> bool {
        r is Ok && intercepted(before, after)
    }

    fn name(&self) -> &'static str {
        "rspack.JsHooksAdapterPlugin"
    }

    fn apply(
        &self,
        ctx: &mut ApplyContext<CompilerHooks<AT, RegisterTaps<AT, G>, ST, RegisterTaps<ST, GS>>>,
    ) -> (r: Result<(), E>) {
        self.intercept_hooks(&mut ctx.compiler_hooks);
        Ok(())
    }
}

} // verus!
