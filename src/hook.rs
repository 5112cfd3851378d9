use vstd::prelude::*;

use crate::dispatch::{call_outcome, passes, taps_run, Dispatch};
use crate::dispatch::{lemma_all_pass, lemma_short_circuit};
use crate::order::{
    execution_order, is_execution_order, is_used_stages, lemma_execution_order_unique,
    lemma_running_order, runs_before, used_stages,
};

verus! {

/// One unit of behaviour attached to a hook: a stage and a run over the
/// context of a firing. `Ok(Some(v))` decides the call, `Ok(None)` leaves it
/// to later taps, an error aborts it.
pub trait Tap<C, R, E> {
    /// The stage the tap reports. An implementation that says nothing of it
    /// claims nothing.
    open spec fn spec_stage(&self) -> i32 {
        0
    }

    /// A run took the context from `before` to `after` and returned `out`.
    /// An implementation that says nothing of it claims nothing.
    open spec fn ran(&self, before: C, after: C, out: Result<Option<R>, E>) -> bool {
        true
    }

    fn stage(&self) -> (s: i32)
        ensures
            s == self.spec_stage(),
    ;

    fn run(&self, ctx: &mut C) -> (out: Result<Option<R>, E>)
        ensures
            self.ran(*old(ctx), *final(ctx), out),
    ;
}

/// Supplies taps at call time, beyond those registered on the hook. It is
/// handed the hook it serves, whose used stages it may read.
pub trait Interceptor<T, E>: Sized {
    /// Consulted on `hook`, the interceptor answered `r`. An implementation
    /// that says nothing of it claims nothing.
    open spec fn supplied(&self, hook: Hook<T, Self>, r: Result<Vec<T>, E>) -> bool {
        true
    }

    fn call_blocking(&self, hook: &Hook<T, Self>) -> (r: Result<Vec<T>, E>)
        ensures
            self.supplied(*hook, r),
    ;
}

/// The taps that interceptors answered with, one answer after the other.
pub open spec fn flatten<T>(answers: Seq<Vec<T>>) -> Seq<T>
    decreases answers.len(),
{
    if answers.len() == 0 {
        Seq::empty()
    } else {
        flatten(answers.drop_last()) + answers.last()@
    }
}

/// The stage that each of `taps` reports.
pub open spec fn stages_of<C, R, E, T: Tap<C, R, E>>(taps: Seq<T>) -> Seq<i32> {
    taps.map_values(|t: T| t.spec_stage())
}

/// Taps of `all` ran in `order`, from `ctxs[0]`: the `i`-th took `ctxs[i]` to
/// `ctxs[i + 1]` and returned `outs[i]`. Each before the last passed, and the
/// run stopped at the first that did not pass, or at the end of `order`.
pub open spec fn ran_in_order<C, R, E, T: Tap<C, R, E>>(
    all: Seq<T>,
    order: Seq<usize>,
    ctxs: Seq<C>,
    outs: Seq<Result<Option<R>, E>>,
) -> bool {
    &&& ctxs.len() == outs.len() + 1
    &&& outs.len() <= order.len()
    &&& taps_run(outs) == outs.len()
    &&& outs.len() < order.len() ==> (outs.len() > 0 && !passes(outs.last()))
    &&& forall|i: int|
        0 <= i < outs.len() ==> #[trigger] all[order[i] as int].ran(ctxs[i], ctxs[i + 1], outs[i])
}

/// An extension point: the taps registered on it, with their stages, and the
/// interceptors consulted when it fires.
pub struct Hook<T, I> {
    taps: Vec<T>,
    stages: Vec<i32>,
    interceptors: Vec<I>,
}

impl<T, I> Hook<T, I> {
    /// The registered taps, in order of registration.
    pub closed spec fn taps(&self) -> Seq<T> {
        self.taps@
    }

    /// The stage of each registered tap, read when it was registered.
    pub closed spec fn stages(&self) -> Seq<i32> {
        self.stages@
    }

    /// The interceptors, in order of registration.
    pub closed spec fn interceptors(&self) -> Seq<I> {
        self.interceptors@
    }

    pub closed spec fn wf(&self) -> bool {
        self.taps@.len() == self.stages@.len()
    }

    /// A hook with no taps and no interceptors.
    pub fn new() -> (h: Self)
        ensures
            h.wf(),
            h.taps() == Seq::<T>::empty(),
            h.stages() == Seq::<i32>::empty(),
            h.interceptors() == Seq::<I>::empty(),
    {
        Hook { taps: Vec::new(), stages: Vec::new(), interceptors: Vec::new() }
    }

    /// Registers `tap` after the taps already there, at the stage it reports.
    pub fn tap<C, R, E>(&mut self, tap: T)
        where T: Tap<C, R, E>,
        requires
            old(self).wf(),
        ensures
            final(self).wf(),
            final(self).taps() == old(self).taps().push(tap),
            final(self).stages() == old(self).stages().push(tap.spec_stage()),
            final(self).interceptors() == old(self).interceptors(),
    {
        let s = tap.stage();
        self.tap_at(tap, s);
    }

    /// Registers `tap` after the taps already there, at `stage`.
    pub fn tap_at(&mut self, tap: T, stage: i32)
        requires
            old(self).wf(),
        ensures
            final(self).wf(),
            final(self).taps() == old(self).taps().push(tap),
            final(self).stages() == old(self).stages().push(stage),
            final(self).interceptors() == old(self).interceptors(),
    {
        self.taps.push(tap);
        self.stages.push(stage);
    }

    /// Registers `interceptor` after those already there.
    pub fn intercept(&mut self, interceptor: I)
        ensures
            final(self).wf() == old(self).wf(),
            final(self).taps() == old(self).taps(),
            final(self).stages() == old(self).stages(),
            final(self).interceptors() == old(self).interceptors().push(interceptor),
    {
        self.interceptors.push(interceptor);
    }

    /// The registered taps, in order of registration.
    pub fn tap_list(&self) -> (r: &Vec<T>)
        ensures
            r@ == self.taps(),
    {
        &self.taps
    }

    /// The stage of each registered tap.
    pub fn tap_stages(&self) -> (r: &Vec<i32>)
        ensures
            r@ == self.stages(),
    {
        &self.stages
    }

    /// The interceptors, in order of registration.
    pub fn interceptor_list(&self) -> (r: &Vec<I>)
        ensures
            r@ == self.interceptors(),
    {
        &self.interceptors
    }

    /// The distinct stages of the registered taps, ascending.
    pub fn used_stages(&self) -> (r: Vec<i32>)
        ensures
            is_used_stages(self.stages(), r@),
    {
        used_stages(&self.stages)
    }

    /// The running order of the registered taps followed by `extra_stages`:
    /// positions below the number of registered taps name those taps, the
    /// others name the supplied taps in the order given.
    pub fn plan(&self, extra_stages: &Vec<i32>) -> (order: Vec<usize>)
        ensures
            is_execution_order(self.stages() + extra_stages@, order@),
    {
        let mut all: Vec<i32> = Vec::new();
        let mut i: usize = 0;
        while i < self.stages.len()
            invariant
                i <= self.stages@.len(),
                all@ == self.stages@.take(i as int),
            decreases self.stages@.len() - i,
        {
            all.push(self.stages[i]);
            i += 1;
            proof {
                assert(all@ =~= self.stages@.take(i as int));
            }
        }
        let mut j: usize = 0;
        while j < extra_stages.len()
            invariant
                j <= extra_stages@.len(),
                all@ == self.stages@ + extra_stages@.take(j as int),
            decreases extra_stages@.len() - j,
        {
            all.push(extra_stages[j]);
            j += 1;
            proof {
                assert(all@ =~= self.stages@ + extra_stages@.take(j as int));
            }
        }
        proof {
            assert(extra_stages@.take(extra_stages@.len() as int) =~= extra_stages@);
        }
        execution_order(&all)
    }

    /// The first `answers.len()` interceptors were consulted on this hook,
    /// in order, and answered `Ok(answers[i])`.
    pub open spec fn consulted<E>(&self, answers: Seq<Vec<T>>) -> bool
        where I: Interceptor<T, E>,
    {
        &&& answers.len() <= self.interceptors().len()
        &&& forall|i: int|
            0 <= i < answers.len() ==> #[trigger] self.interceptors()[i].supplied(
                *self,
                Ok::<Vec<T>, E>(answers[i]),
            )
    }

    /// The interceptors before the one at `answers.len()` answered with
    /// taps; that one answered with the error `e`, and no later one was
    /// consulted.
    pub open spec fn refused<E>(&self, answers: Seq<Vec<T>>, e: E) -> bool
        where I: Interceptor<T, E>,
    {
        &&& answers.len() < self.interceptors().len()
        &&& self.consulted::<E>(answers)
        &&& self.interceptors()[answers.len() as int].supplied(*self, Err::<Vec<T>, E>(e))
    }

    /// A firing from `before` to `after` that returned `r`: every interceptor
    /// answered, in order, with taps; the registered taps followed by the
    /// supplied ones ran in `order`, a stable sort by stage, until one did
    /// not pass; `r` is what that run gives.
    pub open spec fn fired<C, R, E>(
        &self,
        before: C,
        after: C,
        r: Result<Option<R>, E>,
        answers: Seq<Vec<T>>,
        order: Seq<usize>,
        ctxs: Seq<C>,
        outs: Seq<Result<Option<R>, E>>,
    ) -> bool
        where T: Tap<C, R, E>, I: Interceptor<T, E>,
    {
        &&& self.taps().len() == self.stages().len()
        &&& answers.len() == self.interceptors().len()
        &&& self.consulted::<E>(answers)
        &&& is_execution_order(self.stages() + stages_of::<C, R, E, T>(flatten(answers)), order)
        &&& ran_in_order(self.taps() + flatten(answers), order, ctxs, outs)
        &&& ctxs[0] == before
        &&& ctxs.last() == after
        &&& r == call_outcome(outs)
    }

    /// Fires the hook without suspending: gathers the interceptors' taps in
    /// order, runs all taps by ascending stage (registered taps before
    /// supplied ones on a tie) until one decides or fails.
    pub fn call_blocking<C, R, E>(&self, ctx: &mut C) -> (r: Result<Option<R>, E>)
        where T: Tap<C, R, E>, I: Interceptor<T, E>,
        requires
            self.wf(),
        ensures
            (exists|answers: Seq<Vec<T>>, e: E|
                #[trigger] self.refused(answers, e) && r == Err::<Option<R>, E>(e) && *final(ctx)
                    == *old(ctx)) || (exists|
                answers: Seq<Vec<T>>,
                order: Seq<usize>,
                ctxs: Seq<C>,
                outs: Seq<Result<Option<R>, E>>,
            | #[trigger] self.fired(*old(ctx), *final(ctx), r, answers, order, ctxs, outs)),
            self.taps().len() == 0 && self.interceptors().len() == 0 ==> r matches Ok(None),
    {
        let ghost before = *ctx;
        proof {
            assert(before == *old(ctx));
        }
        let ghost mut answers: Seq<Vec<T>> = Seq::empty();
        let mut extra: Vec<T> = Vec::new();
        let mut k: usize = 0;
        while k < self.interceptors.len()
            invariant
                k <= self.interceptors@.len(),
                answers.len() == k,
                self.consulted::<E>(answers),
                extra@ == flatten(answers),
                *ctx == before,
                before == *old(ctx),
            decreases self.interceptors@.len() - k,
        {
            match self.interceptors[k].call_blocking(self) {
                Err(e) => {
                    proof {
                        assert(self.refused(answers, e));
                    }
                    return Err(e);
                },
                Ok(mut supplied) => {
                    let ghost v = supplied;
                    extra.append(&mut supplied);
                    proof {
                        let next = answers.push(v);
                        assert(next.drop_last() =~= answers);
                        assert(extra@ == flatten(next));
                        assert forall|i: int| 0 <= i < next.len() implies #[trigger] self.interceptors()[i].supplied(
                            *self,
                            Ok::<Vec<T>, E>(next[i]),
                        ) by {
                            if i < answers.len() {
                                assert(next[i] == answers[i]);
                            }
                        }
                        answers = next;
                    }
                },
            }
            k += 1;
        }
        let mut extra_stages: Vec<i32> = Vec::new();
        let mut j: usize = 0;
        while j < extra.len()
            invariant
                j <= extra@.len(),
                extra_stages@ == stages_of::<C, R, E, T>(extra@.take(j as int)),
            decreases extra@.len() - j,
        {
            extra_stages.push(extra[j].stage());
            j += 1;
            proof {
                assert(extra_stages@ =~= stages_of::<C, R, E, T>(extra@.take(j as int)));
            }
        }
        proof {
            assert(extra@.take(extra@.len() as int) =~= extra@);
        }
        let order = self.plan(&extra_stages);
        let n = self.taps.len();
        let ghost all = self.taps@ + extra@;
        let ghost mut ctxs: Seq<C> = seq![before];
        let mut d: Dispatch<R, E> = Dispatch::new(order);
        loop
            invariant
                d.wf(),
                n == self.taps@.len(),
                all == self.taps@ + extra@,
                answers.len() == self.interceptors@.len(),
                self.consulted::<E>(answers),
                extra@ == flatten(answers),
                extra_stages@ == stages_of::<C, R, E, T>(extra@),
                is_execution_order(self.stages@ + extra_stages@, d.order()),
                !d.stopped(),
                self.wf(),
                self.taps@.len() == 0 && self.interceptors@.len() == 0 ==> extra@.len() == 0,
                ctxs.len() == d.seen().len() + 1,
                ctxs[0] == before,
                before == *old(ctx),
                ctxs.last() == *ctx,
                call_outcome(d.seen()) == Ok::<Option<R>, E>(None),
                taps_run(d.seen()) == d.seen().len(),
                forall|i: int|
                    0 <= i < d.seen().len() ==> #[trigger] all[d.order()[i] as int].ran(
                        ctxs[i],
                        ctxs[i + 1],
                        d.seen()[i],
                    ),
            decreases d.order().len() - d.seen().len(),
        {
            match d.next_tap() {
                None => {
                    proof {
                        assert(self.fired(before, *ctx, Ok::<Option<R>, E>(None), answers, d.order(), ctxs, d.seen()));
                    }
                    return Ok(None);
                },
                Some(p) => {
                    proof {
                        let i = d.seen().len() as int;
                        assert(i < d.order().len());
                        assert(p == d.order()[i]);
                        assert((d.order()[i] as int) < (self.stages@ + extra_stages@).len());
                    }
                    let ghost ctx_before = *ctx;
                    let ghost seen_before = d.seen();
                    let out = if p < n {
                        self.taps[p].run(ctx)
                    } else {
                        extra[p - n].run(ctx)
                    };
                    proof {
                        assert(all[p as int].ran(ctx_before, *ctx, out));
                        ctxs = ctxs.push(*ctx);
                    }
                    let step = d.record(out);
                    proof {
                        assert forall|i: int| 0 <= i < d.seen().len() implies #[trigger] all[d.order()[i] as int].ran(
                            ctxs[i],
                            ctxs[i + 1],
                            d.seen()[i],
                        ) by {
                            if i < seen_before.len() {
                                assert(d.seen()[i] == seen_before[i]);
                            }
                        }
                    }
                    match step {
                        Some(res) => {
                            proof {
                                assert(self.fired(before, *ctx, res, answers, d.order(), ctxs, d.seen()));
                            }
                            return res;
                        },
                        None => {},
                    }
                },
            }
        }
    }
}

/// In a firing, the taps that ran went by non-decreasing stage; on equal
/// stages registered taps ran before supplied ones, each group in its own
/// order; no tap ran twice.
pub proof fn lemma_fired_in_stage_order<C, R, E, T: Tap<C, R, E>, I: Interceptor<T, E>>(
    hook: Hook<T, I>,
    before: C,
    after: C,
    r: Result<Option<R>, E>,
    answers: Seq<Vec<T>>,
    order: Seq<usize>,
    ctxs: Seq<C>,
    outs: Seq<Result<Option<R>, E>>,
    i: int,
    j: int,
)
    requires
        hook.fired(before, after, r, answers, order, ctxs, outs),
        0 <= i < j < outs.len(),
    ensures
        ({
            let st = hook.stages() + stages_of::<C, R, E, T>(flatten(answers));
            &&& st[order[i] as int] <= st[order[j] as int]
            &&& st[order[i] as int] == st[order[j] as int] ==> order[i] < order[j]
            &&& st[order[i] as int] == st[order[j] as int] && (order[j] as int) < hook.stages().len()
                ==> (order[i] as int) < hook.stages().len()
            &&& order[i] != order[j]
        }),
{
    lemma_running_order(hook.stages(), stages_of::<C, R, E, T>(flatten(answers)), order, i, j);
    assert(runs_before(
        hook.stages() + stages_of::<C, R, E, T>(flatten(answers)),
        order[i] as int,
        order[j] as int,
    ));
}

/// In a firing, when the tap at step `k` is the first that does not pass,
/// the call returns what it returned and no later tap runs.
pub proof fn lemma_fired_short_circuit<C, R, E, T: Tap<C, R, E>, I: Interceptor<T, E>>(
    hook: Hook<T, I>,
    before: C,
    after: C,
    r: Result<Option<R>, E>,
    answers: Seq<Vec<T>>,
    order: Seq<usize>,
    ctxs: Seq<C>,
    outs: Seq<Result<Option<R>, E>>,
    k: int,
)
    requires
        hook.fired(before, after, r, answers, order, ctxs, outs),
        0 <= k < outs.len(),
        !passes(outs[k]),
        forall|i: int| 0 <= i < k ==> passes(#[trigger] outs[i]),
    ensures
        r == outs[k],
        outs.len() == k + 1,
{
    lemma_short_circuit(outs, k);
}

/// In a firing where every tap that ran passed, every tap ran, once each,
/// and the call returned `Ok(None)`.
pub proof fn lemma_fired_all_pass<C, R, E, T: Tap<C, R, E>, I: Interceptor<T, E>>(
    hook: Hook<T, I>,
    before: C,
    after: C,
    r: Result<Option<R>, E>,
    answers: Seq<Vec<T>>,
    order: Seq<usize>,
    ctxs: Seq<C>,
    outs: Seq<Result<Option<R>, E>>,
)
    requires
        hook.fired(before, after, r, answers, order, ctxs, outs),
        forall|i: int| 0 <= i < outs.len() ==> passes(#[trigger] outs[i]),
    ensures
        r == Ok::<Option<R>, E>(None),
        outs.len() == order.len(),
        order.len() == hook.taps().len() + flatten(answers).len(),
{
    lemma_all_pass(outs);
    if outs.len() < order.len() {
        assert(passes(outs[outs.len() - 1]));
    }
}

/// Two firings of one hook whose interceptors answered alike ran their taps
/// in the same order: a hook that no longer changes gives every call the
/// same plan.
pub proof fn lemma_fired_same_plan<C, R, E, T: Tap<C, R, E>, I: Interceptor<T, E>>(
    hook: Hook<T, I>,
    answers: Seq<Vec<T>>,
    before1: C,
    after1: C,
    r1: Result<Option<R>, E>,
    order1: Seq<usize>,
    ctxs1: Seq<C>,
    outs1: Seq<Result<Option<R>, E>>,
    before2: C,
    after2: C,
    r2: Result<Option<R>, E>,
    order2: Seq<usize>,
    ctxs2: Seq<C>,
    outs2: Seq<Result<Option<R>, E>>,
)
    requires
        hook.fired(before1, after1, r1, answers, order1, ctxs1, outs1),
        hook.fired(before2, after2, r2, answers, order2, ctxs2, outs2),
    ensures
        order1 == order2,
{
    lemma_execution_order_unique(
        hook.stages() + stages_of::<C, R, E, T>(flatten(answers)),
        order1,
        order2,
    );
}

} // verus!
