use vstd::prelude::*;

verus! {

/// A tap that did not decide: the call goes on to the next tap.
pub open spec fn passes<R, E>(o: Result<Option<R>, E>) -> bool {
    o matches Ok(None)
}

/// The result of a call whose taps, in running order, would return `outs`:
/// the first error or decided value, or `Ok(None)` when every tap passes.
pub open spec fn call_outcome<R, E>(outs: Seq<Result<Option<R>, E>>) -> Result<Option<R>, E>
    decreases outs.len(),
{
    if outs.len() == 0 {
        Ok(None)
    } else if passes(outs[0]) {
        call_outcome(outs.drop_first())
    } else {
        outs[0]
    }
}

/// How many taps run when they would return `outs`: up to and including the
/// first that does not pass.
pub open spec fn taps_run<R, E>(outs: Seq<Result<Option<R>, E>>) -> nat
    decreases outs.len(),
{
    if outs.len() == 0 {
        0
    } else if passes(outs[0]) {
        1 + taps_run(outs.drop_first())
    } else {
        1
    }
}

/// If the tap at position `k` is the first that does not pass, the call
/// returns what it returned and no tap after it runs.
pub proof fn lemma_short_circuit<R, E>(outs: Seq<Result<Option<R>, E>>, k: int)
    requires
        0 <= k < outs.len(),
        !passes(outs[k]),
        forall|i: int| 0 <= i < k ==> passes(#[trigger] outs[i]),
    ensures
        call_outcome(outs) == outs[k],
        taps_run(outs) == k + 1,
    decreases k,
{
    if k > 0 {
        let rest = outs.drop_first();
        assert forall|i: int| 0 <= i < k - 1 implies passes(#[trigger] rest[i]) by {
            assert(rest[i] == outs[i + 1]);
        }
        assert(passes(outs[0]));
        lemma_short_circuit(rest, k - 1);
    }
}

/// When every tap passes, all of them run and the call returns `Ok(None)`.
pub proof fn lemma_all_pass<R, E>(outs: Seq<Result<Option<R>, E>>)
    requires
        forall|i: int| 0 <= i < outs.len() ==> passes(#[trigger] outs[i]),
    ensures
        call_outcome(outs) == Ok::<Option<R>, E>(None),
        taps_run(outs) == outs.len(),
    decreases outs.len(),
{
    if outs.len() > 0 {
        let rest = outs.drop_first();
        assert forall|i: int| 0 <= i < rest.len() implies passes(#[trigger] rest[i]) by {
            assert(rest[i] == outs[i + 1]);
        }
        assert(passes(outs[0]));
        lemma_all_pass(rest);
    }
}

/// The progress of one call through its taps, in running order.
pub struct Dispatch<R, E> {
    order: Vec<usize>,
    pos: usize,
    stopped: bool,
    seen: Ghost<Seq<Result<Option<R>, E>>>,
}

impl<R, E> Dispatch<R, E> {
    /// The positions of the taps, in running order.
    pub closed spec fn order(&self) -> Seq<usize> {
        self.order@
    }

    /// What the taps that ran so far returned.
    pub closed spec fn seen(&self) -> Seq<Result<Option<R>, E>> {
        self.seen@
    }

    /// A tap returned an error or a value: no further tap runs.
    pub closed spec fn stopped(&self) -> bool {
        self.stopped
    }

    pub closed spec fn wf(&self) -> bool {
        &&& self.pos == self.seen@.len()
        &&& self.seen@.len() <= self.order@.len()
        &&& self.stopped <==> (self.seen@.len() > 0 && !passes(self.seen@.last()))
        &&& forall|i: int| 0 <= i < self.seen@.len() - 1 ==> passes(#[trigger] self.seen@[i])
    }

    /// A call that is about to run the taps at the positions `order`, in turn.
    pub fn new(order: Vec<usize>) -> (d: Self)
        ensures
            d.wf(),
            d.order() == order@,
            d.seen() == Seq::<Result<Option<R>, E>>::empty(),
            !d.stopped(),
    {
        Dispatch { order, pos: 0, stopped: false, seen: Ghost(Seq::empty()) }
    }

    /// The position of the tap to run next, if one is still to run.
    pub fn next_tap(&self) -> (r: Option<usize>)
        requires
            self.wf(),
        ensures
            r == (if self.stopped() || self.seen().len() == self.order().len() {
                None::<usize>
            } else {
                Some(self.order()[self.seen().len() as int])
            }),
            self.seen().len() <= self.order().len(),
    {
        if self.stopped || self.pos == self.order.len() {
            None
        } else {
            Some(self.order[self.pos])
        }
    }

    /// Takes what the tap that just ran returned; gives the call's result
    /// when that tap decided, `None` when the call goes on.
    pub fn record(&mut self, outcome: Result<Option<R>, E>) -> (r: Option<Result<Option<R>, E>>)
        requires
            old(self).wf(),
            !old(self).stopped(),
            old(self).seen().len() < old(self).order().len(),
        ensures
            final(self).wf(),
            final(self).order() == old(self).order(),
            final(self).seen() == old(self).seen().push(outcome),
            final(self).stopped() == !passes(outcome),
            r == (if passes(outcome) {
                None::<Result<Option<R>, E>>
            } else {
                Some(outcome)
            }),
            final(self).stopped() ==> call_outcome(final(self).seen()) == outcome,
            !final(self).stopped() ==> call_outcome(final(self).seen()) == Ok::<Option<R>, E>(
                None,
            ),
            taps_run(final(self).seen()) == final(self).seen().len(),
    {
        let ghost before = self.seen@;
        assert(self.pos < self.order.len());
        self.pos = self.pos + 1;
        self.seen = Ghost(before.push(outcome));
        proof {
            let s = before.push(outcome);
            assert forall|i: int| 0 <= i < before.len() implies passes(#[trigger] s[i]) by {
                assert(s[i] == before[i]);
                if i == before.len() - 1 {
                    assert(before.last() == before[i]);
                }
            }
            if passes(outcome) {
                assert forall|i: int| 0 <= i < s.len() implies passes(#[trigger] s[i]) by {
                    if i < before.len() {
                        assert(s[i] == before[i]);
                    }
                }
                lemma_all_pass(s);
            } else {
                lemma_short_circuit(s, before.len() as int);
            }
        }
        match outcome {
            Ok(None) => None,
            other => {
                self.stopped = true;
                Some(other)
            },
        }
    }
}

} // verus!
