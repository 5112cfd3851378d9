use vstd::prelude::*;

verus! {

/// Tap `a` runs before tap `b`: a lower stage first, and among equal stages
/// the one registered earlier.
pub open spec fn runs_before(stages: Seq<i32>, a: int, b: int) -> bool {
    stages[a] < stages[b] || (stages[a] == stages[b] && a < b)
}

/// `order` names every position of `stages` once, in the order in which the
/// taps at those positions run: a stable sort by stage.
pub open spec fn is_execution_order(stages: Seq<i32>, order: Seq<usize>) -> bool {
    &&& order.len() == stages.len()
    &&& forall|i: int| 0 <= i < order.len() ==> (order[i] as int) < stages.len()
    &&& forall|k: usize| (k as int) < stages.len() ==> order.contains(k)
    &&& forall|i: int, j: int|
        0 <= i < j < order.len() ==> runs_before(stages, order[i] as int, order[j] as int)
}

/// `r` holds each stage value of `stages` once, in ascending order.
pub open spec fn is_used_stages(stages: Seq<i32>, r: Seq<i32>) -> bool {
    &&& forall|i: int, j: int| 0 <= i < j < r.len() ==> r[i] < r[j]
    &&& forall|x: i32| r.contains(x) <==> stages.contains(x)
}

/// In a running order of registered taps followed by supplied ones, stages
/// never decrease, and among equal stages registered taps run before supplied
/// ones, each group in the order it came in.
pub proof fn lemma_running_order(
    registered: Seq<i32>,
    supplied: Seq<i32>,
    order: Seq<usize>,
    i: int,
    j: int,
)
    requires
        is_execution_order(registered + supplied, order),
        0 <= i < j < order.len(),
    ensures
        ({
            let all = registered + supplied;
            &&& all[order[i] as int] <= all[order[j] as int]
            &&& all[order[i] as int] == all[order[j] as int] ==> order[i] < order[j]
            &&& all[order[i] as int] == all[order[j] as int] && (order[j] as int)
                < registered.len() ==> (order[i] as int) < registered.len()
        }),
{
    assert(runs_before(registered + supplied, order[i] as int, order[j] as int));
}

/// Running orders of one list of stages agree up to position `i`.
proof fn lemma_orders_agree_upto(stages: Seq<i32>, a: Seq<usize>, b: Seq<usize>, i: int)
    requires
        is_execution_order(stages, a),
        is_execution_order(stages, b),
        0 <= i <= a.len(),
    ensures
        forall|k: int| 0 <= k < i ==> a[k] == b[k],
    decreases i,
{
    if i > 0 {
        lemma_orders_agree_upto(stages, a, b, i - 1);
        let m = i - 1;
        let x = a[m];
        let y = b[m];
        if x != y {
            assert(a.contains(y));
            let p = choose|p: int| 0 <= p < a.len() && a[p] == y;
            if p < m {
                assert(b[p] == y);
                assert(runs_before(stages, b[p] as int, b[m] as int));
            }
            assert(b.contains(x));
            let q = choose|q: int| 0 <= q < b.len() && b[q] == x;
            if q < m {
                assert(a[q] == x);
                assert(runs_before(stages, a[q] as int, a[m] as int));
            }
            assert(runs_before(stages, a[m] as int, a[p] as int));
            assert(runs_before(stages, b[m] as int, b[q] as int));
        }
    }
}

/// A list of stages has one running order: a hook that no longer changes
/// runs its taps in the same order on every call.
pub proof fn lemma_execution_order_unique(stages: Seq<i32>, a: Seq<usize>, b: Seq<usize>)
    requires
        is_execution_order(stages, a),
        is_execution_order(stages, b),
    ensures
        a == b,
{
    lemma_orders_agree_upto(stages, a, b, a.len() as int);
    assert(a =~= b);
}

/// The positions of `stages` in running order: ascending stage, and for equal
/// stages the order of registration.
pub fn execution_order(stages: &Vec<i32>) -> (order: Vec<usize>)
    ensures
        is_execution_order(stages@, order@),
{
    let n = stages.len();
    let mut order: Vec<usize> = Vec::new();
    let mut k: usize = 0;
    while k < n
        invariant
            n == stages.len(),
            k <= n,
            order@.len() == k,
            forall|i: int| 0 <= i < order@.len() ==> (order@[i] as int) < k,
            forall|m: usize| m < k ==> order@.contains(m),
            forall|i: int, j: int|
                0 <= i < j < order@.len() ==> runs_before(
                    stages@,
                    order@[i] as int,
                    order@[j] as int,
                ),
        decreases n - k,
    {
        let s = stages[k];
        let mut p: usize = 0;
        while p < order.len() && stages[order[p]] <= s
            invariant
                n == stages.len(),
                k < n,
                s == stages@[k as int],
                p <= order@.len(),
                forall|i: int| 0 <= i < order@.len() ==> (order@[i] as int) < k,
                forall|q: int| 0 <= q < p ==> stages@[order@[q] as int] <= s,
            decreases order@.len() - p,
        {
            p += 1;
        }
        proof {
            assert forall|q: int| p <= q < order@.len() implies s < stages@[order@[q] as int] by {
                if q > p {
                    assert(runs_before(stages@, order@[p as int] as int, order@[q] as int));
                }
            }
        }
        let ghost before = order@;
        order.insert(p, k);
        proof {
            assert(order@ == before.insert(p as int, k));
            assert forall|m: usize| m < k + 1 implies order@.contains(m) by {
                if m == k {
                    assert(order@[p as int] == k);
                } else {
                    assert(before.contains(m));
                    let w = choose|w: int| 0 <= w < before.len() && before[w] == m;
                    if w < p {
                        assert(order@[w] == m);
                    } else {
                        assert(order@[w + 1] == m);
                    }
                }
            }
            assert forall|i: int, j: int| 0 <= i < j < order@.len() implies runs_before(
                stages@,
                order@[i] as int,
                order@[j] as int,
            ) by {
                if i < p && j < p {
                    assert(order@[i] == before[i] && order@[j] == before[j]);
                } else if i < p && j == p {
                    assert(order@[i] == before[i]);
                } else if i < p {
                    assert(order@[i] == before[i] && order@[j] == before[j - 1]);
                } else if i == p {
                    assert(order@[j] == before[j - 1]);
                } else {
                    assert(order@[i] == before[i - 1] && order@[j] == before[j - 1]);
                }
            }
        }
        k += 1;
    }
    order
}

/// The distinct stage values of `stages`, ascending.
pub fn used_stages(stages: &Vec<i32>) -> (r: Vec<i32>)
    ensures
        is_used_stages(stages@, r@),
{
    let mut r: Vec<i32> = Vec::new();
    let mut k: usize = 0;
    while k < stages.len()
        invariant
            k <= stages.len(),
            forall|i: int, j: int| 0 <= i < j < r@.len() ==> r@[i] < r@[j],
            forall|x: i32| r@.contains(x) <==> stages@.take(k as int).contains(x),
        decreases stages.len() - k,
    {
        let s = stages[k];
        let mut p: usize = 0;
        while p < r.len() && r[p] < s
            invariant
                p <= r@.len(),
                forall|q: int| 0 <= q < p ==> r@[q] < s,
            decreases r@.len() - p,
        {
            p += 1;
        }
        let ghost before = r@;
        let ghost t1 = stages@.take(k as int);
        let ghost t2 = stages@.take(k + 1);
        proof {
            assert(t2 == t1.push(s));
        }
        if p < r.len() && r[p] == s {
            proof {
                assert forall|x: i32| t2.contains(x) implies r@.contains(x) by {
                    if x != s {
                        let w = choose|w: int| 0 <= w < t2.len() && t2[w] == x;
                        assert(t1[w] == x);
                    }
                }
            }
        } else {
            r.insert(p, s);
            proof {
                assert(r@ == before.insert(p as int, s));
                assert forall|q: int| p <= q < before.len() implies s < before[q] by {
                    if q > p {
                        assert(before[p as int] < before[q]);
                    }
                }
                assert forall|x: i32| r@.contains(x) <==> t2.contains(x) by {
                    if r@.contains(x) {
                        let w = choose|w: int| 0 <= w < r@.len() && r@[w] == x;
                        if w < p {
                            assert(before[w] == x);
                        } else if w > p {
                            assert(before[w - 1] == x);
                        }
                        if x == s {
                            assert(t2[k as int] == s);
                        } else {
                            assert(before.contains(x));
                            let v = choose|v: int| 0 <= v < t1.len() && t1[v] == x;
                            assert(t2[v] == x);
                        }
                    }
                    if t2.contains(x) {
                        if x == s {
                            assert(r@[p as int] == s);
                        } else {
                            let v = choose|v: int| 0 <= v < t2.len() && t2[v] == x;
                            assert(t1[v] == x);
                            assert(t1.contains(x));
                            assert(before.contains(x));
                            let w = choose|w: int| 0 <= w < before.len() && before[w] == x;
                            if w < p {
                                assert(r@[w] == x);
                            } else {
                                assert(r@[w + 1] == x);
                            }
                        }
                    }
                }
            }
        }
        k += 1;
    }
    proof {
        assert(stages@.take(stages@.len() as int) == stages@);
    }
    r
}

} // verus!
