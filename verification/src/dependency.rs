use vstd::prelude::*;

use crate::types::Position;

verus! {

/// Step `o` must wait for step `i`: `i` delivers an item to the cell that `o` takes
/// an item from. `srcs[j]` is the cell step `j` takes from and `dsts[j]` the cell
/// it delivers to, where it has one.
pub open spec fn depends(
    srcs: Seq<Option<Position>>,
    dsts: Seq<Option<Position>>,
    i: int,
    o: int,
) -> bool {
    &&& i != o
    &&& dsts[i] is Some
    &&& dsts[i] == srcs[o]
}

/// The split of `order` at `k`: the first `k` entries come after every step they
/// depend on; each later entry depends on another later entry, and the later entries
/// follow in index order.
pub open spec fn splits_at(
    srcs: Seq<Option<Position>>,
    dsts: Seq<Option<Position>>,
    order: Seq<usize>,
    k: int,
) -> bool {
    let n = srcs.len();
    &&& 0 <= k <= n
    &&& forall|p: int, q: int|
        0 <= q < k && 0 <= p < n && #[trigger] depends(
            srcs,
            dsts,
            order[p] as int,
            order[q] as int,
        ) ==> p < q
    &&& forall|q: int| k <= q < n ==> #[trigger] waits_within(srcs, dsts, order, k, q)
    &&& forall|q1: int, q2: int| k <= q1 < q2 < n ==> order[q1] < order[q2]
}

/// The step at position `q` of `order` depends on a step at a position from `k` on.
pub open spec fn waits_within(
    srcs: Seq<Option<Position>>,
    dsts: Seq<Option<Position>>,
    order: Seq<usize>,
    k: int,
    q: int,
) -> bool {
    exists|p: int| k <= p < srcs.len() && #[trigger] depends(srcs, dsts, order[p] as int, order[q] as int)
}

/// `order` lists every step index exactly once. A first part of it puts every step
/// after all the steps it depends on; the steps of the rest each depend on another
/// step of the rest (they wait in a cycle or behind one), and follow in index order.
pub open spec fn is_dependency_order(
    srcs: Seq<Option<Position>>,
    dsts: Seq<Option<Position>>,
    order: Seq<usize>,
) -> bool {
    let n = srcs.len();
    &&& order.len() == n
    &&& order.no_duplicates()
    &&& forall|q: int| 0 <= q < n ==> order[q] < n
    &&& exists|k: int| #[trigger] splits_at(srcs, dsts, order, k)
}

/// The number of steps below `upto` that `o` depends on and that are not yet done.
pub open spec fn preds_left(
    srcs: Seq<Option<Position>>,
    dsts: Seq<Option<Position>>,
    done: Seq<bool>,
    o: int,
    upto: int,
) -> nat
    decreases upto,
{
    if upto <= 0 {
        0
    } else {
        preds_left(srcs, dsts, done, o, upto - 1) + if depends(srcs, dsts, upto - 1, o)
            && !done[upto - 1] {
            1nat
        } else {
            0nat
        }
    }
}

/// The number of flags below `upto` that are set.
pub open spec fn count_done(done: Seq<bool>, upto: int) -> nat
    decreases upto,
{
    if upto <= 0 {
        0
    } else {
        count_done(done, upto - 1) + if done[upto - 1] {
            1nat
        } else {
            0nat
        }
    }
}

proof fn lemma_preds_left_zero(
    srcs: Seq<Option<Position>>,
    dsts: Seq<Option<Position>>,
    done: Seq<bool>,
    o: int,
    upto: int,
)
    requires
        preds_left(srcs, dsts, done, o, upto) == 0,
    ensures
        forall|i: int| 0 <= i < upto && depends(srcs, dsts, i, o) ==> done[i],
    decreases upto,
{
    if upto > 0 {
        lemma_preds_left_zero(srcs, dsts, done, o, upto - 1);
    }
}

proof fn lemma_preds_left_positive(
    srcs: Seq<Option<Position>>,
    dsts: Seq<Option<Position>>,
    done: Seq<bool>,
    o: int,
    upto: int,
) -> (i: int)
    requires
        preds_left(srcs, dsts, done, o, upto) > 0,
    ensures
        0 <= i < upto,
        depends(srcs, dsts, i, o),
        !done[i],
    decreases upto,
{
    if upto <= 0 {
        0
    } else if depends(srcs, dsts, upto - 1, o) && !done[upto - 1] {
        upto - 1
    } else {
        lemma_preds_left_positive(srcs, dsts, done, o, upto - 1)
    }
}

proof fn lemma_preds_left_flip(
    srcs: Seq<Option<Position>>,
    dsts: Seq<Option<Position>>,
    done: Seq<bool>,
    x: int,
    o: int,
    upto: int,
)
    requires
        0 <= x < done.len(),
        !done[x],
        upto <= done.len(),
    ensures
        preds_left(srcs, dsts, done.update(x, true), o, upto) + (if x < upto && depends(
            srcs,
            dsts,
            x,
            o,
        ) {
            1int
        } else {
            0int
        }) == preds_left(srcs, dsts, done, o, upto),
    decreases upto,
{
    if upto > 0 {
        lemma_preds_left_flip(srcs, dsts, done, x, o, upto - 1);
    }
}

proof fn lemma_count_done_flip(done: Seq<bool>, x: int, upto: int)
    requires
        0 <= x < done.len(),
        !done[x],
        upto <= done.len(),
    ensures
        count_done(done.update(x, true), upto) == count_done(done, upto) + if x < upto {
            1int
        } else {
            0int
        },
    decreases upto,
{
    if upto > 0 {
        lemma_count_done_flip(done, x, upto - 1);
    }
}

proof fn lemma_count_done_none(done: Seq<bool>, upto: int)
    requires
        forall|t: int| 0 <= t < upto ==> !done[t],
    ensures
        count_done(done, upto) == 0,
    decreases upto,
{
    if upto > 0 {
        lemma_count_done_none(done, upto - 1);
    }
}

proof fn lemma_count_done_bound(done: Seq<bool>, upto: int)
    requires
        0 <= upto,
    ensures
        count_done(done, upto) <= upto,
    decreases upto,
{
    if upto > 0 {
        lemma_count_done_bound(done, upto - 1);
    }
}

proof fn lemma_push_contains<A>(s: Seq<A>, v: A, x: A)
    ensures
        s.push(v).contains(x) <==> (s.contains(x) || x == v),
{
    if s.contains(x) {
        let a = choose|a: int| 0 <= a < s.len() && s[a] == x;
        assert(s.push(v)[a] == x);
    }
    if x == v {
        assert(s.push(v)[s.len() as int] == x);
    }
    if s.push(v).contains(x) {
        let a = choose|a: int| 0 <= a < s.push(v).len() && s.push(v)[a] == x;
        if a < s.len() {
            assert(s[a] == x);
        }
    }
}

proof fn lemma_move_last(a: Seq<usize>, b: Seq<usize>, x: usize)
    requires
        (a + b.push(x)).no_duplicates(),
    ensures
        (a.push(x) + b).no_duplicates(),
{
    let old_s = a + b.push(x);
    let new_s = a.push(x) + b;
    // position in the old sequence of each position of the new one
    assert forall|i: int, j: int| 0 <= i < new_s.len() && 0 <= j < new_s.len() && i != j implies new_s[i]
        != new_s[j] by {
        let oi = if i < a.len() {
            i
        } else if i == a.len() {
            old_s.len() - 1
        } else {
            i - 1
        };
        let oj = if j < a.len() {
            j
        } else if j == a.len() {
            old_s.len() - 1
        } else {
            j - 1
        };
        assert(new_s[i] == old_s[oi]);
        assert(new_s[j] == old_s[oj]);
    }
}

/// No step is done.
pub open spec fn none_done(n: nat) -> Seq<bool> {
    Seq::new(n, |t: int| false)
}

fn depends_exec(
    srcs: &Vec<Option<Position>>,
    dsts: &Vec<Option<Position>>,
    i: usize,
    o: usize,
) -> (b: bool)
    requires
        i < srcs.len(),
        o < srcs.len(),
        srcs.len() == dsts.len(),
    ensures
        b == depends(srcs@, dsts@, i as int, o as int),
{
    if i == o {
        return false;
    }
    match (dsts[i], srcs[o]) {
        (Some(a), Some(b)) => a == b,
        _ => false,
    }
}

/// For every step, the number of steps it depends on.
fn initial_remaining(srcs: &Vec<Option<Position>>, dsts: &Vec<Option<Position>>) -> (remaining: Vec<usize>)
    requires
        srcs.len() == dsts.len(),
    ensures
        remaining.len() == srcs.len(),
        forall|t: int|
            0 <= t < srcs.len() ==> remaining@[t] == preds_left(
                srcs@,
                dsts@,
                none_done(srcs.len() as nat),
                t,
                srcs.len() as int,
            ),
{
    let n = srcs.len();
    let ghost none = none_done(n as nat);
    let mut remaining: Vec<usize> = Vec::new();
    let mut o: usize = 0;
    while o < n
        invariant
            o <= n,
            n == srcs.len(),
            srcs.len() == dsts.len(),
            none == none_done(n as nat),
            remaining.len() == o,
            forall|t: int|
                0 <= t < o ==> remaining@[t] == preds_left(srcs@, dsts@, none, t, n as int),
        decreases n - o,
    {
        let mut c: usize = 0;
        let mut i: usize = 0;
        while i < n
            invariant
                i <= n,
                o < n,
                n == srcs.len(),
                srcs.len() == dsts.len(),
                none == none_done(n as nat),
                c == preds_left(srcs@, dsts@, none, o as int, i as int),
                c <= i,
            decreases n - i,
        {
            if depends_exec(srcs, dsts, i, o) {
                c = c + 1;
            }
            i = i + 1;
        }
        remaining.push(c);
        o = o + 1;
    }
    remaining
}

/// The steps that wait for nothing, in index order.
fn initial_stack(remaining: &Vec<usize>) -> (stack: Vec<usize>)
    ensures
        stack@.no_duplicates(),
        forall|t: int| 0 <= t < stack.len() ==> stack@[t] < remaining.len(),
        forall|t: int|
            0 <= t < remaining.len() ==> (stack@.contains(t as usize) <==> remaining@[t] == 0),
{
    let n = remaining.len();
    let mut stack: Vec<usize> = Vec::new();
    let mut i: usize = 0;
    while i < n
        invariant
            i <= n,
            n == remaining.len(),
            stack@.no_duplicates(),
            forall|t: int| 0 <= t < stack.len() ==> stack@[t] < i,
            forall|t: int|
                0 <= t < n ==> (stack@.contains(t as usize) <==> (t < i && remaining@[t] == 0)),
        decreases n - i,
    {
        if remaining[i] == 0 {
            proof {
                assert forall|t: int| 0 <= t < n implies (stack@.push(i).contains(t as usize) <==> (
                t < i + 1 && remaining@[t] == 0)) by {
                    lemma_push_contains(stack@, i, t as usize);
                }
            }
            stack.push(i);
        } else {
            proof {
                assert forall|t: int| 0 <= t < n implies (stack@.contains(t as usize) <==> (t < i + 1
                    && remaining@[t] == 0)) by {}
            }
        }
        i = i + 1;
    }
    stack
}

/// The bookkeeping of the ordering: `sorted` holds the steps placed so far and
/// `done` flags them; `stack` holds the steps that wait for nothing any more;
/// `remaining` counts, per step, the steps it still waits for.
pub open spec fn ordering_state(
    srcs: Seq<Option<Position>>,
    dsts: Seq<Option<Position>>,
    done: Seq<bool>,
    remaining: Seq<usize>,
    stack: Seq<usize>,
    sorted: Seq<usize>,
) -> bool {
    let n = srcs.len();
    &&& dsts.len() == n
    &&& done.len() == n
    &&& remaining.len() == n
    &&& forall|t: int| 0 <= t < sorted.len() ==> sorted[t] < n
    &&& forall|t: int| 0 <= t < stack.len() ==> stack[t] < n
    &&& (sorted + stack).no_duplicates()
    &&& forall|t: int| 0 <= t < n ==> (done[t] <==> sorted.contains(t as usize))
    &&& forall|t: int| 0 <= t < n ==> remaining[t] == preds_left(srcs, dsts, done, t, n as int)
    &&& forall|t: int|
        0 <= t < n ==> ((sorted.contains(t as usize) || stack.contains(t as usize)) <==> remaining[t]
            == 0)
    &&& sorted.len() == count_done(done, n as int)
    &&& forall|p: int, q: int|
        0 <= p < sorted.len() && 0 <= q < sorted.len() && #[trigger] depends(
            srcs,
            dsts,
            sorted[p] as int,
            sorted[q] as int,
        ) ==> p < q
    &&& forall|q: int, t: int|
        0 <= q < sorted.len() && 0 <= t < n && #[trigger] depends(srcs, dsts, t, sorted[q] as int)
            ==> done[t]
}

/// After step `i` is placed: every step that depended on it waits for one step less,
/// and those that now wait for nothing go on the stack.
fn release_dependents(
    srcs: &Vec<Option<Position>>,
    dsts: &Vec<Option<Position>>,
    i: usize,
    before: Ghost<Seq<bool>>,
    done: &Vec<bool>,
    remaining: &mut Vec<usize>,
    stack: &mut Vec<usize>,
    sorted: &Vec<usize>,
)
    requires
        srcs.len() == dsts.len(),
        i < srcs.len(),
        done.len() == srcs.len(),
        old(remaining).len() == srcs.len(),
        before@.len() == srcs.len(),
        !before@[i as int],
        done@ == before@.update(i as int, true),
        forall|t: int| 0 <= t < sorted.len() ==> sorted@[t] < srcs.len(),
        forall|t: int| 0 <= t < old(stack).len() ==> old(stack)@[t] < srcs.len(),
        (sorted@ + old(stack)@).no_duplicates(),
        forall|t: int|
            0 <= t < srcs.len() ==> old(remaining)@[t] == preds_left(
                srcs@,
                dsts@,
                before@,
                t,
                srcs.len() as int,
            ),
        forall|t: int|
            0 <= t < srcs.len() ==> ((sorted@.contains(t as usize) || old(stack)@.contains(
                t as usize,
            )) <==> old(remaining)@[t] == 0),
    ensures
        final(remaining).len() == srcs.len(),
        forall|t: int| 0 <= t < final(stack).len() ==> final(stack)@[t] < srcs.len(),
        (sorted@ + final(stack)@).no_duplicates(),
        forall|t: int|
            0 <= t < srcs.len() ==> final(remaining)@[t] == preds_left(
                srcs@,
                dsts@,
                done@,
                t,
                srcs.len() as int,
            ),
        forall|t: int|
            0 <= t < srcs.len() ==> ((sorted@.contains(t as usize) || final(stack)@.contains(
                t as usize,
            )) <==> final(remaining)@[t] == 0),
{
    let n = srcs.len();
    let mut o: usize = 0;
    while o < n
        invariant
            o <= n,
            i < n,
            n == srcs.len(),
            srcs.len() == dsts.len(),
            done.len() == n,
            remaining.len() == n,
            before@.len() == n,
            !before@[i as int],
            done@ == before@.update(i as int, true),
            forall|t: int| 0 <= t < sorted.len() ==> sorted@[t] < n,
            forall|t: int| 0 <= t < stack.len() ==> stack@[t] < n,
            (sorted@ + stack@).no_duplicates(),
            forall|t: int|
                0 <= t < o ==> remaining@[t] == preds_left(srcs@, dsts@, done@, t, n as int),
            forall|t: int|
                o <= t < n ==> remaining@[t] == preds_left(srcs@, dsts@, before@, t, n as int),
            forall|t: int|
                0 <= t < n ==> ((sorted@.contains(t as usize) || stack@.contains(t as usize))
                    <==> remaining@[t] == 0),
        decreases n - o,
    {
        proof {
            lemma_preds_left_flip(srcs@, dsts@, before@, i as int, o as int, n as int);
        }
        if depends_exec(srcs, dsts, i, o) {
            let r = remaining[o] - 1;
            remaining.set(o, r);
            if r == 0 {
                let ghost prev = stack@;
                proof {
                    assert(!sorted@.contains(o));
                    assert(!prev.contains(o));
                    assert(sorted@ + prev.push(o) =~= (sorted@ + prev).push(o));
                    lemma_push_contains(sorted@ + prev, o, o);
                    assert forall|a: int| 0 <= a < (sorted@ + prev).len() implies (sorted@ + prev)[a]
                        != o by {
                        if a < sorted.len() {
                            assert(sorted@[a] == (sorted@ + prev)[a]);
                        } else {
                            assert(prev[a - sorted.len()] == (sorted@ + prev)[a]);
                        }
                    }
                    assert forall|t: int|
                        0 <= t < n implies ((sorted@.contains(t as usize) || prev.push(o).contains(
                        t as usize,
                    )) <==> remaining@[t] == 0) by {
                        lemma_push_contains(prev, o, t as usize);
                    }
                }
                stack.push(o);
            }
        }
        o = o + 1;
    }
}

/// Appends, in index order, every step that is not flagged done.
fn append_waiting(sorted: &mut Vec<usize>, done: &Vec<bool>)
    requires
        old(sorted).len() == count_done(done@, done.len() as int),
        forall|t: int| 0 <= t < done.len() ==> (done@[t] <==> old(sorted)@.contains(t as usize)),
    ensures
        final(sorted).len() == done.len(),
        final(sorted)@.subrange(0, old(sorted).len() as int) == old(sorted)@,
        forall|t: int|
            old(sorted).len() <= t < final(sorted).len() ==> !done@[final(sorted)@[t] as int]
                && final(sorted)@[t] < done.len(),
        forall|t1: int, t2: int|
            old(sorted).len() <= t1 < t2 < final(sorted).len() ==> final(sorted)@[t1]
                < final(sorted)@[t2],
        forall|t: int|
            0 <= t < done.len() && !done@[t] ==> exists|a: int|
                old(sorted).len() <= a < final(sorted).len() && final(sorted)@[a] == t as usize,
{
    let n = done.len();
    let ghost k = sorted.len() as int;
    let ghost prefix = sorted@;
    let mut j: usize = 0;
    while j < n
        invariant
            j <= n,
            n == done.len(),
            prefix.len() == k,
            k == count_done(done@, n as int),
            sorted@.len() >= k,
            sorted@.subrange(0, k) == prefix,
            sorted.len() - k + count_done(done@, j as int) == j,
            forall|t: int| k <= t < sorted.len() ==> sorted@[t] < j && !done@[sorted@[t] as int],
            forall|t1: int, t2: int| k <= t1 < t2 < sorted.len() ==> sorted@[t1] < sorted@[t2],
            forall|t: int|
                0 <= t < j && !done@[t] ==> exists|a: int|
                    k <= a < sorted.len() && sorted@[a] == t as usize,
        decreases n - j,
    {
        if !done[j] {
            let ghost prev = sorted@;
            sorted.push(j);
            proof {
                assert(sorted@[sorted.len() - 1] == j);
                assert forall|t: int| 0 <= t < j + 1 && !done@[t] implies exists|a: int|
                    k <= a < sorted.len() && sorted@[a] == t as usize by {
                    if t < j {
                        let a = choose|a: int| k <= a < prev.len() && prev[a] == t as usize;
                        assert(sorted@[a] == t as usize);
                    } else {
                        assert(sorted@[sorted.len() - 1] == t as usize);
                    }
                }
            }
        }
        proof {
            assert(sorted@.subrange(0, k) =~= prefix);
        }
        j = j + 1;
    }
}

proof fn lemma_order_prefix(
    srcs: Seq<Option<Position>>,
    dsts: Seq<Option<Position>>,
    done: Seq<bool>,
    prefix: Seq<usize>,
    order: Seq<usize>,
)
    requires
        done.len() == srcs.len(),
        order.len() == srcs.len(),
        prefix.len() <= order.len(),
        forall|t: int| 0 <= t < prefix.len() ==> order[t] == prefix[t],
        forall|t: int| prefix.len() <= t < order.len() ==> !done[order[t] as int],
        forall|p: int, q: int|
            0 <= p < prefix.len() && 0 <= q < prefix.len() && #[trigger] depends(
                srcs,
                dsts,
                prefix[p] as int,
                prefix[q] as int,
            ) ==> p < q,
        forall|q: int, t: int|
            0 <= q < prefix.len() && 0 <= t < srcs.len() && #[trigger] depends(srcs, dsts, t, prefix[q] as int)
                ==> done[t],
        forall|t: int| 0 <= t < order.len() ==> order[t] < srcs.len(),
    ensures
        forall|p: int, q: int|
            0 <= q < prefix.len() && 0 <= p < srcs.len() && #[trigger] depends(
                srcs,
                dsts,
                order[p] as int,
                order[q] as int,
            ) ==> p < q,
{
    let k = prefix.len() as int;
    assert forall|p: int, q: int|
        0 <= q < k && 0 <= p < srcs.len() && #[trigger] depends(
            srcs,
            dsts,
            order[p] as int,
            order[q] as int,
        ) implies p < q by {
        assert(order[q] == prefix[q]);
        if p >= k {
            assert(depends(srcs, dsts, order[p] as int, prefix[q] as int));
            assert(!done[order[p] as int]);
        } else {
            assert(order[p] == prefix[p]);
        }
    }
}

proof fn lemma_order_waiting(
    srcs: Seq<Option<Position>>,
    dsts: Seq<Option<Position>>,
    done: Seq<bool>,
    k: int,
    order: Seq<usize>,
    q: int,
) -> (p: int)
    requires
        srcs.len() <= usize::MAX,
        done.len() == srcs.len(),
        order.len() == srcs.len(),
        0 <= k <= q < order.len(),
        preds_left(srcs, dsts, done, order[q] as int, srcs.len() as int) != 0,
        forall|t: int| k <= t < order.len() ==> !done[order[t] as int] && order[t] < srcs.len(),
        forall|t: int|
            0 <= t < done.len() && !done[t] ==> exists|a: int|
                k <= a < order.len() && order[a] == t as usize,
    ensures
        k <= p < srcs.len(),
        depends(srcs, dsts, order[p] as int, order[q] as int),
{
    let n = srcs.len();
    let o = order[q] as int;
    let t = lemma_preds_left_positive(srcs, dsts, done, o, n as int);
    let a = choose|a: int| k <= a < order.len() && order[a] == t as usize;
    a
}

proof fn lemma_ordering_result(
    srcs: Seq<Option<Position>>,
    dsts: Seq<Option<Position>>,
    done: Seq<bool>,
    remaining: Seq<usize>,
    prefix: Seq<usize>,
    order: Seq<usize>,
)
    requires
        done.len() == srcs.len(),
        forall|t: int| 0 <= t < prefix.len() ==> prefix[t] < srcs.len(),
        prefix.no_duplicates(),
        forall|t: int| 0 <= t < srcs.len() ==> (done[t] <==> prefix.contains(t as usize)),
        forall|t: int| 0 <= t < srcs.len() ==> remaining[t] == preds_left(srcs, dsts, done, t, srcs.len() as int),
        prefix.len() == count_done(done, srcs.len() as int),
        forall|p: int, q: int|
            0 <= p < prefix.len() && 0 <= q < prefix.len() && #[trigger] depends(
                srcs,
                dsts,
                prefix[p] as int,
                prefix[q] as int,
            ) ==> p < q,
        forall|q: int, t: int|
            0 <= q < prefix.len() && 0 <= t < srcs.len() && #[trigger] depends(srcs, dsts, t, prefix[q] as int)
                ==> done[t],
        forall|t: int| 0 <= t < srcs.len() ==> (prefix.contains(t as usize) <==> remaining[t] == 0),
        order.len() == done.len(),
        order.subrange(0, prefix.len() as int) == prefix,
        forall|t: int|
            prefix.len() <= t < order.len() ==> !done[order[t] as int] && order[t] < done.len(),
        forall|t1: int, t2: int| prefix.len() <= t1 < t2 < order.len() ==> order[t1] < order[t2],
        forall|t: int|
            0 <= t < done.len() && !done[t] ==> exists|a: int|
                prefix.len() <= a < order.len() && order[a] == t as usize,
        srcs.len() <= usize::MAX,
    ensures
        is_dependency_order(srcs, dsts, order),
{
    let n = srcs.len();
    let k = prefix.len() as int;
    lemma_count_done_bound(done, n as int);
    assert(order.subrange(0, k) == prefix);
    assert forall|t: int| 0 <= t < k implies order[t] == prefix[t] by {
        assert(order.subrange(0, k)[t] == order[t]);
    }
    lemma_order_distinct(done, prefix, order);
    lemma_order_prefix(srcs, dsts, done, prefix, order);
    assert forall|q: int| k <= q < n implies #[trigger] waits_within(srcs, dsts, order, k, q) by {
        let o = order[q] as int;
        assert(!done[o]);
        assert(!prefix.contains(o as usize));
        assert(remaining[o] != 0);
        let p = lemma_order_waiting(srcs, dsts, done, k, order, q);
        assert(depends(srcs, dsts, order[p] as int, order[q] as int));
    }
    assert(splits_at(srcs, dsts, order, k));
}

proof fn lemma_order_distinct(done: Seq<bool>, prefix: Seq<usize>, order: Seq<usize>)
    requires
        order.len() == done.len(),
        prefix.len() <= order.len(),
        forall|t: int| 0 <= t < prefix.len() ==> order[t] == prefix[t],
        forall|t: int| 0 <= t < prefix.len() ==> prefix[t] < done.len(),
        prefix.no_duplicates(),
        forall|t: int| 0 <= t < done.len() ==> (done[t] <==> prefix.contains(t as usize)),
        forall|t: int|
            prefix.len() <= t < order.len() ==> !done[order[t] as int] && order[t] < done.len(),
        forall|t1: int, t2: int| prefix.len() <= t1 < t2 < order.len() ==> order[t1] < order[t2],
    ensures
        order.no_duplicates(),
        forall|q: int| 0 <= q < order.len() ==> order[q] < done.len(),
{
    let k = prefix.len() as int;
    let suffix = order.subrange(k, order.len() as int);
    assert(order =~= prefix + suffix);
    assert forall|t1: int, t2: int| 0 <= t1 < prefix.len() && 0 <= t2 < suffix.len() implies prefix[t1]
        != suffix[t2] by {
        assert(done[prefix[t1] as int]) by {
            assert(prefix.contains(prefix[t1]));
        }
        assert(suffix[t2] == order[k + t2]);
    }
    assert(suffix.no_duplicates()) by {
        assert forall|a: int, b: int| 0 <= a < suffix.len() && 0 <= b < suffix.len() && a
            != b implies suffix[a] != suffix[b] by {
            assert(suffix[a] == order[k + a]);
            assert(suffix[b] == order[k + b]);
        }
    }
    vstd::seq_lib::lemma_no_dup_in_concat(prefix, suffix);
    assert forall|q: int| 0 <= q < order.len() implies order[q] < done.len() by {
        if q < k {
            assert(order[q] == prefix[q]);
        }
    }
}

/// Orders the steps so that each step comes after the steps it depends on, as far
/// as dependency cycles allow; steps held up by a cycle come last in index order.
pub fn dependency_order(srcs: &Vec<Option<Position>>, dsts: &Vec<Option<Position>>) -> (order: Vec<
    usize,
>)
    requires
        srcs.len() == dsts.len(),
    ensures
        is_dependency_order(srcs@, dsts@, order@),
{
    let n = srcs.len();
    let mut done: Vec<bool> = Vec::new();
    let mut j: usize = 0;
    while j < n
        invariant
            j <= n,
            done.len() == j,
            forall|t: int| 0 <= t < j ==> !done@[t],
        decreases n - j,
    {
        done.push(false);
        j = j + 1;
    }
    assert(done@ =~= none_done(n as nat));
    let mut remaining = initial_remaining(srcs, dsts);
    let mut stack = initial_stack(&remaining);
    let mut sorted: Vec<usize> = Vec::new();
    proof {
        assert(sorted@ + stack@ =~= stack@);
        lemma_count_done_none(done@, n as int);
    }
    loop
        invariant
            n == srcs.len(),
            ordering_state(srcs@, dsts@, done@, remaining@, stack@, sorted@),
        ensures
            n == srcs.len(),
            stack.len() == 0,
            ordering_state(srcs@, dsts@, done@, remaining@, stack@, sorted@),
        decreases n - sorted.len(),
    {
        proof {
            lemma_count_done_bound(done@, n as int);
        }
        let ghost prev_stack = stack@;
        let popped = stack.pop();
        match popped {
            None => {
                break ;
            },
            Some(i) => {
                let ghost prev_sorted = sorted@;
                let ghost before = done@;
                proof {
                    assert(prev_stack =~= stack@.push(i));
                    assert(prev_stack[prev_stack.len() - 1] == i);
                    assert(prev_stack.contains(i));
                    let all = prev_sorted + prev_stack;
                    assert(all[all.len() - 1] == i);
                    assert(!prev_sorted.contains(i)) by {
                        if prev_sorted.contains(i) {
                            let a = choose|a: int| 0 <= a < prev_sorted.len() && prev_sorted[a] == i;
                            assert(all[a] == i);
                        }
                    }
                    assert(remaining@[i as int] == 0);
                    lemma_preds_left_zero(srcs@, dsts@, before, i as int, n as int);
                    lemma_count_done_flip(before, i as int, n as int);
                }
                sorted.push(i);
                done.set(i, true);
                proof {
                    assert(prev_sorted + prev_stack =~= prev_sorted + stack@.push(i));
                    lemma_move_last(prev_sorted, stack@, i);
                    assert(sorted@ =~= prev_sorted.push(i));
                    assert forall|t: int| 0 <= t < n implies (done@[t] <==> sorted@.contains(
                        t as usize,
                    )) by {
                        lemma_push_contains(prev_sorted, i, t as usize);
                    }
                    assert forall|t: int|
                        0 <= t < n implies ((sorted@.contains(t as usize) || stack@.contains(
                        t as usize,
                    )) <==> remaining@[t] == 0) by {
                        lemma_push_contains(prev_sorted, i, t as usize);
                        lemma_push_contains(stack@, i, t as usize);
                    }
                    assert forall|p: int, q: int|
                        0 <= p < sorted.len() && 0 <= q < sorted.len() && #[trigger] depends(
                            srcs@,
                            dsts@,
                            sorted@[p] as int,
                            sorted@[q] as int,
                        ) implies p < q by {
                        if p == sorted.len() - 1 && q < p {
                            assert(depends(srcs@, dsts@, i as int, prev_sorted[q] as int));
                        }
                    }
                    assert forall|q: int, t: int|
                        0 <= q < sorted.len() && 0 <= t < n && #[trigger] depends(
                            srcs@,
                            dsts@,
                            t,
                            sorted@[q] as int,
                        ) implies done@[t] by {
                        if q < prev_sorted.len() {
                            assert(depends(srcs@, dsts@, t, prev_sorted[q] as int));
                        }
                    }
                }
                release_dependents(
                    srcs,
                    dsts,
                    i,
                    Ghost(before),
                    &done,
                    &mut remaining,
                    &mut stack,
                    &sorted,
                );
                proof {
                    lemma_count_done_bound(done@, n as int);
                }
            },
        }
    }
    let ghost k = sorted.len() as int;
    let ghost prefix = sorted@;
    proof {
        assert(sorted@ + stack@ =~= sorted@);
        assert(stack@ =~= Seq::<usize>::empty());
        assert forall|t: int| 0 <= t < n implies (sorted@.contains(t as usize) <==> remaining@[t] == 0) by {
            assert(!stack@.contains(t as usize));
        }
    }
    append_waiting(&mut sorted, &done);
    proof {
        assert(prefix + Seq::<usize>::empty() =~= prefix);
        lemma_ordering_result(srcs@, dsts@, done@, remaining@, prefix, sorted@);
    }
    sorted
}

} // verus!
