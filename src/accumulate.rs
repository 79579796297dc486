use vstd::prelude::*;

verus! {

/// `trace` records a left-to-right reduction of `step` over the pairs
/// `(a[i], b[i])`: it starts at `init`, and each later entry is a result that
/// `step` may return on the entry before it and the next pair.
pub open spec fn is_pairwise_trace<T, A, F: Fn(A, T, T) -> A>(
    step: F,
    a: Seq<T>,
    b: Seq<T>,
    init: A,
    trace: Seq<A>,
) -> bool {
    &&& trace.len() == a.len() + 1
    &&& trace[0] == init
    &&& forall|i: int|
        #![trigger trace[i]] 0 <= i < a.len() ==> step.ensures((trace[i], a[i], b[i]), trace[i + 1])
}

/// As `is_pairwise_trace`, over the triples `(a[i], b[i], w[i])`.
pub open spec fn is_weighted_trace<T, A, F: Fn(A, T, T, T) -> A>(
    step: F,
    a: Seq<T>,
    b: Seq<T>,
    w: Seq<T>,
    init: A,
    trace: Seq<A>,
) -> bool {
    &&& trace.len() == a.len() + 1
    &&& trace[0] == init
    &&& forall|i: int|
        #![trigger trace[i]] 0 <= i < a.len() ==> step.ensures((trace[i], a[i], b[i], w[i]), trace[i + 1])
}

/// Reduces two vectors of one length index by index, in increasing order:
/// `step(... step(step(init, a[0], b[0]), a[1], b[1]) ..., a[n-1], b[n-1])`.
pub fn fold_pairs<T: Copy, A, F: Fn(A, T, T) -> A>(
    a: &Vec<T>,
    b: &Vec<T>,
    init: A,
    step: F,
) -> (r: A)
    requires
        a@.len() == b@.len(),
        forall|acc: A, i: int| 0 <= i < a@.len() ==> #[trigger] step.requires((acc, a@[i], b@[i])),
    ensures
        exists|trace: Seq<A>| is_pairwise_trace(step, a@, b@, init, trace) && trace.last() == r,
{
    let ghost mut trace: Seq<A> = seq![init];
    let mut acc = init;
    let mut i: usize = 0;
    while i < a.len()
        invariant
            a@.len() == b@.len(),
            i <= a@.len(),
            forall|acc: A, i: int| 0 <= i < a@.len() ==> #[trigger] step.requires((acc, a@[i], b@[i])),
            trace.len() == i + 1,
            trace[0] == init,
            trace.last() == acc,
            forall|j: int|
                0 <= j < i ==> #[trigger] step.ensures((trace[j], a@[j], b@[j]), trace[j + 1]),
        decreases a@.len() - i,
    {
        acc = step(acc, a[i], b[i]);
        proof {
            trace = trace.push(acc);
        }
        i += 1;
    }
    assert(is_pairwise_trace(step, a@, b@, init, trace));
    acc
}

/// Reduces two vectors and their weights, all of one length, index by index
/// in increasing order, as `fold_pairs` does with one more component.
pub fn fold_weighted<T: Copy, A, F: Fn(A, T, T, T) -> A>(
    a: &Vec<T>,
    b: &Vec<T>,
    weights: &Vec<T>,
    init: A,
    step: F,
) -> (r: A)
    requires
        a@.len() == b@.len(),
        a@.len() == weights@.len(),
        forall|acc: A, i: int|
            0 <= i < a@.len() ==> #[trigger] step.requires((acc, a@[i], b@[i], weights@[i])),
    ensures
        exists|trace: Seq<A>|
            is_weighted_trace(step, a@, b@, weights@, init, trace) && trace.last() == r,
{
    let ghost mut trace: Seq<A> = seq![init];
    let mut acc = init;
    let mut i: usize = 0;
    while i < a.len()
        invariant
            a@.len() == b@.len(),
            a@.len() == weights@.len(),
            i <= a@.len(),
            forall|acc: A, i: int|
                0 <= i < a@.len() ==> #[trigger] step.requires((acc, a@[i], b@[i], weights@[i])),
            trace.len() == i + 1,
            trace[0] == init,
            trace.last() == acc,
            forall|j: int|
                0 <= j < i ==> #[trigger] step.ensures(
                    (trace[j], a@[j], b@[j], weights@[j]),
                    trace[j + 1],
                ),
        decreases a@.len() - i,
    {
        acc = step(acc, a[i], b[i], weights[i]);
        proof {
            trace = trace.push(acc);
        }
        i += 1;
    }
    assert(is_weighted_trace(step, a@, b@, weights@, init, trace));
    acc
}


/// The reduction of the first `n` pairs with the spec function `g`:
/// `g(... g(g(init, a[0], b[0]), a[1], b[1]) ..., a[n-1], b[n-1])`.
pub open spec fn pairwise_fold<T, A>(
    g: spec_fn(A, T, T) -> A,
    a: Seq<T>,
    b: Seq<T>,
    init: A,
    n: nat,
) -> A
    decreases n,
{
    if n == 0 {
        init
    } else {
        g(pairwise_fold(g, a, b, init, (n - 1) as nat), a[n - 1], b[n - 1])
    }
}

/// The reduction of the first `n` triples with the spec function `g`.
pub open spec fn weighted_fold<T, A>(
    g: spec_fn(A, T, T, T) -> A,
    a: Seq<T>,
    b: Seq<T>,
    w: Seq<T>,
    init: A,
    n: nat,
) -> A
    decreases n,
{
    if n == 0 {
        init
    } else {
        g(weighted_fold(g, a, b, w, init, (n - 1) as nat), a[n - 1], b[n - 1], w[n - 1])
    }
}

/// A step that always returns what `g` gives leaves one possible trace: its
/// last entry is the reduction of all pairs with `g`.
pub proof fn lemma_pairwise_trace_is_fold<T, A, F: Fn(A, T, T) -> A>(
    step: F,
    g: spec_fn(A, T, T) -> A,
    a: Seq<T>,
    b: Seq<T>,
    init: A,
    trace: Seq<A>,
)
    requires
        is_pairwise_trace(step, a, b, init, trace),
        forall|acc: A, x: T, y: T, r: A| #[trigger] step.ensures((acc, x, y), r) ==> r == g(acc, x, y),
    ensures
        trace.last() == pairwise_fold(g, a, b, init, a.len()),
{
    lemma_pairwise_prefix(step, g, a, b, init, trace, a.len());
}

proof fn lemma_pairwise_prefix<T, A, F: Fn(A, T, T) -> A>(
    step: F,
    g: spec_fn(A, T, T) -> A,
    a: Seq<T>,
    b: Seq<T>,
    init: A,
    trace: Seq<A>,
    k: nat,
)
    requires
        k <= a.len(),
        is_pairwise_trace(step, a, b, init, trace),
        forall|acc: A, x: T, y: T, r: A| #[trigger] step.ensures((acc, x, y), r) ==> r == g(acc, x, y),
    ensures
        trace[k as int] == pairwise_fold(g, a, b, init, k),
    decreases k,
{
    if k > 0 {
        lemma_pairwise_prefix(step, g, a, b, init, trace, (k - 1) as nat);
        assert(step.ensures((trace[k - 1], a[k - 1], b[k - 1]), trace[k as int]));
    }
}

/// As `lemma_pairwise_trace_is_fold`, for a reduction that also reads weights.
pub proof fn lemma_weighted_trace_is_fold<T, A, F: Fn(A, T, T, T) -> A>(
    step: F,
    g: spec_fn(A, T, T, T) -> A,
    a: Seq<T>,
    b: Seq<T>,
    w: Seq<T>,
    init: A,
    trace: Seq<A>,
)
    requires
        is_weighted_trace(step, a, b, w, init, trace),
        forall|acc: A, x: T, y: T, z: T, r: A|
            #[trigger] step.ensures((acc, x, y, z), r) ==> r == g(acc, x, y, z),
    ensures
        trace.last() == weighted_fold(g, a, b, w, init, a.len()),
{
    lemma_weighted_prefix(step, g, a, b, w, init, trace, a.len());
}

proof fn lemma_weighted_prefix<T, A, F: Fn(A, T, T, T) -> A>(
    step: F,
    g: spec_fn(A, T, T, T) -> A,
    a: Seq<T>,
    b: Seq<T>,
    w: Seq<T>,
    init: A,
    trace: Seq<A>,
    k: nat,
)
    requires
        k <= a.len(),
        is_weighted_trace(step, a, b, w, init, trace),
        forall|acc: A, x: T, y: T, z: T, r: A|
            #[trigger] step.ensures((acc, x, y, z), r) ==> r == g(acc, x, y, z),
    ensures
        trace[k as int] == weighted_fold(g, a, b, w, init, k),
    decreases k,
{
    if k > 0 {
        lemma_weighted_prefix(step, g, a, b, w, init, trace, (k - 1) as nat);
        assert(step.ensures((trace[k - 1], a[k - 1], b[k - 1], w[k - 1]), trace[k as int]));
    }
}

} // verus!
