use vstd::prelude::*;

verus! {

/// Selects the formula that a dispatching distance call applies.
#[derive(Clone, Copy, Debug, PartialEq, Eq, Structural)]
pub enum DistanceMeasure {
    Euclidean,
    Cosine,
    Manhattan,
    RMSE,
}

/// What a distance call evaluates to, decided from the shapes of its inputs
/// and the selected measure alone.
#[derive(Clone, Copy, Debug, PartialEq, Eq, Structural)]
pub enum Evaluation {
    /// No formula applies: the call yields the NaN sentinel.
    Undefined,
    /// The formula of this measure is applied to the inputs.
    Formula(DistanceMeasure),
}

/// Two vectors are comparable when they have the same length.
pub open spec fn comparable(a_len: nat, b_len: nat) -> bool {
    a_len == b_len
}

/// A weighted call needs both vectors and the weights to share one length.
pub open spec fn comparable_weighted(a_len: nat, b_len: nat, w_len: nat) -> bool {
    a_len == b_len && a_len == w_len
}

/// Every measure but root-mean-square error has a weighted formula.
pub open spec fn has_weighted_formula(m: DistanceMeasure) -> bool {
    m != DistanceMeasure::RMSE
}

pub open spec fn spec_evaluation(a_len: nat, b_len: nat, m: DistanceMeasure) -> Evaluation {
    if comparable(a_len, b_len) {
        Evaluation::Formula(m)
    } else {
        Evaluation::Undefined
    }
}

pub open spec fn spec_evaluation_weighted(
    a_len: nat,
    b_len: nat,
    w_len: nat,
    m: DistanceMeasure,
) -> Evaluation {
    if comparable_weighted(a_len, b_len, w_len) && has_weighted_formula(m) {
        Evaluation::Formula(m)
    } else {
        Evaluation::Undefined
    }
}

/// Decides what `distance(a, b, measure)` evaluates: the measure's formula
/// when `a` and `b` have the same length, the NaN sentinel otherwise.
pub fn evaluation<T>(a: &Vec<T>, b: &Vec<T>, measure: DistanceMeasure) -> (r: Evaluation)
    ensures
        r == spec_evaluation(a@.len(), b@.len(), measure),
        r == Evaluation::Undefined <==> a@.len() != b@.len(),
{
    if a.len() == b.len() {
        Evaluation::Formula(measure)
    } else {
        Evaluation::Undefined
    }
}

/// Decides what `distance_weighted(a, b, weights, measure)` evaluates: the
/// measure's weighted formula when all three have one length and the measure
/// has a weighted formula, the NaN sentinel otherwise.
pub fn evaluation_weighted<T>(
    a: &Vec<T>,
    b: &Vec<T>,
    weights: &Vec<T>,
    measure: DistanceMeasure,
) -> (r: Evaluation)
    ensures
        r == spec_evaluation_weighted(a@.len(), b@.len(), weights@.len(), measure),
        measure == DistanceMeasure::RMSE ==> r == Evaluation::Undefined,
        a@.len() != b@.len() || a@.len() != weights@.len() ==> r == Evaluation::Undefined,
{
    match measure {
        DistanceMeasure::RMSE => Evaluation::Undefined,
        DistanceMeasure::Euclidean | DistanceMeasure::Cosine | DistanceMeasure::Manhattan => {
            if a.len() == b.len() && a.len() == weights.len() {
                Evaluation::Formula(measure)
            } else {
                Evaluation::Undefined
            }
        },
    }
}

/// A call on vectors of different lengths yields the NaN sentinel, whichever
/// measure is selected and whether or not it is weighted.
pub proof fn lemma_mismatch_is_undefined(a_len: nat, b_len: nat, w_len: nat, m: DistanceMeasure)
    requires
        a_len != b_len,
    ensures
        spec_evaluation(a_len, b_len, m) == Evaluation::Undefined,
        spec_evaluation_weighted(a_len, b_len, w_len, m) == Evaluation::Undefined,
{
}

/// A weighted call whose weights differ in length from the vectors yields the
/// NaN sentinel, whichever measure is selected.
pub proof fn lemma_weights_mismatch_is_undefined(n: nat, w_len: nat, m: DistanceMeasure)
    requires
        n != w_len,
    ensures
        spec_evaluation_weighted(n, n, w_len, m) == Evaluation::Undefined,
{
}

/// Dispatch applies exactly the selected measure: on comparable vectors the
/// unweighted call evaluates the formula of `m`, and the weighted call, where
/// `m` has a weighted formula, decides as the unweighted one does.
pub proof fn lemma_dispatch_selects_measure(n: nat, m: DistanceMeasure)
    ensures
        spec_evaluation(n, n, m) == Evaluation::Formula(m),
        has_weighted_formula(m) ==> spec_evaluation_weighted(n, n, n, m) == spec_evaluation(n, n, m),
{
}

/// Weighted root-mean-square error is undefined on every input.
pub proof fn lemma_weighted_rmse_is_undefined(a_len: nat, b_len: nat, w_len: nat)
    ensures
        spec_evaluation_weighted(a_len, b_len, w_len, DistanceMeasure::RMSE) == Evaluation::Undefined,
{
}

} // verus!
