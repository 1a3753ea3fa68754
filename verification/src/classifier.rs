//! The classifier: a weight grid, an activation and a cutoff.
//!
//! A perceptron accepts an input where the sigmoid of its activation is
//! above a bias. The sigmoid rises with the activation, so this is a
//! cutoff on the activation itself: the least whole number whose sigmoid
//! is above the bias. The weights start at zero and change by rasters of
//! zeros and ones, so that they and the activation are whole numbers; the
//! classifier here computes in them and is given the cutoff.

use crate::cells::{
    binary, combined, combines, dot, lemma_product_sums, lemma_table_sum_le, load, rectangular, Rows,
};
use crate::grid::{add_in_place, subtract_in_place, sum_of, times, Grid};
use vstd::prelude::*;

verus! {

/// Whether `weights` call `inputs` a member of the class: the activation,
/// the dot product of the two grids, reaches `cutoff`.
pub open spec fn predicts(weights: Rows, inputs: Rows, width: nat, cutoff: i64) -> bool {
    dot(weights, inputs, width) >= cutoff
}

/// The weights after a sample that should be refused: where they accept
/// it, the sample is taken from them.
pub open spec fn after_positive(weights: Rows, sample: Rows, width: nat, cutoff: i64) -> Rows {
    if predicts(weights, sample, width, cutoff) {
        combined(weights, sample, -1)
    } else {
        weights
    }
}

/// The weights after a sample that should be accepted: where they refuse
/// it, the sample is added to them.
pub open spec fn after_negative(weights: Rows, sample: Rows, width: nat, cutoff: i64) -> Rows {
    if predicts(weights, sample, width, cutoff) {
        weights
    } else {
        combined(weights, sample, 1)
    }
}

/// The activation of `inputs` under `weights`.
pub fn activation(weights: &Grid, inputs: &Grid) -> (sum: i64)
    requires
        weights.wf(),
        inputs.wf(),
        weights.rows() == inputs.rows(),
        weights.columns() == inputs.columns(),
        load(weights@, inputs@, weights.columns()) <= i64::MAX,
    ensures
        sum == dot(weights@, inputs@, weights.columns()),
{
    proof {
        lemma_product_sums(weights@, inputs@, weights.columns());
    }
    let products: Grid = times(weights, inputs);
    sum_of(&products)
}

/// Whether the activation of `inputs` under `weights` reaches `cutoff`.
pub fn predict(weights: &Grid, inputs: &Grid, cutoff: i64) -> (accepted: bool)
    requires
        weights.wf(),
        inputs.wf(),
        weights.rows() == inputs.rows(),
        weights.columns() == inputs.columns(),
        load(weights@, inputs@, weights.columns()) <= i64::MAX,
    ensures
        accepted == predicts(weights@, inputs@, weights.columns(), cutoff),
{
    activation(weights, inputs) >= cutoff
}

/// Shows the weights a sample that they should refuse. Where they accept
/// it, the sample is subtracted from them and `true` is returned: an
/// error. Where they refuse it, they stay as they are.
pub fn correct_positive(weights: &mut Grid, sample: &Grid, cutoff: i64) -> (erred: bool)
    requires
        old(weights).wf(),
        sample.wf(),
        old(weights).rows() == sample.rows(),
        old(weights).columns() == sample.columns(),
        load(old(weights)@, sample@, sample.columns()) <= i64::MAX,
        combines(old(weights)@, sample@, -1),
    ensures
        erred == predicts(old(weights)@, sample@, sample.columns(), cutoff),
        !erred ==> final(weights)@ == old(weights)@,
        final(weights)@ == after_positive(old(weights)@, sample@, sample.columns(), cutoff),
        final(weights).wf(),
        final(weights).columns() == old(weights).columns(),
{
    let erred: bool = predict(weights, sample, cutoff);
    if erred {
        subtract_in_place(weights, sample);
    }
    erred
}

/// Shows the weights a sample that they should accept. Where they refuse
/// it, the sample is added to them and `true` is returned: an error.
/// Where they accept it, they stay as they are.
pub fn correct_negative(weights: &mut Grid, sample: &Grid, cutoff: i64) -> (erred: bool)
    requires
        old(weights).wf(),
        sample.wf(),
        old(weights).rows() == sample.rows(),
        old(weights).columns() == sample.columns(),
        load(old(weights)@, sample@, sample.columns()) <= i64::MAX,
        combines(old(weights)@, sample@, 1),
    ensures
        erred == !predicts(old(weights)@, sample@, sample.columns(), cutoff),
        !erred ==> final(weights)@ == old(weights)@,
        final(weights)@ == after_negative(old(weights)@, sample@, sample.columns(), cutoff),
        final(weights).wf(),
        final(weights).columns() == old(weights).columns(),
{
    let erred: bool = !predict(weights, sample, cutoff);
    if erred {
        add_in_place(weights, sample);
    }
    erred
}

/// Raising by a positive step every weight that lies under an occupied
/// cell of a raster never lowers the activation of that raster, whatever
/// becomes of the other weights.
pub proof fn law_activation_monotone(weights: Rows, raised: Rows, inputs: Rows, width: nat, step: int)
    requires
        rectangular(weights, width),
        rectangular(raised, width),
        rectangular(inputs, width),
        weights.len() == raised.len(),
        inputs.len() == weights.len(),
        binary(inputs, width),
        step > 0,
        forall|r: int, c: int|
            0 <= r < weights.len() && 0 <= c < width && inputs[r][c] == 1 ==> #[trigger] raised[r][c]
                == weights[r][c] + step,
    ensures
        dot(raised, inputs, width) >= dot(weights, inputs, width),
{
    let before = |r: int, c: int| weights[r][c] * inputs[r][c];
    let after = |r: int, c: int| raised[r][c] * inputs[r][c];
    assert forall|r: int, c: int| 0 <= r < weights.len() && 0 <= c < width implies #[trigger] before(
        r,
        c,
    ) <= after(r, c) by {
        let x = inputs[r][c] as int;
        let old_weight = weights[r][c] as int;
        let new_weight = raised[r][c] as int;
        assert(0 <= x <= 1);
        if x == 1 {
            assert(new_weight == old_weight + step);
        }
        assert(old_weight * x <= new_weight * x) by (nonlinear_arith)
            requires
                x == 0 || (x == 1 && old_weight <= new_weight),
        ;
    }
    lemma_table_sum_le(before, after, weights.len(), width);
}

} // verus!
