//! Linear (logistic) scorer.
//!
//! The model is a weight vector of the feature arity and a one-element
//! bias.  Scoring computes `sigmoid(dot(features, weight) + bias[0])` and
//! collapses the probability to a hard label: `1.0` when it is strictly
//! above `0.5`, else `0.0`.  The dot product and the sigmoid are
//! floating-point arithmetic and are computed by the caller outside the
//! verified core; the scorer validates the model against the input —
//! a feature/weight arity mismatch or an empty bias is an invalid model,
//! never a silent truncation — and makes the verified label decision on
//! the squashed score it is handed.

use vstd::prelude::*;
use crate::error::ModelError;
use crate::numeric::{num_lt, spec_lt, HALF_BITS, ONE_BITS, ZERO_BITS};

verus! {

/// Parameters of the linear model: a weight per feature and a bias whose
/// first entry is the intercept.  Values are double-precision bit
/// patterns, kept exactly as loaded.
pub struct LogisticRegressionModel {
    pub weight: Vec<u64>,
    pub bias: Vec<u64>,
}

/// The model fits the input: one weight per feature, a usable bias.
pub open spec fn spec_linear_ok(features: Seq<u64>, weight: Seq<u64>, bias: Seq<u64>) -> bool {
    features.len() == weight.len() && bias.len() > 0
}

/// The hard label for a squashed score: `1.0` when the score is strictly
/// above `0.5` in the numeric order, else `0.0`.
pub open spec fn spec_label(sig: u64) -> u64 {
    if spec_lt(HALF_BITS, sig) {
        ONE_BITS
    } else {
        ZERO_BITS
    }
}

/// Checks the linear model against the feature vector; callers establish
/// this before computing the floating-point score.
pub fn linear_check(features: &Vec<u64>, model: &LogisticRegressionModel) -> (r: Result<
    (),
    ModelError,
>)
    ensures
        spec_linear_ok(features@, model.weight@, model.bias@) ==> r == Ok::<(), ModelError>(()),
        !spec_linear_ok(features@, model.weight@, model.bias@) ==> r == Err::<(), ModelError>(
            ModelError::InvalidModel,
        ),
{
    if features.len() != model.weight.len() || model.bias.len() == 0 {
        Err(ModelError::InvalidModel)
    } else {
        Ok(())
    }
}

/// The linear scorer's decision.  `sigmoid_of_score` is the bit pattern of
/// `sigmoid(dot(features, weight) + bias[0])`, computed by the caller in
/// floating point outside the verified core; the scorer validates the
/// model and returns the bit pattern of `1.0` exactly when the squashed
/// score is strictly above `0.5`, else of `0.0`.
pub fn logistic_prediction(
    features: &Vec<u64>,
    model: &LogisticRegressionModel,
    sigmoid_of_score: u64,
) -> (r: Result<u64, ModelError>)
    ensures
        spec_linear_ok(features@, model.weight@, model.bias@) ==> r == Ok::<u64, ModelError>(
            spec_label(sigmoid_of_score),
        ),
        !spec_linear_ok(features@, model.weight@, model.bias@) ==> r == Err::<u64, ModelError>(
            ModelError::InvalidModel,
        ),
{
    if features.len() != model.weight.len() || model.bias.len() == 0 {
        Err(ModelError::InvalidModel)
    } else if num_lt(HALF_BITS, sigmoid_of_score) {
        Ok(ONE_BITS)
    } else {
        Ok(ZERO_BITS)
    }
}

} // verus!
