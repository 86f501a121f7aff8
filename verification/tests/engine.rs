//! Scorer behaviour on concrete inputs: the linear scorer, the tree
//! descent engine, and the ensemble aggregator.

use model_inference::error::ModelError;
use model_inference::forest::{count_votes, majority_vote, random_forest_prediction};
use model_inference::linear::{linear_check, logistic_prediction, LogisticRegressionModel};
use model_inference::numeric::{num_le, num_lt, order_key, HALF_BITS, ONE_BITS, ZERO_BITS};
use model_inference::tree::{decision_tree_prediction, DecisionNode};

fn bits(x: f64) -> u64 {
    x.to_bits()
}

fn feature_bits(xs: &[f64]) -> Vec<u64> {
    xs.iter().map(|x| x.to_bits()).collect()
}

fn leaf(scores: &[f64]) -> DecisionNode {
    DecisionNode::Leaf { distribution: scores.iter().map(|s| s.to_bits()).collect() }
}

fn internal(feature: &str, threshold: f64, left: DecisionNode, right: DecisionNode) -> DecisionNode {
    DecisionNode::Internal {
        feature: feature.to_owned(),
        threshold: threshold.to_bits(),
        left: Box::new(left),
        right: Box::new(right),
    }
}

fn sigmoid(x: f64) -> f64 {
    1.0 / (1.0 + (-x).exp())
}

/// The sample tree fixture: survival is decided by sex, then refined by
/// age on the female branch.
fn sample_tree() -> DecisionNode {
    internal(
        "Sex_female",
        0.5,
        leaf(&[0.81, 0.19]),
        internal("Age", 60.0, leaf(&[0.25, 0.75]), leaf(&[0.6, 0.4])),
    )
}

#[test]
fn test_decision_tree_prediction() {
    let features = feature_bits(&[25.0, 1.0, 0.0, 0.0, 0.0, 0.0]);
    let model = sample_tree();
    let expected = decision_tree_prediction(&features, &model).unwrap();
    assert_eq!(expected, 1)
}

#[test]
fn test_logistic_prediction() {
    let features = vec![25.0, 1.0, 0.0, 0.0, 0.0, 0.0];
    let weight = vec![
        -0.03914839850205495,
        1.149281815000846,
        -1.1499821391157823,
        1.1996213235549225,
        0.007154342389428081,
        -1.207475990059137,
    ];
    let bias = vec![1.2122577308090265];
    let z: f64 = features.iter().zip(weight.iter()).map(|(x, w)| x * w).sum::<f64>() + bias[0];
    let model = LogisticRegressionModel {
        weight: feature_bits(&weight),
        bias: feature_bits(&bias),
    };
    let expected =
        logistic_prediction(&feature_bits(&features), &model, sigmoid(z).to_bits()).unwrap();
    assert_eq!(expected, bits(1.0))
}

#[test]
fn logistic_label_boundary() {
    let features = feature_bits(&[1.0]);
    let model = LogisticRegressionModel { weight: feature_bits(&[1.0]), bias: feature_bits(&[0.0]) };
    // exactly 0.5 is not strictly above the threshold
    assert_eq!(logistic_prediction(&features, &model, bits(0.5)).unwrap(), ZERO_BITS);
    assert_eq!(logistic_prediction(&features, &model, bits(0.501)).unwrap(), ONE_BITS);
    assert_eq!(logistic_prediction(&features, &model, bits(0.499)).unwrap(), ZERO_BITS);
    assert_eq!(HALF_BITS, bits(0.5));
    assert_eq!(ONE_BITS, bits(1.0));
    assert_eq!(ZERO_BITS, bits(0.0));
}

#[test]
fn logistic_arity_mismatch_is_invalid_model() {
    let features = feature_bits(&[1.0, 2.0]);
    let model = LogisticRegressionModel { weight: feature_bits(&[1.0]), bias: feature_bits(&[0.0]) };
    assert!(matches!(
        logistic_prediction(&features, &model, bits(0.9)),
        Err(ModelError::InvalidModel)
    ));
    assert!(matches!(linear_check(&features, &model), Err(ModelError::InvalidModel)));
}

#[test]
fn logistic_empty_bias_is_invalid_model() {
    let features = feature_bits(&[1.0]);
    let model = LogisticRegressionModel { weight: feature_bits(&[1.0]), bias: Vec::new() };
    assert!(matches!(
        logistic_prediction(&features, &model, bits(0.9)),
        Err(ModelError::InvalidModel)
    ));
}

#[test]
fn numeric_order_matches_double_order() {
    assert!(num_lt(bits(-2.0), bits(-1.0)));
    assert!(num_lt(bits(-1.0), bits(0.0)));
    assert!(num_lt(bits(0.0), bits(0.5)));
    assert!(num_le(bits(3.25), bits(3.25)));
    assert!(!num_le(bits(7.5), bits(3.25)));
    // the two zeroes share one order key
    assert_eq!(order_key(bits(-0.0)), order_key(bits(0.0)));
}

#[test]
fn descent_defaults_absent_feature_to_zero() {
    // no features bound at all: "Age" resolves to 0.0, which is at or
    // below the threshold, so descent goes left
    let model = internal("Age", 10.0, leaf(&[1.0, 0.0]), leaf(&[0.0, 1.0]));
    let no_features: Vec<u64> = Vec::new();
    assert_eq!(decision_tree_prediction(&no_features, &model).unwrap(), 0);
}

#[test]
fn descent_goes_right_on_strictly_greater() {
    let model = internal("Age", 10.0, leaf(&[1.0, 0.0]), leaf(&[0.0, 1.0]));
    // equal to the threshold: left
    assert_eq!(decision_tree_prediction(&feature_bits(&[10.0]), &model).unwrap(), 0);
    // strictly above: right
    assert_eq!(decision_tree_prediction(&feature_bits(&[10.1]), &model).unwrap(), 1);
}

#[test]
fn descent_compares_negative_thresholds() {
    let model = internal("Age", -1.0, leaf(&[1.0, 0.0]), leaf(&[0.0, 1.0]));
    assert_eq!(decision_tree_prediction(&feature_bits(&[-2.0]), &model).unwrap(), 0);
    assert_eq!(decision_tree_prediction(&feature_bits(&[-0.5]), &model).unwrap(), 1);
}

#[test]
fn argmax_tie_takes_first_index() {
    let model = leaf(&[0.5, 0.5, 0.25]);
    let features = feature_bits(&[25.0, 1.0, 0.0, 0.0, 0.0, 0.0]);
    assert_eq!(decision_tree_prediction(&features, &model).unwrap(), 0);
}

#[test]
fn argmax_skips_nan_scores() {
    let features = feature_bits(&[25.0]);
    // a NaN entry never wins while a non-NaN score is present
    let model = leaf(&[0.5, f64::NAN]);
    assert_eq!(decision_tree_prediction(&features, &model).unwrap(), 0);
    let model = leaf(&[f64::NAN, 0.3, 0.9]);
    assert_eq!(decision_tree_prediction(&features, &model).unwrap(), 2);
    let model = leaf(&[0.3, f64::NAN, 0.3]);
    assert_eq!(decision_tree_prediction(&features, &model).unwrap(), 0);
    // only an all-NaN distribution degenerates to the first index
    let model = leaf(&[f64::NAN, f64::NAN]);
    assert_eq!(decision_tree_prediction(&features, &model).unwrap(), 0);
}

#[test]
fn empty_leaf_is_invalid_model() {
    let model = leaf(&[]);
    let features = feature_bits(&[25.0]);
    assert!(matches!(
        decision_tree_prediction(&features, &model),
        Err(ModelError::InvalidModel)
    ));
}

#[test]
fn unanimous_forest_equals_single_tree() {
    let features = feature_bits(&[25.0, 1.0, 0.0, 0.0, 0.0, 0.0]);
    let single = decision_tree_prediction(&features, &sample_tree()).unwrap();
    for n in 1..=5 {
        let forest: Vec<DecisionNode> = (0..n).map(|_| sample_tree()).collect();
        assert_eq!(random_forest_prediction(&features, &forest).unwrap(), single);
    }
}

#[test]
fn forest_tie_takes_smaller_class_whatever_the_order() {
    let features = feature_bits(&[25.0]);
    let forward = vec![leaf(&[0.0, 0.0, 1.0]), leaf(&[0.0, 1.0, 0.0])];
    let backward = vec![leaf(&[0.0, 1.0, 0.0]), leaf(&[0.0, 0.0, 1.0])];
    assert_eq!(random_forest_prediction(&features, &forward).unwrap(), 1);
    assert_eq!(random_forest_prediction(&features, &backward).unwrap(), 1);
}

#[test]
fn empty_forest_is_invalid_model() {
    let features = feature_bits(&[25.0]);
    let forest: Vec<DecisionNode> = Vec::new();
    assert!(matches!(
        random_forest_prediction(&features, &forest),
        Err(ModelError::InvalidModel)
    ));
}

#[test]
fn majority_vote_counts_and_ties() {
    let votes = vec![2usize, 1, 1, 2, 3];
    assert_eq!(count_votes(&votes, 1), 2);
    assert_eq!(count_votes(&votes, 2), 2);
    assert_eq!(count_votes(&votes, 3), 1);
    assert_eq!(count_votes(&votes, 7), 0);
    // 1 and 2 tie at the maximum: the smaller class index wins
    assert_eq!(majority_vote(&votes).unwrap(), 1);
    assert!(matches!(majority_vote(&Vec::new()), Err(ModelError::InvalidModel)));
}
