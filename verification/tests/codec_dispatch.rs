//! Model decoding, the linear round trip, and selector dispatch.

use model_inference::codec::{
    decode_forest, decode_linear_model, decode_tree, encode_linear_model,
};
use model_inference::dispatch::{
    parse_selector, predict_prepared, prepare_model, ModelArchitecture, Prediction, PreparedModel,
};
use model_inference::error::ModelError;
use model_inference::linear::LogisticRegressionModel;
use model_inference::value::ModelValue;

fn number(x: f64) -> ModelValue {
    ModelValue::Number(x.to_bits())
}

fn text(s: &str) -> ModelValue {
    ModelValue::Text(s.to_owned())
}

fn list(items: Vec<ModelValue>) -> ModelValue {
    ModelValue::List(items)
}

fn object(fields: Vec<(&str, ModelValue)>) -> ModelValue {
    ModelValue::Object(fields.into_iter().map(|(n, v)| (n.to_owned(), v)).collect())
}

fn leaf_value(scores: &[f64]) -> ModelValue {
    object(vec![("value", list(vec![list(scores.iter().map(|s| number(*s)).collect())]))])
}

fn tree_value() -> ModelValue {
    object(vec![
        ("feature", text("Sex_female")),
        ("threshold", number(0.5)),
        ("left", leaf_value(&[0.81, 0.19])),
        ("right", leaf_value(&[0.25, 0.75])),
    ])
}

fn features(xs: &[f64]) -> Vec<u64> {
    xs.iter().map(|x| x.to_bits()).collect()
}

#[test]
fn linear_model_round_trip_is_exact() {
    let model = LogisticRegressionModel {
        weight: features(&[
            -0.03914839850205495,
            1.149281815000846,
            -1.1499821391157823,
            1.1996213235549225,
            0.007154342389428081,
            -1.207475990059137,
        ]),
        bias: features(&[1.2122577308090265]),
    };
    let encoded = encode_linear_model(&model);
    let decoded = decode_linear_model(&encoded).unwrap();
    assert_eq!(decoded.weight, model.weight);
    assert_eq!(decoded.bias, model.bias);
}

#[test]
fn decode_linear_rejects_wrong_shapes() {
    // missing bias
    let missing = object(vec![("weight", list(vec![number(1.0)]))]);
    assert!(matches!(decode_linear_model(&missing), Err(ModelError::DecodeError)));
    // weight entries must be numbers
    let wrong = object(vec![
        ("weight", list(vec![text("x")])),
        ("bias", list(vec![number(0.0)])),
    ]);
    assert!(matches!(decode_linear_model(&wrong), Err(ModelError::DecodeError)));
    // not an object at all
    assert!(matches!(decode_linear_model(&number(1.0)), Err(ModelError::DecodeError)));
}

#[test]
fn decode_tree_then_predict() {
    let tree = decode_tree(&tree_value()).unwrap();
    let prepared = PreparedModel::Tree(tree);
    let r = predict_prepared(&prepared, &features(&[25.0, 1.0, 0.0, 0.0, 0.0, 0.0]), 0);
    assert_eq!(r.unwrap(), Prediction::ClassIndex(1));
}

#[test]
fn decode_tree_rejects_malformed_nodes() {
    // one child present, the other absent, and no distribution: invalid
    let asymmetric = object(vec![
        ("feature", text("Age")),
        ("threshold", number(1.0)),
        ("left", leaf_value(&[1.0])),
    ]);
    assert!(matches!(decode_tree(&asymmetric), Err(ModelError::InvalidModel)));
    // empty distribution at a leaf
    let empty_leaf = object(vec![("value", list(vec![list(vec![])]))]);
    assert!(matches!(decode_tree(&empty_leaf), Err(ModelError::InvalidModel)));
    // a distribution entry that is not a number
    let bad_score = object(vec![("value", list(vec![list(vec![text("x")])]))]);
    assert!(matches!(decode_tree(&bad_score), Err(ModelError::InvalidModel)));
    // threshold is not a number
    let bad_threshold = object(vec![
        ("feature", text("Age")),
        ("threshold", text("ten")),
        ("left", leaf_value(&[1.0])),
        ("right", leaf_value(&[1.0])),
    ]);
    assert!(matches!(decode_tree(&bad_threshold), Err(ModelError::InvalidModel)));
}

#[test]
fn decode_forest_accepts_trees_and_rejects_empty() {
    let forest = decode_forest(&list(vec![tree_value(), tree_value()])).unwrap();
    assert_eq!(forest.len(), 2);
    assert!(matches!(decode_forest(&list(vec![])), Err(ModelError::InvalidModel)));
    assert!(matches!(decode_forest(&number(1.0)), Err(ModelError::InvalidModel)));
}

#[test]
fn parse_selector_resolves_known_architectures() {
    assert_eq!(
        parse_selector(&"logistic".to_owned()).unwrap(),
        ModelArchitecture::Logistic
    );
    assert_eq!(
        parse_selector(&"decisiontree".to_owned()).unwrap(),
        ModelArchitecture::DecisionTree
    );
    assert_eq!(
        parse_selector(&"randomforest".to_owned()).unwrap(),
        ModelArchitecture::RandomForest
    );
}

#[test]
fn unknown_selector_is_reported_not_fatal() {
    match parse_selector(&"svm".to_owned()) {
        Err(ModelError::UnsupportedArchitecture(s)) => assert_eq!(s, "svm"),
        _ => panic!("an unknown selector must be reported as unsupported"),
    }
}

#[test]
fn dispatch_routes_each_architecture() {
    let input = features(&[25.0, 1.0, 0.0, 0.0, 0.0, 0.0]);

    let weight = [1.0, 1.0, 1.0, 1.0, 1.0, 1.0];
    let linear_data = object(vec![
        ("weight", list(weight.iter().map(|w| number(*w)).collect())),
        ("bias", list(vec![number(0.0)])),
    ]);
    let arch = parse_selector(&"logistic".to_owned()).unwrap();
    let prepared = prepare_model(arch, &linear_data).unwrap();
    // the squashed score for z = 26 is far above one half
    let z: f64 = 26.0;
    let sig = 1.0 / (1.0 + (-z).exp());
    let r = predict_prepared(&prepared, &input, sig.to_bits()).unwrap();
    assert_eq!(r, Prediction::Label(1.0f64.to_bits()));

    let arch = parse_selector(&"decisiontree".to_owned()).unwrap();
    let prepared = prepare_model(arch, &tree_value()).unwrap();
    let r = predict_prepared(&prepared, &input, 0).unwrap();
    assert_eq!(r, Prediction::ClassIndex(1));

    let arch = parse_selector(&"randomforest".to_owned()).unwrap();
    let forest_data = list(vec![tree_value(), tree_value(), tree_value()]);
    let prepared = prepare_model(arch, &forest_data).unwrap();
    let r = predict_prepared(&prepared, &input, 0).unwrap();
    assert_eq!(r, Prediction::ClassIndex(1));
}

#[test]
fn prepare_model_reports_decode_failures() {
    let arch = ModelArchitecture::Logistic;
    assert!(matches!(prepare_model(arch, &number(1.0)), Err(ModelError::DecodeError)));
    let arch = ModelArchitecture::DecisionTree;
    assert!(matches!(prepare_model(arch, &number(1.0)), Err(ModelError::InvalidModel)));
    let arch = ModelArchitecture::RandomForest;
    assert!(matches!(prepare_model(arch, &list(vec![])), Err(ModelError::InvalidModel)));
}
