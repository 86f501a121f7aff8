//! Model registry and dispatcher.
//!
//! A request names a model architecture with an opaque selector string.
//! The dispatcher resolves the selector, validates the loaded model data
//! for that architecture, and routes the feature vector to the matching
//! scorer.  An unknown selector is a recoverable `UnsupportedArchitecture`
//! report, never a crash.  Loading the persisted bytes and the linear
//! scorer's floating-point squashing happen at the caller's edge; every
//! decision in between is verified here.

use vstd::prelude::*;
use crate::codec::{
    decode_forest, decode_linear_model, decode_tree, forest_matches, spec_decode_linear,
    tree_matches,
};
use crate::error::ModelError;
use crate::forest::{is_winner, random_forest_prediction, spec_forest_ok, spec_forest_votes};
use crate::linear::{logistic_prediction, spec_label, spec_linear_ok, LogisticRegressionModel};
use crate::tree::{decision_tree_prediction, spec_tree_class, spec_tree_ok, spec_wf, DecisionNode};
use crate::value::ModelValue;

verus! {

/// The three model representations the dispatcher knows.
#[derive(PartialEq, Eq, Structural, Clone, Copy, Debug)]
pub enum ModelArchitecture {
    Logistic,
    DecisionTree,
    RandomForest,
}

/// A single prediction: the linear scorer's hard label (as the bit pattern
/// of `1.0` or `0.0`), or a class index from a tree or a forest.
#[derive(PartialEq, Eq, Structural, Clone, Copy, Debug)]
pub enum Prediction {
    Label(u64),
    ClassIndex(usize),
}

/// Resolves a selector string to a model architecture.  Exactly the three
/// known selectors resolve; anything else is reported back, selector
/// included, as `UnsupportedArchitecture`.
pub fn parse_selector(selector: &String) -> (r: Result<ModelArchitecture, ModelError>)
    ensures
        selector@ == "logistic"@ ==> r == Ok::<ModelArchitecture, ModelError>(
            ModelArchitecture::Logistic,
        ),
        selector@ == "decisiontree"@ ==> r == Ok::<ModelArchitecture, ModelError>(
            ModelArchitecture::DecisionTree,
        ),
        selector@ == "randomforest"@ ==> r == Ok::<ModelArchitecture, ModelError>(
            ModelArchitecture::RandomForest,
        ),
        selector@ != "logistic"@ && selector@ != "decisiontree"@ && selector@ != "randomforest"@
            ==> (r matches Err(ModelError::UnsupportedArchitecture(s)) && s@ == selector@),
{
    proof {
        reveal_strlit("logistic");
        reveal_strlit("decisiontree");
        reveal_strlit("randomforest");
        assert("logistic"@.len() == 8);
        assert("decisiontree"@[0] == 'd');
        assert("randomforest"@[0] == 'r');
        assert("logistic"@ != "decisiontree"@);
        assert("logistic"@ != "randomforest"@);
        assert("decisiontree"@ != "randomforest"@);
    }
    if *selector == "logistic".to_owned() {
        Ok(ModelArchitecture::Logistic)
    } else if *selector == "decisiontree".to_owned() {
        Ok(ModelArchitecture::DecisionTree)
    } else if *selector == "randomforest".to_owned() {
        Ok(ModelArchitecture::RandomForest)
    } else {
        Err(ModelError::UnsupportedArchitecture(selector.clone()))
    }
}

/// A model decoded and validated for one inference.
pub enum PreparedModel {
    Linear(LogisticRegressionModel),
    Tree(DecisionNode),
    Forest(Vec<DecisionNode>),
}

/// Decodes freshly loaded model data for the selected architecture; the
/// result is the validated model the matching scorer consumes.
pub fn prepare_model(arch: ModelArchitecture, data: &ModelValue) -> (r: Result<
    PreparedModel,
    ModelError,
>)
    ensures
        arch == ModelArchitecture::Logistic ==> (match r {
            Ok(PreparedModel::Linear(m)) => spec_decode_linear(*data) == Some(
                (m.weight@, m.bias@),
            ),
            Err(e) => spec_decode_linear(*data) is None && e == ModelError::DecodeError,
            _ => false,
        }),
        arch == ModelArchitecture::DecisionTree ==> (match r {
            Ok(PreparedModel::Tree(t)) => tree_matches(*data, t) && spec_wf(t),
            Err(e) => e == ModelError::InvalidModel && (forall|t: DecisionNode|
                !tree_matches(*data, t)),
            _ => false,
        }),
        arch == ModelArchitecture::RandomForest ==> (match r {
            Ok(PreparedModel::Forest(f)) => forest_matches(*data, f@) && f@.len() > 0 && (forall|
                i: int,
            |
                0 <= i < f@.len() ==> spec_wf(#[trigger] f@[i])),
            Err(e) => e == ModelError::InvalidModel && (forall|f: Seq<DecisionNode>|
                !(f.len() > 0 && forest_matches(*data, f))),
            _ => false,
        }),
{
    match arch {
        ModelArchitecture::Logistic => {
            match decode_linear_model(data) {
                Ok(m) => Ok(PreparedModel::Linear(m)),
                Err(e) => Err(e),
            }
        },
        ModelArchitecture::DecisionTree => {
            match decode_tree(data) {
                Ok(t) => Ok(PreparedModel::Tree(t)),
                Err(e) => Err(e),
            }
        },
        ModelArchitecture::RandomForest => {
            match decode_forest(data) {
                Ok(f) => Ok(PreparedModel::Forest(f)),
                Err(e) => Err(e),
            }
        },
    }
}

/// Routes a feature vector to the scorer of the prepared model.  For the
/// linear model, `sigmoid_of_score` is the squashed score the caller
/// computed in floating point (see the linear scorer); tree and forest
/// scorers ignore it.
pub fn predict_prepared(
    model: &PreparedModel,
    features: &Vec<u64>,
    sigmoid_of_score: u64,
) -> (r: Result<Prediction, ModelError>)
    ensures
        match *model {
            PreparedModel::Linear(m) => {
                &&& spec_linear_ok(features@, m.weight@, m.bias@) ==> r == Ok::<
                    Prediction,
                    ModelError,
                >(Prediction::Label(spec_label(sigmoid_of_score)))
                &&& !spec_linear_ok(features@, m.weight@, m.bias@) ==> r == Err::<
                    Prediction,
                    ModelError,
                >(ModelError::InvalidModel)
            },
            PreparedModel::Tree(t) => {
                &&& spec_tree_ok(features@, t) ==> r == Ok::<Prediction, ModelError>(
                    Prediction::ClassIndex(spec_tree_class(features@, t) as usize),
                )
                &&& !spec_tree_ok(features@, t) ==> r == Err::<Prediction, ModelError>(
                    ModelError::InvalidModel,
                )
                &&& spec_wf(t) ==> r is Ok
            },
            PreparedModel::Forest(f) => {
                &&& spec_forest_ok(features@, f@) ==> (r matches Ok(Prediction::ClassIndex(c))
                    && is_winner(spec_forest_votes(features@, f@), c))
                &&& !spec_forest_ok(features@, f@) ==> r == Err::<Prediction, ModelError>(
                    ModelError::InvalidModel,
                )
                &&& f@.len() > 0 && (forall|i: int|
                    0 <= i < f@.len() ==> spec_wf(#[trigger] f@[i])) ==> r is Ok
            },
        },
{
    match model {
        PreparedModel::Linear(m) => {
            match logistic_prediction(features, m, sigmoid_of_score) {
                Ok(label) => Ok(Prediction::Label(label)),
                Err(e) => Err(e),
            }
        },
        PreparedModel::Tree(t) => {
            match decision_tree_prediction(features, t) {
                Ok(c) => Ok(Prediction::ClassIndex(c)),
                Err(e) => Err(e),
            }
        },
        PreparedModel::Forest(f) => {
            match random_forest_prediction(features, f) {
                Ok(c) => Ok(Prediction::ClassIndex(c)),
                Err(e) => Err(e),
            }
        },
    }
}

} // verus!
