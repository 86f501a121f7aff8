//! Decoding persisted model structures into typed models.
//!
//! The decoders consume a generic structured value and validate it once at
//! load time into the engine's tagged model types, so the scorers
//! pattern-match instead of probing.  A linear model is an object with a
//! `weight` and a `bias` list of numbers.  A tree node is either an
//! internal node — both children present, plus a named feature and a
//! numeric threshold — or a leaf whose `value` field holds, as the first
//! element of a nested list, a non-empty list of numbers; anything else is
//! a recoverable `InvalidModel`.  A forest is a non-empty list of tree
//! nodes.  The linear encoder produces exactly the object the decoder
//! accepts, preserving every bit of the weights and the bias.

use vstd::prelude::*;
use crate::error::ModelError;
use crate::linear::LogisticRegressionModel;
use crate::tree::{spec_wf, DecisionNode};
use crate::value::{lemma_field_decreases, lookup_field, spec_field, ModelValue};

verus! {

/// The bits of each element, when every element of `vals` is a number.
pub open spec fn spec_numbers(vals: Seq<ModelValue>) -> Option<Seq<u64>>
    decreases vals.len(),
{
    if vals.len() == 0 {
        Some(Seq::empty())
    } else {
        match vals[0] {
            ModelValue::Number(b) => match spec_numbers(vals.skip(1)) {
                Some(rest) => Some(seq![b] + rest),
                None => None,
            },
            _ => None,
        }
    }
}

/// A list in which position `i` is the number `bits[i]` carries exactly
/// those bits.
pub proof fn lemma_numbers_pointwise(vals: Seq<ModelValue>, bits: Seq<u64>)
    requires
        vals.len() == bits.len(),
        forall|i: int| 0 <= i < vals.len() ==> vals[i] == ModelValue::Number(bits[i]),
    ensures
        spec_numbers(vals) == Some(bits),
    decreases vals.len(),
{
    if vals.len() > 0 {
        assert(forall|i: int|
            0 <= i < vals.skip(1).len() ==> vals.skip(1)[i] == vals[i + 1]);
        lemma_numbers_pointwise(vals.skip(1), bits.skip(1));
        assert(seq![bits[0]] + bits.skip(1) =~= bits);
    }
}

/// Reads a list as a list of numbers, or reports that it is not one.
pub fn numbers_of(vals: &Vec<ModelValue>) -> (r: Option<Vec<u64>>)
    ensures
        match r {
            Some(bits) => spec_numbers(vals@) == Some(bits@),
            None => spec_numbers(vals@) is None,
        },
{
    let mut out: Vec<u64> = Vec::new();
    let n = vals.len();
    proof {
        assert(vals@.skip(0) =~= vals@);
    }
    for i in 0..n
        invariant
            n == vals@.len(),
            out@.len() == i,
            match spec_numbers(vals@.skip(i as int)) {
                Some(rest) => spec_numbers(vals@) == Some(out@ + rest),
                None => spec_numbers(vals@) is None,
            },
    {
        proof {
            assert(vals@.skip(i as int)[0] == vals@[i as int]);
            assert(vals@.skip(i as int).skip(1) =~= vals@.skip(i as int + 1));
        }
        match &vals[i] {
            ModelValue::Number(b) => {
                let ghost old_out = out@;
                out.push(*b);
                proof {
                    if spec_numbers(vals@.skip(i as int + 1)) is Some {
                        let rest = spec_numbers(vals@.skip(i as int + 1))->Some_0;
                        assert(old_out + (seq![vals@[i as int]->Number_0] + rest) =~= out@
                            + rest);
                    }
                }
            },
            _ => {
                return None;
            },
        }
    }
    proof {
        assert(vals@.skip(n as int).len() == 0);
        assert(out@ + Seq::<u64>::empty() =~= out@);
    }
    Some(out)
}

/// Weight and bias bits of a structured value that encodes a linear model:
/// an object whose `weight` and `bias` fields are lists of numbers.
pub open spec fn spec_decode_linear(v: ModelValue) -> Option<(Seq<u64>, Seq<u64>)> {
    match v {
        ModelValue::Object(fields) => match (
            spec_field(fields@, "weight"@),
            spec_field(fields@, "bias"@),
        ) {
            (Some(ModelValue::List(w)), Some(ModelValue::List(b))) => match (
                spec_numbers(w@),
                spec_numbers(b@),
            ) {
                (Some(ws), Some(bs)) => Some((ws, bs)),
                _ => None,
            },
            _ => None,
        },
        _ => None,
    }
}

/// Decodes a linear model from its persisted structure.  A value of any
/// other shape does not decode (`DecodeError`); weight and bias bits are
/// taken over exactly as they stand.
pub fn decode_linear_model(v: &ModelValue) -> (r: Result<LogisticRegressionModel, ModelError>)
    ensures
        match r {
            Ok(m) => spec_decode_linear(*v) == Some((m.weight@, m.bias@)),
            Err(e) => spec_decode_linear(*v) is None && e == ModelError::DecodeError,
        },
{
    match v {
        ModelValue::Object(fields) => {
            let wf = lookup_field(fields, &"weight".to_owned());
            let bf = lookup_field(fields, &"bias".to_owned());
            match (wf, bf) {
                (Some(ModelValue::List(w)), Some(ModelValue::List(b))) => {
                    match (numbers_of(w), numbers_of(b)) {
                        (Some(weight), Some(bias)) => Ok(
                            LogisticRegressionModel { weight, bias },
                        ),
                        _ => Err(ModelError::DecodeError),
                    }
                },
                _ => Err(ModelError::DecodeError),
            }
        },
        _ => Err(ModelError::DecodeError),
    }
}

/// Encodes a linear model as the persisted structure the decoder accepts.
/// Decoding the result recovers the weight and bias bits exactly: nothing
/// is rounded, dropped or reordered.
pub fn encode_linear_model(model: &LogisticRegressionModel) -> (v: ModelValue)
    ensures
        spec_decode_linear(v) == Some((model.weight@, model.bias@)),
{
    let mut wlist: Vec<ModelValue> = Vec::new();
    let nw = model.weight.len();
    for i in 0..nw
        invariant
            nw == model.weight@.len(),
            wlist@.len() == i,
            forall|j: int|
                0 <= j < i ==> wlist@[j] == ModelValue::Number(model.weight@[j]),
    {
        wlist.push(ModelValue::Number(model.weight[i]));
    }
    let mut blist: Vec<ModelValue> = Vec::new();
    let nb = model.bias.len();
    for i in 0..nb
        invariant
            nb == model.bias@.len(),
            blist@.len() == i,
            forall|j: int| 0 <= j < i ==> blist@[j] == ModelValue::Number(model.bias@[j]),
    {
        blist.push(ModelValue::Number(model.bias[i]));
    }
    proof {
        lemma_numbers_pointwise(wlist@, model.weight@);
        lemma_numbers_pointwise(blist@, model.bias@);
        reveal_strlit("weight");
        reveal_strlit("bias");
    }
    let wnode = ModelValue::List(wlist);
    let bnode = ModelValue::List(blist);
    let ghost gw = wnode;
    let ghost gb = bnode;
    let mut fields: Vec<(String, ModelValue)> = Vec::new();
    fields.push(("weight".to_owned(), wnode));
    fields.push(("bias".to_owned(), bnode));
    proof {
        assert(fields@.len() == 2);
        assert(fields@[0].1 == gw);
        assert(fields@[1].1 == gb);
        assert(fields@[0].0@ == "weight"@);
        assert(fields@[1].0@ == "bias"@);
        assert(spec_field(fields@, "weight"@) == Some(gw));
        assert(fields@.skip(1)[0] == fields@[1]);
        assert(fields@.skip(1).len() == 1);
        assert(spec_field(fields@.skip(1), "bias"@) == Some(gb));
        assert(spec_field(fields@, "bias"@) == Some(gb));
    }
    ModelValue::Object(fields)
}

/// The distribution a structured value yields when read as a leaf: the
/// value must be an object missing at least one child, whose `value` field
/// holds a list whose first element is a non-empty list of numbers.
pub open spec fn spec_leaf_shape(v: ModelValue) -> Option<Seq<u64>> {
    match v {
        ModelValue::Object(fields) => {
            if spec_field(fields@, "left"@) is Some && spec_field(fields@, "right"@) is Some {
                None
            } else {
                match spec_field(fields@, "value"@) {
                    Some(ModelValue::List(outer)) => {
                        if outer@.len() == 0 {
                            None
                        } else {
                            match outer@[0] {
                                ModelValue::List(probs) => match spec_numbers(probs@) {
                                    Some(d) => if d.len() > 0 {
                                        Some(d)
                                    } else {
                                        None
                                    },
                                    None => None,
                                },
                                _ => None,
                            }
                        }
                    },
                    _ => None,
                }
            }
        },
        _ => None,
    }
}

/// The parts a structured value yields when read as an internal node: both
/// children present, a textual `feature` and a numeric `threshold`.
pub open spec fn spec_internal_parts(v: ModelValue) -> Option<
    (Seq<char>, u64, ModelValue, ModelValue),
> {
    match v {
        ModelValue::Object(fields) => match (
            spec_field(fields@, "left"@),
            spec_field(fields@, "right"@),
        ) {
            (Some(lv), Some(rv)) => match (
                spec_field(fields@, "feature"@),
                spec_field(fields@, "threshold"@),
            ) {
                (Some(ModelValue::Text(f)), Some(ModelValue::Number(t))) => Some((f@, t, lv, rv)),
                _ => None,
            },
            _ => None,
        },
        _ => None,
    }
}

/// The decoded tree `t` is exactly what the structured value `v` encodes.
pub open spec fn tree_matches(v: ModelValue, t: DecisionNode) -> bool
    decreases t,
{
    match t {
        DecisionNode::Leaf { distribution } => spec_leaf_shape(v) == Some(distribution@),
        DecisionNode::Internal { feature, threshold, left, right } => match spec_internal_parts(
            v,
        ) {
            Some((f, th, lv, rv)) => f == feature@ && th == threshold && tree_matches(lv, *left)
                && tree_matches(rv, *right),
            None => false,
        },
    }
}

/// Decodes one tree node, recursively, validating the whole structure at
/// load time: the result is the well-formed tree the value encodes, and a
/// value that encodes no tree is an `InvalidModel`.
pub fn decode_tree(v: &ModelValue) -> (r: Result<DecisionNode, ModelError>)
    ensures
        match r {
            Ok(t) => tree_matches(*v, t) && spec_wf(t),
            Err(e) => e == ModelError::InvalidModel && (forall|t: DecisionNode|
                !tree_matches(*v, t)),
        },
    decreases *v,
{
    match v {
        ModelValue::Object(fields) => {
            let has_left = lookup_field(fields, &"left".to_owned()).is_some();
            let has_right = lookup_field(fields, &"right".to_owned()).is_some();
            if !has_left || !has_right {
                match lookup_field(fields, &"value".to_owned()) {
                    Some(ModelValue::List(outer)) => {
                        if outer.len() == 0 {
                            Err(ModelError::InvalidModel)
                        } else {
                            match &outer[0] {
                                ModelValue::List(probs) => match numbers_of(probs) {
                                    Some(d) => {
                                        if d.len() > 0 {
                                            Ok(DecisionNode::Leaf { distribution: d })
                                        } else {
                                            Err(ModelError::InvalidModel)
                                        }
                                    },
                                    None => Err(ModelError::InvalidModel),
                                },
                                _ => Err(ModelError::InvalidModel),
                            }
                        }
                    },
                    _ => Err(ModelError::InvalidModel),
                }
            } else {
                let feature = match lookup_field(fields, &"feature".to_owned()) {
                    Some(ModelValue::Text(s)) => s.clone(),
                    _ => {
                        return Err(ModelError::InvalidModel);
                    },
                };
                let threshold = match lookup_field(fields, &"threshold".to_owned()) {
                    Some(ModelValue::Number(b)) => *b,
                    _ => {
                        return Err(ModelError::InvalidModel);
                    },
                };
                let lv = match lookup_field(fields, &"left".to_owned()) {
                    Some(x) => x,
                    None => {
                        proof {
                            assert(false);
                        }
                        return Err(ModelError::InvalidModel);
                    },
                };
                proof {
                    lemma_field_decreases(*fields, "left"@, *lv);
                }
                let left = match decode_tree(lv) {
                    Ok(t) => t,
                    Err(e) => {
                        proof {
                            assert(spec_internal_parts(*v) matches Some(p) && p.2 == *lv);
                            assert forall|t: DecisionNode| !tree_matches(*v, t) by {
                                match t {
                                    DecisionNode::Leaf { .. } => {
                                        assert(spec_leaf_shape(*v) is None);
                                    },
                                    DecisionNode::Internal { left: tl, .. } => {
                                        if tree_matches(*v, t) {
                                            assert(tree_matches(*lv, *tl));
                                        }
                                    },
                                }
                            }
                        }
                        return Err(e);
                    },
                };
                let rv = match lookup_field(fields, &"right".to_owned()) {
                    Some(x) => x,
                    None => {
                        proof {
                            assert(false);
                        }
                        return Err(ModelError::InvalidModel);
                    },
                };
                proof {
                    lemma_field_decreases(*fields, "right"@, *rv);
                }
                let right = match decode_tree(rv) {
                    Ok(t) => t,
                    Err(e) => {
                        proof {
                            assert(spec_internal_parts(*v) matches Some(p) && p.3 == *rv);
                            assert forall|t: DecisionNode| !tree_matches(*v, t) by {
                                match t {
                                    DecisionNode::Leaf { .. } => {
                                        assert(spec_leaf_shape(*v) is None);
                                    },
                                    DecisionNode::Internal { right: tr, .. } => {
                                        if tree_matches(*v, t) {
                                            assert(tree_matches(*rv, *tr));
                                        }
                                    },
                                }
                            }
                        }
                        return Err(e);
                    },
                };
                Ok(
                    DecisionNode::Internal {
                        feature,
                        threshold,
                        left: Box::new(left),
                        right: Box::new(right),
                    },
                )
            }
        },
        _ => Err(ModelError::InvalidModel),
    }
}

/// The decoded forest `forest` is exactly what the structured value `v`
/// encodes: one tree per element of the list, in order.
pub open spec fn forest_matches(v: ModelValue, forest: Seq<DecisionNode>) -> bool {
    match v {
        ModelValue::List(trees) => trees@.len() == forest.len() && (forall|i: int|
            0 <= i < forest.len() ==> tree_matches(trees@[i], #[trigger] forest[i])),
        _ => false,
    }
}

/// Decodes a forest: a non-empty list of tree nodes, each validated by the
/// tree decoder.  An empty list, a non-list, or a list with a value that
/// encodes no tree is an `InvalidModel`.
pub fn decode_forest(v: &ModelValue) -> (r: Result<Vec<DecisionNode>, ModelError>)
    ensures
        match r {
            Ok(f) => forest_matches(*v, f@) && f@.len() > 0 && (forall|i: int|
                0 <= i < f@.len() ==> spec_wf(#[trigger] f@[i])),
            Err(e) => e == ModelError::InvalidModel && (forall|f: Seq<DecisionNode>|
                !(f.len() > 0 && forest_matches(*v, f))),
        },
{
    match v {
        ModelValue::List(trees) => {
            if trees.len() == 0 {
                return Err(ModelError::InvalidModel);
            }
            let mut out: Vec<DecisionNode> = Vec::new();
            let n = trees.len();
            for i in 0..n
                invariant
                    n == trees@.len(),
                    n > 0,
                    *v == ModelValue::List(*trees),
                    out@.len() == i,
                    forall|j: int|
                        0 <= j < i ==> tree_matches(trees@[j], #[trigger] out@[j]) && spec_wf(
                            out@[j],
                        ),
            {
                match decode_tree(&trees[i]) {
                    Ok(t) => {
                        out.push(t);
                    },
                    Err(e) => {
                        proof {
                            assert forall|f: Seq<DecisionNode>| !(f.len() > 0 && forest_matches(
                                *v,
                                f,
                            )) by {
                                if f.len() > 0 && forest_matches(*v, f) {
                                    assert(tree_matches(trees@[i as int], f[i as int]));
                                }
                            }
                        }
                        return Err(e);
                    },
                }
            }
            Ok(out)
        },
        _ => Err(ModelError::InvalidModel),
    }
}

} // verus!
