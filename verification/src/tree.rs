//! Tree descent engine.
//!
//! A decision tree is a tagged structure: an internal node names a feature,
//! carries a threshold and owns exactly two children; a leaf owns a
//! distribution of class scores.  Descent resolves the named feature
//! (substituting `0.0` for an absent one — the explicit default policy of
//! this engine), goes left when the value is at or below the threshold and
//! right otherwise, and at a leaf returns the stable argmax of the
//! distribution: the first index of a maximal non-NaN score — NaN entries
//! never win a comparison and are skipped rather than propagated.  All
//! other comparisons use the engine's total numeric order over bit
//! patterns.

use vstd::prelude::*;
use crate::error::ModelError;
use crate::features::{
    feature_schema, map_features, spec_lookup, spec_map_features, spec_schema, NamedFeatures,
};
use crate::numeric::{num_is_nan, num_le, num_lt, spec_is_nan, spec_le, spec_lt, ZERO_BITS};

verus! {

/// One node of a decision tree; the root stands for the whole tree.
pub enum DecisionNode {
    /// A decision point: compare the named feature to the threshold, then
    /// descend into exactly one of the two owned children.
    Internal {
        feature: String,
        threshold: u64,
        left: Box<DecisionNode>,
        right: Box<DecisionNode>,
    },
    /// A leaf: the scores of each class; the predicted class is the stable
    /// argmax index over the non-NaN scores.
    Leaf { distribution: Vec<u64> },
}

/// A tree is well formed when every leaf holds a non-empty distribution.
pub open spec fn spec_wf(node: DecisionNode) -> bool
    decreases node,
{
    match node {
        DecisionNode::Leaf { distribution } => distribution@.len() > 0,
        DecisionNode::Internal { feature: _, threshold: _, left, right } => spec_wf(*left)
            && spec_wf(*right),
    }
}

/// Stable argmax: the first index of a maximal non-NaN score.  A NaN
/// entry never wins a comparison and is skipped rather than propagated;
/// only when every score is NaN (or the sequence is empty or a singleton)
/// does the index degenerate to the first position.
pub open spec fn spec_argmax(dist: Seq<u64>) -> int
    decreases dist.len(),
{
    if dist.len() <= 1 {
        0
    } else {
        let r = spec_argmax(dist.drop_last());
        if spec_is_nan(dist.last()) {
            r
        } else if spec_is_nan(dist[r]) || spec_lt(dist[r], dist.last()) {
            dist.len() - 1
        } else {
            r
        }
    }
}

/// The stable argmax is in range; it never lands on a NaN score while a
/// non-NaN score is present; every non-NaN score is at or below it; and it
/// is the first index to reach the maximum: every earlier non-NaN score is
/// strictly below it.
pub proof fn lemma_argmax_props(dist: Seq<u64>)
    requires
        dist.len() > 0,
    ensures
        0 <= spec_argmax(dist) < dist.len(),
        (exists|i: int| 0 <= i < dist.len() && !spec_is_nan(#[trigger] dist[i]))
            ==> !spec_is_nan(dist[spec_argmax(dist)]),
        forall|i: int|
            0 <= i < dist.len() && !spec_is_nan(#[trigger] dist[i]) ==> spec_le(
                dist[i],
                dist[spec_argmax(dist)],
            ),
        forall|i: int|
            0 <= i < spec_argmax(dist) && !spec_is_nan(#[trigger] dist[i]) ==> spec_lt(
                dist[i],
                dist[spec_argmax(dist)],
            ),
    decreases dist.len(),
{
    if dist.len() > 1 {
        let d = dist.drop_last();
        let r = spec_argmax(d);
        let m = spec_argmax(dist);
        lemma_argmax_props(d);
        assert(d[r] == dist[r]);
        assert forall|i: int|
            0 <= i < dist.len() && !spec_is_nan(#[trigger] dist[i]) implies spec_le(
            dist[i],
            dist[m],
        ) by {
            if i < dist.len() - 1 {
                assert(d[i] == dist[i]);
                assert(spec_le(d[i], d[r]));
            }
        }
        assert forall|i: int|
            0 <= i < m && !spec_is_nan(#[trigger] dist[i]) implies spec_lt(dist[i], dist[m]) by {
            if i < dist.len() - 1 {
                assert(d[i] == dist[i]);
                assert(spec_le(d[i], d[r]));
                if i < r {
                    assert(spec_lt(d[i], d[r]));
                }
            }
        }
        if exists|i: int| 0 <= i < dist.len() && !spec_is_nan(#[trigger] dist[i]) {
            let w = choose|i: int| 0 <= i < dist.len() && !spec_is_nan(#[trigger] dist[i]);
            if w < dist.len() - 1 {
                assert(!spec_is_nan(d[w]));
            }
            assert(!spec_is_nan(dist[m]));
        }
    }
}

/// Computes the stable argmax of a non-empty distribution, skipping NaN
/// scores: a NaN entry never wins while a non-NaN score is present.
pub fn argmax(dist: &Vec<u64>) -> (idx: usize)
    requires
        dist@.len() > 0,
    ensures
        idx as int == spec_argmax(dist@),
{
    let mut best: usize = 0;
    let mut i: usize = 1;
    while i < dist.len()
        invariant
            1 <= i <= dist@.len(),
            best < i,
            best as int == spec_argmax(dist@.take(i as int)),
        decreases dist@.len() - i,
    {
        proof {
            assert(dist@.take(i as int + 1).drop_last() =~= dist@.take(i as int));
            assert(dist@.take(i as int + 1).last() == dist@[i as int]);
        }
        if !num_is_nan(dist[i]) && (num_is_nan(dist[best]) || num_lt(dist[best], dist[i])) {
            best = i;
        }
        i += 1;
    }
    proof {
        assert(dist@.take(dist@.len() as int) =~= dist@);
    }
    best
}

/// Distribution of the leaf that descent reaches for the given named
/// features: at an internal node the named feature (or `0.0` when absent)
/// is compared with the threshold — left at or below, right above.
pub open spec fn spec_leaf_dist(pairs: Seq<(Seq<char>, u64)>, node: DecisionNode) -> Seq<u64>
    decreases node,
{
    match node {
        DecisionNode::Leaf { distribution } => distribution@,
        DecisionNode::Internal { feature, threshold, left, right } => {
            let v = match spec_lookup(pairs, feature@) {
                Some(x) => x,
                None => ZERO_BITS,
            };
            if spec_le(v, threshold) {
                spec_leaf_dist(pairs, *left)
            } else {
                spec_leaf_dist(pairs, *right)
            }
        },
    }
}

/// On a well-formed tree, descent always reaches a non-empty distribution.
pub proof fn lemma_wf_leaf_nonempty(pairs: Seq<(Seq<char>, u64)>, node: DecisionNode)
    requires
        spec_wf(node),
    ensures
        spec_leaf_dist(pairs, node).len() > 0,
    decreases node,
{
    match node {
        DecisionNode::Leaf { distribution } => {},
        DecisionNode::Internal { feature, threshold, left, right } => {
            lemma_wf_leaf_nonempty(pairs, *left);
            lemma_wf_leaf_nonempty(pairs, *right);
        },
    }
}

/// Recursive descent from `node` to a leaf, then the stable argmax of that
/// leaf's distribution.  An empty distribution at the reached leaf is a
/// recoverable `InvalidModel` failure, never a crash; the returned index is
/// always strictly below the reached distribution's length.
pub fn descend(features: &NamedFeatures, node: &DecisionNode) -> (r: Result<usize, ModelError>)
    ensures
        spec_leaf_dist(features@, *node).len() == 0 ==> r == Err::<usize, ModelError>(
            ModelError::InvalidModel,
        ),
        spec_leaf_dist(features@, *node).len() > 0 ==> r == Ok::<usize, ModelError>(
            spec_argmax(spec_leaf_dist(features@, *node)) as usize,
        ),
        r matches Ok(idx) ==> (idx as int) < spec_leaf_dist(features@, *node).len(),
        spec_wf(*node) ==> r is Ok,
    decreases *node,
{
    proof {
        if spec_wf(*node) {
            lemma_wf_leaf_nonempty(features@, *node);
        }
    }
    match node {
        DecisionNode::Leaf { distribution } => {
            if distribution.len() == 0 {
                Err(ModelError::InvalidModel)
            } else {
                proof {
                    lemma_argmax_props(distribution@);
                }
                Ok(argmax(distribution))
            }
        },
        DecisionNode::Internal { feature, threshold, left, right } => {
            let v = match features.lookup(feature) {
                Some(x) => x,
                None => ZERO_BITS,
            };
            if num_le(v, *threshold) {
                descend(features, left)
            } else {
                descend(features, right)
            }
        },
    }
}

/// Class index the tree predicts for an ordered feature vector, after the
/// vector is bound to the fixed schema.
pub open spec fn spec_tree_class(values: Seq<u64>, node: DecisionNode) -> int {
    spec_argmax(spec_leaf_dist(spec_map_features(spec_schema(), values), node))
}

/// The reached leaf is usable: its distribution is non-empty.
pub open spec fn spec_tree_ok(values: Seq<u64>, node: DecisionNode) -> bool {
    spec_leaf_dist(spec_map_features(spec_schema(), values), node).len() > 0
}

/// Predicts a class index for an ordered feature vector with one decision
/// tree: binds the vector to the fixed schema, then descends.
pub fn decision_tree_prediction(features: &Vec<u64>, model: &DecisionNode) -> (r: Result<
    usize,
    ModelError,
>)
    ensures
        spec_tree_ok(features@, *model) ==> r == Ok::<usize, ModelError>(
            spec_tree_class(features@, *model) as usize,
        ),
        !spec_tree_ok(features@, *model) ==> r == Err::<usize, ModelError>(
            ModelError::InvalidModel,
        ),
        spec_wf(*model) ==> r is Ok,
{
    let schema = feature_schema();
    let nf = map_features(&schema, features);
    proof {
        assert(schema@.map(|i: int, s: String| s@) =~= spec_schema());
    }
    descend(&nf, model)
}

} // verus!
