//! Ensemble aggregator: majority vote over a forest of decision trees.
//!
//! Every tree votes a class index through the tree descent engine; the
//! aggregator counts the votes per class and returns the class with the
//! highest count.  Ties at the maximum are resolved deterministically
//! toward the smallest class index, whatever order the trees stand in.
//! An empty forest is invalid, never a silent default.

use vstd::prelude::*;
use crate::error::ModelError;
use crate::features::{feature_schema, map_features, spec_schema};
use crate::tree::{descend, spec_tree_class, spec_tree_ok, spec_wf, DecisionNode};

verus! {

/// Number of votes cast for class `c`.
pub open spec fn vote_count(votes: Seq<usize>, c: usize) -> nat
    decreases votes.len(),
{
    if votes.len() == 0 {
        0
    } else {
        vote_count(votes.drop_last(), c) + if votes.last() == c {
            1nat
        } else {
            0nat
        }
    }
}

/// `c` wins the vote: it was voted for, no class has a higher count, and
/// every smaller class index has a strictly smaller count (the
/// deterministic tie-break toward the smallest index).
pub open spec fn is_winner(votes: Seq<usize>, c: usize) -> bool {
    &&& vote_count(votes, c) > 0
    &&& forall|d: usize| #[trigger] vote_count(votes, d) <= vote_count(votes, c)
    &&& forall|d: usize| d < c ==> #[trigger] vote_count(votes, d) < vote_count(votes, c)
}

/// A class has votes exactly when it occurs among the votes.
pub proof fn lemma_count_pos(votes: Seq<usize>, c: usize)
    ensures
        vote_count(votes, c) > 0 <==> votes.contains(c),
    decreases votes.len(),
{
    if votes.len() > 0 {
        lemma_count_pos(votes.drop_last(), c);
        if votes.last() == c {
            assert(votes[votes.len() - 1] == c);
        } else if votes.drop_last().contains(c) {
            let j = choose|j: int|
                0 <= j < votes.drop_last().len() && votes.drop_last()[j] == c;
            assert(votes[j] == c);
        } else if votes.contains(c) {
            let j = choose|j: int| 0 <= j < votes.len() && votes[j] == c;
            assert(votes.drop_last()[j] == c);
        }
    }
}

/// When every vote names `v`, the count of `v` is the number of votes.
pub proof fn lemma_count_all_equal(votes: Seq<usize>, v: usize)
    requires
        forall|j: int| 0 <= j < votes.len() ==> votes[j] == v,
    ensures
        vote_count(votes, v) == votes.len(),
    decreases votes.len(),
{
    if votes.len() > 0 {
        assert(forall|j: int|
            0 <= j < votes.drop_last().len() ==> votes.drop_last()[j] == votes[j]);
        lemma_count_all_equal(votes.drop_last(), v);
    }
}

/// At most one class wins a vote.
pub proof fn lemma_winner_unique(votes: Seq<usize>, c1: usize, c2: usize)
    requires
        is_winner(votes, c1),
        is_winner(votes, c2),
    ensures
        c1 == c2,
{
    if c1 < c2 {
        assert(vote_count(votes, c1) < vote_count(votes, c2));
        assert(vote_count(votes, c2) <= vote_count(votes, c1));
    }
    if c2 < c1 {
        assert(vote_count(votes, c2) < vote_count(votes, c1));
        assert(vote_count(votes, c1) <= vote_count(votes, c2));
    }
}

/// A unanimous vote is won by the common class and by nothing else.
pub proof fn lemma_unanimous(votes: Seq<usize>, v: usize)
    requires
        votes.len() > 0,
        forall|j: int| 0 <= j < votes.len() ==> votes[j] == v,
    ensures
        is_winner(votes, v),
        forall|c: usize| is_winner(votes, c) ==> c == v,
{
    lemma_count_all_equal(votes, v);
    assert forall|d: usize| #[trigger] vote_count(votes, d) <= vote_count(votes, v) by {
        if d != v {
            lemma_count_pos(votes, d);
            if votes.contains(d) {
                let j = choose|j: int| 0 <= j < votes.len() && votes[j] == d;
            }
        }
    }
    assert forall|d: usize| d < v implies #[trigger] vote_count(votes, d) < vote_count(
        votes,
        v,
    ) by {
        lemma_count_pos(votes, d);
        if votes.contains(d) {
            let j = choose|j: int| 0 <= j < votes.len() && votes[j] == d;
        }
    }
    assert forall|c: usize| is_winner(votes, c) implies c == v by {
        lemma_winner_unique(votes, c, v);
    }
}

/// The winner depends only on how often each class was voted for, not on
/// the order the votes arrived in.
pub proof fn lemma_winner_order_independent(v1: Seq<usize>, v2: Seq<usize>)
    requires
        forall|d: usize| #[trigger] vote_count(v1, d) == vote_count(v2, d),
    ensures
        forall|c: usize| #[trigger] is_winner(v1, c) <==> is_winner(v2, c),
{
    assert forall|c: usize| #[trigger] is_winner(v1, c) <==> is_winner(v2, c) by {
        assert(vote_count(v1, c) == vote_count(v2, c));
        if is_winner(v1, c) {
            assert forall|d: usize| #[trigger] vote_count(v2, d) <= vote_count(v2, c) by {
                assert(vote_count(v1, d) <= vote_count(v1, c));
                assert(vote_count(v1, d) == vote_count(v2, d));
            }
            assert forall|d: usize| d < c implies #[trigger] vote_count(v2, d) < vote_count(
                v2,
                c,
            ) by {
                assert(vote_count(v1, d) < vote_count(v1, c));
                assert(vote_count(v1, d) == vote_count(v2, d));
            }
        }
        if is_winner(v2, c) {
            assert forall|d: usize| #[trigger] vote_count(v1, d) <= vote_count(v1, c) by {
                assert(vote_count(v2, d) <= vote_count(v2, c));
                assert(vote_count(v1, d) == vote_count(v2, d));
            }
            assert forall|d: usize| d < c implies #[trigger] vote_count(v1, d) < vote_count(
                v1,
                c,
            ) by {
                assert(vote_count(v2, d) < vote_count(v2, c));
                assert(vote_count(v1, d) == vote_count(v2, d));
            }
        }
    }
}

/// When two classes tie at the maximum count, the winner is at or below
/// both: a tie is never resolved toward the larger index.
pub proof fn lemma_tie_break_smallest(votes: Seq<usize>, a: usize, b: usize, c: usize)
    requires
        vote_count(votes, a) == vote_count(votes, b),
        forall|d: usize| #[trigger] vote_count(votes, d) <= vote_count(votes, a),
        is_winner(votes, c),
    ensures
        c <= a,
        c <= b,
{
    if a < c {
        assert(vote_count(votes, a) < vote_count(votes, c));
    }
    if b < c {
        assert(vote_count(votes, b) < vote_count(votes, c));
    }
}

/// A forest of identical trees votes unanimously: its aggregate equals the
/// single tree's prediction, whatever the number of copies.
pub proof fn lemma_identical_forest(
    values: Seq<u64>,
    tree: DecisionNode,
    forest: Seq<DecisionNode>,
)
    requires
        forest.len() >= 1,
        forall|i: int| 0 <= i < forest.len() ==> forest[i] == tree,
    ensures
        is_winner(spec_forest_votes(values, forest), spec_tree_class(values, tree) as usize),
        forall|c: usize|
            is_winner(spec_forest_votes(values, forest), c) ==> c == spec_tree_class(
                values,
                tree,
            ) as usize,
{
    let votes = spec_forest_votes(values, forest);
    let v = spec_tree_class(values, tree) as usize;
    assert(forall|j: int| 0 <= j < votes.len() ==> votes[j] == v);
    lemma_unanimous(votes, v);
}

/// Counts the votes cast for class `c`.
pub fn count_votes(votes: &Vec<usize>, c: usize) -> (n: usize)
    ensures
        n as nat == vote_count(votes@, c),
{
    let mut n: usize = 0;
    let m = votes.len();
    proof {
        assert(votes@.take(0).len() == 0);
    }
    for i in 0..m
        invariant
            m == votes@.len(),
            n <= i,
            n as nat == vote_count(votes@.take(i as int), c),
    {
        proof {
            assert(votes@.take(i as int + 1).drop_last() =~= votes@.take(i as int));
            assert(votes@.take(i as int + 1).last() == votes@[i as int]);
        }
        if votes[i] == c {
            n = n + 1;
        }
    }
    proof {
        assert(votes@.take(m as int) =~= votes@);
    }
    n
}

/// Selects the winning class of a non-empty vote: highest count, smallest
/// class index on a tie.  An empty vote is an invalid model.
pub fn majority_vote(votes: &Vec<usize>) -> (r: Result<usize, ModelError>)
    ensures
        votes@.len() == 0 ==> r == Err::<usize, ModelError>(ModelError::InvalidModel),
        votes@.len() > 0 ==> (r matches Ok(c) && is_winner(votes@, c)),
{
    if votes.len() == 0 {
        return Err(ModelError::InvalidModel);
    }
    let mut best: usize = votes[0];
    let mut best_cnt: usize = count_votes(votes, best);
    proof {
        lemma_count_pos(votes@, best);
        assert(votes@[0] == best);
    }
    let m = votes.len();
    let mut i: usize = 1;
    while i < m
        invariant
            m == votes@.len(),
            1 <= i <= m,
            best_cnt >= 1,
            best_cnt as nat == vote_count(votes@, best),
            votes@.contains(best),
            forall|j: int|
                0 <= j < i ==> #[trigger] votes@[j] == best || vote_count(votes@, votes@[j])
                    < best_cnt as nat || (vote_count(votes@, votes@[j]) == best_cnt as nat && best
                    < votes@[j]),
        decreases m - i,
    {
        let c = votes[i];
        let cnt = count_votes(votes, c);
        proof {
            lemma_count_pos(votes@, c);
            assert(votes@[i as int] == c);
        }
        if cnt > best_cnt || (cnt == best_cnt && c < best) {
            best = c;
            best_cnt = cnt;
        }
        i += 1;
    }
    proof {
        assert forall|d: usize| #[trigger] vote_count(votes@, d) <= vote_count(votes@, best) by {
            lemma_count_pos(votes@, d);
            if vote_count(votes@, d) > 0 {
                let j = choose|j: int| 0 <= j < votes@.len() && votes@[j] == d;
                assert(votes@[j] == d);
            }
        }
        assert forall|d: usize| d < best implies #[trigger] vote_count(votes@, d) < vote_count(
            votes@,
            best,
        ) by {
            lemma_count_pos(votes@, d);
            if vote_count(votes@, d) > 0 {
                let j = choose|j: int| 0 <= j < votes@.len() && votes@[j] == d;
                assert(votes@[j] == d);
            }
        }
    }
    Ok(best)
}

/// The vote each tree of the forest casts for the given feature vector.
pub open spec fn spec_forest_votes(values: Seq<u64>, forest: Seq<DecisionNode>) -> Seq<usize> {
    Seq::new(forest.len(), |i: int| spec_tree_class(values, forest[i]) as usize)
}

/// Every tree of the non-empty forest reaches a usable leaf.
pub open spec fn spec_forest_ok(values: Seq<u64>, forest: Seq<DecisionNode>) -> bool {
    forest.len() > 0 && forall|i: int| 0 <= i < forest.len() ==> spec_tree_ok(
        values,
        #[trigger] forest[i],
    )
}

/// Predicts a class index for an ordered feature vector with a forest:
/// binds the vector to the fixed schema once, lets every tree vote — all
/// trees vote, none is skipped — and aggregates by majority with the
/// smallest-index tie-break.
pub fn random_forest_prediction(features: &Vec<u64>, model: &Vec<DecisionNode>) -> (r: Result<
    usize,
    ModelError,
>)
    ensures
        spec_forest_ok(features@, model@) ==> (r matches Ok(c) && is_winner(
            spec_forest_votes(features@, model@),
            c,
        )),
        !spec_forest_ok(features@, model@) ==> r == Err::<usize, ModelError>(
            ModelError::InvalidModel,
        ),
        model@.len() > 0 && (forall|i: int| 0 <= i < model@.len() ==> spec_wf(#[trigger] model@[i]))
            ==> r is Ok,
{
    proof {
        if forall|i: int| 0 <= i < model@.len() ==> spec_wf(#[trigger] model@[i]) {
            assert forall|i: int|
                0 <= i < model@.len() implies spec_tree_ok(features@, #[trigger] model@[i]) by {
                crate::tree::lemma_wf_leaf_nonempty(
                    crate::features::spec_map_features(spec_schema(), features@),
                    model@[i],
                );
            }
        }
    }
    if model.len() == 0 {
        return Err(ModelError::InvalidModel);
    }
    let schema = feature_schema();
    let nf = map_features(&schema, features);
    proof {
        assert(schema@.map(|i: int, s: String| s@) =~= spec_schema());
    }
    let mut votes: Vec<usize> = Vec::new();
    let m = model.len();
    for i in 0..m
        invariant
            m == model@.len(),
            nf@ == crate::features::spec_map_features(spec_schema(), features@),
            votes@.len() == i,
            forall|j: int|
                0 <= j < i ==> spec_tree_ok(features@, #[trigger] model@[j]) && votes@[j]
                    == spec_tree_class(features@, model@[j]) as usize,
    {
        match descend(&nf, &model[i]) {
            Ok(c) => {
                proof {
                    crate::tree::lemma_argmax_props(
                        crate::tree::spec_leaf_dist(nf@, model@[i as int]),
                    );
                }
                votes.push(c);
            },
            Err(e) => {
                return Err(e);
            },
        }
    }
    proof {
        assert(votes@ =~= spec_forest_votes(features@, model@));
    }
    majority_vote(&votes)
}

} // verus!
