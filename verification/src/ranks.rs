//! The rank computer: standard competition ranking over a score sequence
//! already sorted best-to-worst by the remote service.

use vstd::prelude::*;

verus! {

/// Standard competition rank (1-indexed) of the entry at position `i` of a
/// best-to-worst score sequence: a score equal to its predecessor's shares
/// the predecessor's rank, any other score takes its 1-indexed position.
pub open spec fn rank_at(scores: Seq<i32>, i: int) -> int
    decreases i,
{
    if i <= 0 {
        1
    } else if scores[i] == scores[i - 1] {
        rank_at(scores, i - 1)
    } else {
        i + 1
    }
}

/// Every rank lies between 1 and the entry's 1-indexed position.
pub proof fn lemma_rank_bounds(scores: Seq<i32>, i: int)
    requires
        0 <= i < scores.len(),
    ensures
        1 <= rank_at(scores, i) <= i + 1,
    decreases i,
{
    if i > 0 && scores[i] == scores[i - 1] {
        lemma_rank_bounds(scores, i - 1);
    }
}

/// Law: rank is non-decreasing with position.
pub proof fn lemma_rank_nondecreasing(scores: Seq<i32>, i: int)
    requires
        1 <= i < scores.len(),
    ensures
        rank_at(scores, i - 1) <= rank_at(scores, i),
{
    if scores[i] != scores[i - 1] {
        lemma_rank_bounds(scores, i - 1);
    }
}

/// Law: two neighbouring entries share a rank exactly when they share a
/// score.
pub proof fn lemma_rank_tie_iff_score_tie(scores: Seq<i32>, i: int)
    requires
        1 <= i < scores.len(),
    ensures
        (rank_at(scores, i) == rank_at(scores, i - 1)) <==> (scores[i] == scores[i - 1]),
{
    if scores[i] != scores[i - 1] {
        lemma_rank_bounds(scores, i - 1);
    }
}

/// Law: when no two neighbouring scores are equal, the rank of every entry
/// is exactly its 1-indexed position.
pub proof fn lemma_rank_distinct_scores(scores: Seq<i32>, i: int)
    requires
        0 <= i < scores.len(),
        forall|j: int| 1 <= j < scores.len() ==> scores[j] != #[trigger] scores[j - 1],
    ensures
        rank_at(scores, i) == i + 1,
{
}

/// Assigns a standard competition rank to every position of a score
/// sequence, in one forward pass.
pub fn assign_ranks(scores: &Vec<i32>) -> (ranks: Vec<u32>)
    requires
        scores@.len() <= u32::MAX,
    ensures
        ranks@.len() == scores@.len(),
        forall|i: int| 0 <= i < ranks@.len() ==> ranks@[i] == rank_at(scores@, i),
{
    let mut ranks: Vec<u32> = Vec::new();
    let mut prev_rank: u32 = 1;
    let mut idx: usize = 0;
    while idx < scores.len()
        invariant
            idx <= scores@.len(),
            scores@.len() <= u32::MAX,
            ranks@.len() == idx,
            forall|i: int| 0 <= i < idx ==> ranks@[i] == rank_at(scores@, i),
            idx > 0 ==> prev_rank == rank_at(scores@, idx - 1),
        decreases scores@.len() - idx,
    {
        let rank: u32 = if idx == 0 {
            1
        } else if scores[idx] == scores[idx - 1] {
            prev_rank
        } else {
            proof {
                lemma_rank_bounds(scores@, idx as int);
            }
            (idx as u32) + 1
        };
        ranks.push(rank);
        prev_rank = rank;
        idx = idx + 1;
    }
    ranks
}

} // verus!
