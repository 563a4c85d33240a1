use ternary_ensemble::label::is_ternary_label;
use ternary_ensemble::select::{argmax_lowest, argmin_lowest};
use ternary_ensemble::voting::{
    borda_scores, class_counts, majority_vote, ranked_vote, stable_ranks, VotingStrategy,
};

#[test]
fn labels_zero_one_two_are_ternary() {
    for label in 0u8..=2 {
        assert!(is_ternary_label(label));
    }
}

#[test]
fn labels_above_two_are_not_ternary() {
    assert!(!is_ternary_label(3));
    assert!(!is_ternary_label(255));
}

#[test]
fn argmax_prefers_lowest_index_on_ties() {
    assert_eq!(argmax_lowest([5, 5, 1]), 0);
    assert_eq!(argmax_lowest([1, 7, 7]), 1);
    assert_eq!(argmax_lowest([4, 4, 4]), 0);
    assert_eq!(argmax_lowest([-3, -2, -1]), 2);
    assert_eq!(argmax_lowest([i128::MIN, i128::MAX, 0]), 1);
}

#[test]
fn argmin_prefers_lowest_index_on_ties() {
    assert_eq!(argmin_lowest([2, 2, 5]), 0);
    assert_eq!(argmin_lowest([3, 1, 1]), 1);
    assert_eq!(argmin_lowest([0, 0, 0]), 0);
    assert_eq!(argmin_lowest([9, 8, -7]), 2);
}

#[test]
fn class_counts_count_each_label() {
    assert_eq!(class_counts(&vec![0, 2, 2, 1, 2]), [1, 1, 3]);
    assert_eq!(class_counts(&vec![]), [0, 0, 0]);
}

// Agents that always predict the given labels: two say 2 and one says 0.
#[test]
fn majority_of_constant_agents_real_majority() {
    assert_eq!(majority_vote(&vec![2, 2, 0]), 2);
    assert_eq!(majority_vote(&vec![0, 0, 2]), 0);
}

#[test]
fn majority_ties_go_to_lowest_index() {
    assert_eq!(majority_vote(&vec![0, 1, 2]), 0);
    assert_eq!(majority_vote(&vec![1, 2]), 1);
    assert_eq!(majority_vote(&vec![0, 2]), 0);
}

#[test]
fn majority_of_no_agents_is_zero() {
    assert_eq!(majority_vote(&vec![]), 0);
}

#[test]
fn majority_unanimous_agents_win() {
    assert_eq!(majority_vote(&vec![1, 1, 1]), 1);
    assert_eq!(majority_vote(&vec![2]), 2);
}

#[test]
fn majority_does_not_depend_on_agent_order() {
    let a = majority_vote(&vec![2, 0, 2, 1, 2, 1, 1]);
    let b = majority_vote(&vec![1, 1, 1, 2, 2, 2, 0]);
    assert_eq!(a, b);
    assert_eq!(a, 1);
}

#[test]
fn majority_vote_is_repeatable() {
    let preds = vec![1, 0, 2, 2, 1, 0, 2];
    let first = majority_vote(&preds);
    for _ in 0..10 {
        assert_eq!(majority_vote(&preds), first);
    }
    assert_eq!(first, 2);
}

#[test]
fn stable_ranks_follow_confidence_then_class_order() {
    assert_eq!(stable_ranks([10, 20, 30]), [2, 1, 0]);
    assert_eq!(stable_ranks([5, 5, 5]), [0, 1, 2]);
    assert_eq!(stable_ranks([7, 7, 1]), [0, 1, 2]);
    assert_eq!(stable_ranks([1, 7, 7]), [2, 0, 1]);
    assert_eq!(stable_ranks([-1, 3, -1]), [1, 0, 2]);
}

#[test]
fn borda_with_equal_confidences_ranks_in_class_order() {
    let keys = vec![[4, 4, 4], [-9, -9, -9], [0, 0, 0]];
    assert_eq!(borda_scores(&keys), [0, 3, 6]);
    assert_eq!(ranked_vote(&keys), 0);
}

#[test]
fn ranked_vote_lowest_total_rank_wins() {
    // ranks [2, 0, 1] and [2, 1, 0]: totals [4, 1, 1], tie between 1 and 2.
    let keys = vec![[1, 3, 2], [0, 5, 9]];
    assert_eq!(borda_scores(&keys), [4, 1, 1]);
    assert_eq!(ranked_vote(&keys), 1);
    // A third agent preferring class 2 breaks the tie.
    let keys2 = vec![[1, 3, 2], [0, 5, 9], [0, 1, 2]];
    assert_eq!(borda_scores(&keys2), [6, 2, 1]);
    assert_eq!(ranked_vote(&keys2), 2);
}

#[test]
fn ranked_vote_of_no_agents_is_zero() {
    assert_eq!(borda_scores(&vec![]), [0, 0, 0]);
    assert_eq!(ranked_vote(&vec![]), 0);
}

#[test]
fn voting_strategies_compare_by_variant() {
    assert_eq!(VotingStrategy::Majority, VotingStrategy::Majority);
    assert_ne!(VotingStrategy::Majority, VotingStrategy::Ranked);
    assert_ne!(VotingStrategy::Weighted, VotingStrategy::Ranked);
}
