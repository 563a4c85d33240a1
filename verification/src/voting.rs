//! Voting over the labels that the agents predict.
//!
//! Majority voting counts one vote per agent; ranked voting (Borda count) adds
//! up the rank that every agent gives each class, rank 0 being its first
//! choice. Both resolve ties toward the lowest class index.
use vstd::prelude::*;
use crate::label::{TernaryLabel, valid_label, all_valid};
use crate::select::{argmax_lowest, argmin_lowest, spec_argmax3, spec_argmin3};

verus! {

/// The type of voting to use.
#[derive(Debug, Clone, Copy, PartialEq, Eq, Structural)]
pub enum VotingStrategy {
    /// Simple majority vote: each agent gets one equal vote.
    Majority,
    /// Weighted vote: each agent's vote is weighted by its accuracy.
    Weighted,
    /// Ranked vote: agents rank classes; lowest total rank wins (Borda count).
    Ranked,
}

/// Number of entries of `s` equal to `c`.
pub open spec fn count_label(s: Seq<u8>, c: u8) -> nat
    decreases s.len(),
{
    if s.len() == 0 {
        0
    } else {
        count_label(s.drop_last(), c) + if s.last() == c { 1nat } else { 0nat }
    }
}

/// The label that a majority vote over the predictions `preds` elects.
pub open spec fn spec_majority(preds: Seq<u8>) -> u8 {
    spec_argmax3(
        count_label(preds, 0) as int,
        count_label(preds, 1) as int,
        count_label(preds, 2) as int,
    )
}

proof fn lemma_count_le_len(s: Seq<u8>, c: u8)
    ensures
        count_label(s, c) <= s.len(),
    decreases s.len(),
{
    if s.len() > 0 {
        lemma_count_le_len(s.drop_last(), c);
    }
}

/// Counts the votes for each class: `counts[c]` agents predicted `c`.
pub fn class_counts(preds: &Vec<TernaryLabel>) -> (counts: [usize; 3])
    requires
        all_valid(preds@),
    ensures
        counts[0] == count_label(preds@, 0),
        counts[1] == count_label(preds@, 1),
        counts[2] == count_label(preds@, 2),
{
    let mut counts: [usize; 3] = [0, 0, 0];
    let n = preds.len();
    for i in 0..n
        invariant
            n == preds@.len(),
            all_valid(preds@),
            counts[0] == count_label(preds@.take(i as int), 0),
            counts[1] == count_label(preds@.take(i as int), 1),
            counts[2] == count_label(preds@.take(i as int), 2),
    {
        proof {
            assert(preds@.take(i + 1).drop_last() =~= preds@.take(i as int));
            lemma_count_le_len(preds@.take(i as int), 0);
            lemma_count_le_len(preds@.take(i as int), 1);
            lemma_count_le_len(preds@.take(i as int), 2);
            assert(valid_label(preds@[i as int]));
        }
        let p = preds[i];
        if p == 0 {
            counts[0] = counts[0] + 1;
        } else if p == 1 {
            counts[1] = counts[1] + 1;
        } else {
            counts[2] = counts[2] + 1;
        }
    }
    assert(preds@.take(n as int) =~= preds@);
    counts
}

/// Majority vote over the agents' predictions: the class predicted by the
/// most agents, ties going to the lowest class index (0 when `preds` is empty).
pub fn majority_vote(preds: &Vec<TernaryLabel>) -> (winner: TernaryLabel)
    requires
        all_valid(preds@),
    ensures
        winner == spec_majority(preds@),
        valid_label(winner),
{
    let counts = class_counts(preds);
    argmax_lowest([counts[0] as i128, counts[1] as i128, counts[2] as i128])
}

/// 1 when class `m` comes before class `l` in an agent's ranking by the
/// confidence keys `k`: a greater key comes first, and equal keys keep
/// class order (a stable sort, highest confidence first).
pub open spec fn precedes(k: [i64; 3], m: int, l: int) -> nat {
    if k@[m] > k@[l] || (m < l && k@[m] == k@[l]) {
        1
    } else {
        0
    }
}

/// The rank (0 = first choice) that an agent with confidence keys `k` gives class `l`.
pub open spec fn rank_of(k: [i64; 3], l: int) -> nat {
    precedes(k, 0, l) + precedes(k, 1, l) + precedes(k, 2, l)
}

/// Total Borda points of class `c` over the agents' confidence keys `ks`.
pub open spec fn borda(ks: Seq<[i64; 3]>, c: int) -> nat
    decreases ks.len(),
{
    if ks.len() == 0 {
        0
    } else {
        borda(ks.drop_last(), c) + rank_of(ks.last(), c)
    }
}

/// The label that a ranked (Borda) vote over the confidence keys `ks` elects.
pub open spec fn spec_ranked(ks: Seq<[i64; 3]>) -> u8 {
    spec_argmin3(borda(ks, 0) as int, borda(ks, 1) as int, borda(ks, 2) as int)
}

/// The ranks that one agent gives the three classes, from its confidence
/// keys: highest confidence gets rank 0, equal confidences keep class order.
pub fn stable_ranks(k: [i64; 3]) -> (ranks: [u8; 3])
    ensures
        ranks[0] == rank_of(k, 0),
        ranks[1] == rank_of(k, 1),
        ranks[2] == rank_of(k, 2),
        forall|m: int, l: int|
            0 <= m < 3 && 0 <= l < 3 && k@[m] > k@[l] ==> #[trigger] ranks@[m] < #[trigger] ranks@[l],
        forall|m: int, l: int|
            0 <= m < l < 3 && k@[m] == k@[l] ==> #[trigger] ranks@[m] < #[trigger] ranks@[l],
        forall|m: int| 0 <= m < 3 ==> #[trigger] ranks@[m] <= 2,
{
    let r0: u8 = (if k[1] > k[0] { 1u8 } else { 0u8 }) + (if k[2] > k[0] { 1u8 } else { 0u8 });
    let r1: u8 = (if k[0] >= k[1] { 1u8 } else { 0u8 }) + (if k[2] > k[1] { 1u8 } else { 0u8 });
    let r2: u8 = (if k[0] >= k[2] { 1u8 } else { 0u8 }) + (if k[1] >= k[2] { 1u8 } else { 0u8 });
    let ranks = [r0, r1, r2];
    proof {
        law_rank_follows_confidence(k);
        law_ranks_are_a_permutation(k);
    }
    ranks
}

proof fn lemma_borda_le(ks: Seq<[i64; 3]>, c: int)
    requires
        0 <= c < 3,
    ensures
        borda(ks, c) <= 2 * ks.len(),
    decreases ks.len(),
{
    if ks.len() > 0 {
        lemma_borda_le(ks.drop_last(), c);
        assert(rank_of(ks.last(), c) <= 2) by {
            assert(precedes(ks.last(), c, c) == 0);
        }
    }
}

/// Borda scores of the three classes: `scores[c]` is the sum of the ranks
/// that the agents, given by their confidence keys, assign to class `c`.
pub fn borda_scores(conf_keys: &Vec<[i64; 3]>) -> (scores: [u128; 3])
    ensures
        scores[0] == borda(conf_keys@, 0),
        scores[1] == borda(conf_keys@, 1),
        scores[2] == borda(conf_keys@, 2),
        scores[0] <= 2 * conf_keys@.len(),
        scores[1] <= 2 * conf_keys@.len(),
        scores[2] <= 2 * conf_keys@.len(),
        conf_keys@.len() <= usize::MAX,
{
    let mut scores: [u128; 3] = [0, 0, 0];
    let n = conf_keys.len();
    for i in 0..n
        invariant
            n == conf_keys@.len(),
            scores[0] == borda(conf_keys@.take(i as int), 0),
            scores[1] == borda(conf_keys@.take(i as int), 1),
            scores[2] == borda(conf_keys@.take(i as int), 2),
    {
        proof {
            assert(conf_keys@.take(i + 1).drop_last() =~= conf_keys@.take(i as int));
            lemma_borda_le(conf_keys@.take(i as int), 0);
            lemma_borda_le(conf_keys@.take(i as int), 1);
            lemma_borda_le(conf_keys@.take(i as int), 2);
        }
        let ranks = stable_ranks(conf_keys[i]);
        scores[0] = scores[0] + ranks[0] as u128;
        scores[1] = scores[1] + ranks[1] as u128;
        scores[2] = scores[2] + ranks[2] as u128;
    }
    assert(conf_keys@.take(n as int) =~= conf_keys@);
    proof {
        lemma_borda_le(conf_keys@, 0);
        lemma_borda_le(conf_keys@, 1);
        lemma_borda_le(conf_keys@, 2);
    }
    scores
}

/// Ranked (Borda count) vote: each agent ranks the three classes by its
/// confidence keys, and the class with the lowest total rank wins, ties
/// going to the lowest class index (0 when there are no agents).
pub fn ranked_vote(conf_keys: &Vec<[i64; 3]>) -> (winner: TernaryLabel)
    ensures
        winner == spec_ranked(conf_keys@),
        valid_label(winner),
        forall|c: int| 0 <= c < 3 ==> borda(conf_keys@, winner as int) <= #[trigger] borda(conf_keys@, c),
        forall|c: int| 0 <= c < winner ==> borda(conf_keys@, winner as int) < #[trigger] borda(conf_keys@, c),
{
    let s = borda_scores(conf_keys);
    let winner = argmin_lowest([s[0] as i128, s[1] as i128, s[2] as i128]);
    proof {
        law_ranked_least_total(conf_keys@);
    }
    winner
}

/// The count of a label is its multiplicity in the predictions.
pub proof fn lemma_count_is_multiplicity(s: Seq<u8>, c: u8)
    ensures
        count_label(s, c) == s.to_multiset().count(c),
    decreases s.len(),
{
    broadcast use vstd::seq_lib::group_to_multiset_ensures;

    if s.len() > 0 {
        lemma_count_is_multiplicity(s.drop_last(), c);
        assert(s.drop_last().push(s.last()) =~= s);
    } else {
        assert(s.to_multiset().len() == 0);
    }
}

/// Majority voting does not depend on the order of the agents: two lists of
/// predictions that hold the same labels the same number of times elect the
/// same class.
pub proof fn law_majority_order_independent(p: Seq<u8>, q: Seq<u8>)
    requires
        p.to_multiset() == q.to_multiset(),
    ensures
        spec_majority(p) == spec_majority(q),
{
    lemma_count_is_multiplicity(p, 0);
    lemma_count_is_multiplicity(p, 1);
    lemma_count_is_multiplicity(p, 2);
    lemma_count_is_multiplicity(q, 0);
    lemma_count_is_multiplicity(q, 1);
    lemma_count_is_multiplicity(q, 2);
}

/// Every agent votes exactly once: the three class counts add up to the
/// number of predictions.
pub proof fn law_counts_total(p: Seq<u8>)
    requires
        all_valid(p),
    ensures
        count_label(p, 0) + count_label(p, 1) + count_label(p, 2) == p.len(),
    decreases p.len(),
{
    if p.len() > 0 {
        let init = p.drop_last();
        assert forall|i: int| 0 <= i < init.len() implies #[trigger] valid_label(init[i]) by {
            assert(valid_label(p[i]));
        }
        assert(valid_label(p[p.len() - 1]));
        law_counts_total(init);
    }
}

/// The label with the most votes wins: the majority winner has at least as
/// many votes as every class, and strictly more than every class of lower index.
pub proof fn law_majority_most_votes(p: Seq<u8>, c: u8)
    requires
        valid_label(c),
    ensures
        count_label(p, c) <= count_label(p, spec_majority(p)),
        c < spec_majority(p) ==> count_label(p, c) < count_label(p, spec_majority(p)),
{
}

/// When every agent predicts the same label, the majority vote elects it.
pub proof fn law_majority_unanimous(p: Seq<u8>, l: u8)
    requires
        valid_label(l),
        p.len() > 0,
        forall|i: int| 0 <= i < p.len() ==> p[i] == l,
    ensures
        spec_majority(p) == l,
    decreases p.len(),
{
    lemma_count_all(p, l);
    lemma_count_none(p, l, ((l + 1) % 3) as u8);
    lemma_count_none(p, l, ((l + 2) % 3) as u8);
}

proof fn lemma_count_all(p: Seq<u8>, l: u8)
    requires
        forall|i: int| 0 <= i < p.len() ==> p[i] == l,
    ensures
        count_label(p, l) == p.len(),
    decreases p.len(),
{
    if p.len() > 0 {
        lemma_count_all(p.drop_last(), l);
    }
}

proof fn lemma_count_none(p: Seq<u8>, l: u8, c: u8)
    requires
        forall|i: int| 0 <= i < p.len() ==> p[i] == l,
        c != l,
    ensures
        count_label(p, c) == 0,
    decreases p.len(),
{
    if p.len() > 0 {
        lemma_count_none(p.drop_last(), l, c);
    }
}

/// Each agent gives the three classes the ranks 0, 1 and 2, each exactly once.
pub proof fn law_ranks_are_a_permutation(k: [i64; 3])
    ensures
        rank_of(k, 0) <= 2,
        rank_of(k, 1) <= 2,
        rank_of(k, 2) <= 2,
        rank_of(k, 0) != rank_of(k, 1),
        rank_of(k, 0) != rank_of(k, 2),
        rank_of(k, 1) != rank_of(k, 2),
        rank_of(k, 0) + rank_of(k, 1) + rank_of(k, 2) == 3,
{
}

/// Every agent hands out 0 + 1 + 2 = 3 Borda points, so the three classes
/// together hold three points per agent.
pub proof fn law_borda_total(ks: Seq<[i64; 3]>)
    ensures
        borda(ks, 0) + borda(ks, 1) + borda(ks, 2) == 3 * ks.len(),
    decreases ks.len(),
{
    if ks.len() > 0 {
        law_borda_total(ks.drop_last());
        law_ranks_are_a_permutation(ks.last());
    }
}

/// An agent that is equally confident in every class ranks them in class
/// order; when all agents are, class `c` collects `c` points per agent and
/// the ranked vote elects class 0.
pub proof fn law_ranked_equal_confidence(ks: Seq<[i64; 3]>)
    requires
        forall|i: int|
            0 <= i < ks.len() ==> #[trigger] ks[i]@[0] == ks[i]@[1] && ks[i]@[1] == ks[i]@[2],
    ensures
        borda(ks, 0) == 0,
        borda(ks, 1) == ks.len(),
        borda(ks, 2) == 2 * ks.len(),
        spec_ranked(ks) == 0,
    decreases ks.len(),
{
    if ks.len() > 0 {
        let init = ks.drop_last();
        assert forall|i: int| 0 <= i < init.len() implies #[trigger] init[i]@[0] == init[i]@[1]
            && init[i]@[1] == init[i]@[2] by {
            assert(init[i] == ks[i]);
        }
        law_ranked_equal_confidence(init);
        assert(ks[ks.len() - 1] == ks.last());
    }
}

/// An agent ranks a more confident class ahead: a greater confidence key
/// gives a strictly smaller rank, and of two classes with equal keys the
/// lower class comes first.
pub proof fn law_rank_follows_confidence(k: [i64; 3])
    ensures
        forall|m: int, l: int|
            0 <= m < 3 && 0 <= l < 3 && k@[m] > k@[l] ==> #[trigger] rank_of(k, m) < #[trigger] rank_of(
                k,
                l,
            ),
        forall|m: int, l: int|
            0 <= m < l < 3 && k@[m] == k@[l] ==> #[trigger] rank_of(k, m) < #[trigger] rank_of(k, l),
        forall|m: int| 0 <= m < 3 && (forall|l: int| 0 <= l < 3 ==> k@[m] > k@[l] || l == m) ==> #[trigger] rank_of(k, m) == 0,
{
}

/// The ranked vote elects a class with the least Borda total: its total is
/// at most every class's total, and strictly below the total of every class
/// of lower index.
pub proof fn law_ranked_least_total(ks: Seq<[i64; 3]>)
    ensures
        spec_ranked(ks) <= 2,
        forall|c: int| 0 <= c < 3 ==> borda(ks, spec_ranked(ks) as int) <= #[trigger] borda(ks, c),
        forall|c: int|
            0 <= c < spec_ranked(ks) ==> borda(ks, spec_ranked(ks) as int) < #[trigger] borda(ks, c),
{
}

/// Adding an agent adds the rank it gives each class to that class's total.
pub proof fn law_borda_add_agent(ks: Seq<[i64; 3]>, k: [i64; 3], c: int)
    ensures
        borda(ks.push(k), c) == borda(ks, c) + rank_of(k, c),
        borda(Seq::<[i64; 3]>::empty(), c) == 0,
{
    assert(ks.push(k).drop_last() =~= ks);
}

} // verus!
