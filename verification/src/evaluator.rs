//! Counting what an ensemble and its agents got right.
//!
//! The confusion matrix is indexed `[predicted][actual]`. Precision of a
//! class is the share of correct predictions among the samples predicted as
//! that class; recall is the share among the samples that truly are in it.
use vstd::prelude::*;
use crate::label::{TernaryLabel, valid_label, all_valid};
use crate::voting::count_label;

verus! {

/// Number of positions `i` where `p[i] == x` and `a[i] == y`.
pub open spec fn count_pair(p: Seq<u8>, a: Seq<u8>, x: u8, y: u8) -> nat
    decreases p.len(),
{
    if p.len() == 0 || a.len() == 0 {
        0
    } else {
        count_pair(p.drop_last(), a.drop_last(), x, y) + if p.last() == x && a.last() == y {
            1nat
        } else {
            0nat
        }
    }
}

/// Number of positions where the prediction `p[i]` equals the true label `a[i]`.
pub open spec fn count_agree(p: Seq<u8>, a: Seq<u8>) -> nat
    decreases p.len(),
{
    if p.len() == 0 || a.len() == 0 {
        0
    } else {
        count_agree(p.drop_last(), a.drop_last()) + if p.last() == a.last() {
            1nat
        } else {
            0nat
        }
    }
}

/// Entry `[x][y]` of a confusion matrix.
pub open spec fn cell(cm: [[usize; 3]; 3], x: int, y: int) -> int {
    cm@[x]@[y] as int
}

/// Whether `cm[x][y]` counts the samples predicted `x` whose true label is `y`.
pub open spec fn is_confusion_of(cm: [[usize; 3]; 3], p: Seq<u8>, a: Seq<u8>) -> bool {
    forall|x: int, y: int|
        0 <= x < 3 && 0 <= y < 3 ==> #[trigger] cell(cm, x, y) == count_pair(p, a, x as u8, y as u8)
}

proof fn lemma_take_step<T>(s: Seq<T>, i: int)
    requires
        0 <= i < s.len(),
    ensures
        s.take(i + 1).drop_last() == s.take(i),
        s.take(i + 1).last() == s[i],
        s.take(i + 1).len() == i + 1,
{
    assert(s.take(i + 1).drop_last() =~= s.take(i));
}

proof fn lemma_count_agree_le(p: Seq<u8>, a: Seq<u8>)
    ensures
        count_agree(p, a) <= p.len(),
    decreases p.len(),
{
    if p.len() > 0 && a.len() > 0 {
        lemma_count_agree_le(p.drop_last(), a.drop_last());
    }
}

proof fn lemma_count_pair_le(p: Seq<u8>, a: Seq<u8>, x: u8, y: u8)
    ensures
        count_pair(p, a, x, y) <= p.len(),
    decreases p.len(),
{
    if p.len() > 0 && a.len() > 0 {
        lemma_count_pair_le(p.drop_last(), a.drop_last(), x, y);
    }
}

/// Number of samples whose prediction `preds[i]` equals the true label `labels[i]`.
pub fn count_correct(preds: &Vec<TernaryLabel>, labels: &Vec<TernaryLabel>) -> (correct: usize)
    requires
        preds@.len() == labels@.len(),
    ensures
        correct == count_agree(preds@, labels@),
        correct <= labels@.len(),
{
    let n = preds.len();
    let mut correct: usize = 0;
    for i in 0..n
        invariant
            n == preds@.len(),
            n == labels@.len(),
            correct == count_agree(preds@.take(i as int), labels@.take(i as int)),
    {
        proof {
            lemma_take_step(preds@, i as int);
            lemma_take_step(labels@, i as int);
            lemma_count_agree_le(preds@.take(i as int), labels@.take(i as int));
        }
        if preds[i] == labels[i] {
            correct = correct + 1;
        }
    }
    proof {
        assert(preds@.take(n as int) =~= preds@);
        assert(labels@.take(n as int) =~= labels@);
        lemma_count_agree_le(preds@, labels@);
    }
    correct
}

/// The confusion matrix of the predictions `preds` against the true labels
/// `labels`: entry `[x][y]` counts the samples predicted `x` whose label is `y`.
pub fn confusion_matrix(preds: &Vec<TernaryLabel>, labels: &Vec<TernaryLabel>) -> (cm: [[usize;
    3]; 3])
    requires
        preds@.len() == labels@.len(),
        all_valid(preds@),
        all_valid(labels@),
    ensures
        is_confusion_of(cm, preds@, labels@),
{
    let n = preds.len();
    let mut cm: [[usize; 3]; 3] = [[0, 0, 0], [0, 0, 0], [0, 0, 0]];
    for i in 0..n
        invariant
            n == preds@.len(),
            n == labels@.len(),
            all_valid(preds@),
            all_valid(labels@),
            is_confusion_of(cm, preds@.take(i as int), labels@.take(i as int)),
    {
        let ghost old_cm = cm;
        proof {
            lemma_take_step(preds@, i as int);
            lemma_take_step(labels@, i as int);
            assert(valid_label(preds@[i as int]));
            assert(valid_label(labels@[i as int]));
            lemma_count_pair_le(preds@.take(i as int), labels@.take(i as int), preds@[i as int], labels@[i as int]);
            assert(cell(cm, preds@[i as int] as int, labels@[i as int] as int) <= i);
        }
        let x = preds[i] as usize;
        let y = labels[i] as usize;
        let mut row = cm[x];
        row[y] = row[y] + 1;
        cm[x] = row;
        proof {
            assert forall|x2: int, y2: int| 0 <= x2 < 3 && 0 <= y2 < 3 implies #[trigger] cell(
                cm,
                x2,
                y2,
            ) == count_pair(preds@.take(i + 1), labels@.take(i + 1), x2 as u8, y2 as u8) by {
                assert(cell(old_cm, x2, y2) == count_pair(preds@.take(i as int), labels@.take(i as int), x2 as u8, y2 as u8));
            }
        }
    }
    proof {
        assert(preds@.take(n as int) =~= preds@);
        assert(labels@.take(n as int) =~= labels@);
    }
    cm
}

/// What an evaluation pass counts: the integer part of an evaluation result.
pub struct EvaluationCounts {
    /// Number of samples evaluated.
    pub n_samples: usize,
    /// Number of correct ensemble predictions.
    pub ensemble_correct: usize,
    /// Confusion matrix of the ensemble: `confusion_matrix[predicted][actual]`.
    pub confusion_matrix: [[usize; 3]; 3],
    /// Number of correct predictions of each individual agent.
    pub individual_correct: Vec<usize>,
}

/// Whether `agent_preds` holds, for every agent, one prediction per label.
pub open spec fn agent_rows_ok(agent_preds: Seq<Vec<TernaryLabel>>, n: nat) -> bool {
    forall|j: int|
        0 <= j < agent_preds.len() ==> #[trigger] agent_preds[j]@.len() == n
}

/// Evaluates an ensemble on a test set, given the ensemble's predictions
/// `ensemble_preds`, the true `labels`, and each agent's predictions
/// `agent_preds[agent][sample]`.
pub fn evaluate_counts(
    ensemble_preds: &Vec<TernaryLabel>,
    labels: &Vec<TernaryLabel>,
    agent_preds: &Vec<Vec<TernaryLabel>>,
) -> (r: EvaluationCounts)
    requires
        ensemble_preds@.len() == labels@.len(),
        all_valid(ensemble_preds@),
        all_valid(labels@),
        agent_rows_ok(agent_preds@, labels@.len()),
    ensures
        r.n_samples == labels@.len(),
        r.ensemble_correct == count_agree(ensemble_preds@, labels@),
        is_confusion_of(r.confusion_matrix, ensemble_preds@, labels@),
        r.individual_correct@.len() == agent_preds@.len(),
        forall|j: int|
            0 <= j < agent_preds@.len() ==> #[trigger] r.individual_correct@[j] == count_agree(
                agent_preds@[j]@,
                labels@,
            ),
{
    let ensemble_correct = count_correct(ensemble_preds, labels);
    let confusion = confusion_matrix(ensemble_preds, labels);
    let mut individual_correct: Vec<usize> = Vec::new();
    let n_agents = agent_preds.len();
    for j in 0..n_agents
        invariant
            n_agents == agent_preds@.len(),
            agent_rows_ok(agent_preds@, labels@.len()),
            individual_correct@.len() == j,
            forall|k: int|
                0 <= k < j ==> #[trigger] individual_correct@[k] == count_agree(
                    agent_preds@[k]@,
                    labels@,
                ),
    {
        let c = count_correct(&agent_preds[j], labels);
        individual_correct.push(c);
    }
    EvaluationCounts {
        n_samples: labels.len(),
        ensemble_correct,
        confusion_matrix: confusion,
        individual_correct,
    }
}

/// A ratio of two counts, `numerator / denominator`, with `denominator > 0`.
#[derive(Debug, Clone, Copy, PartialEq, Eq, Structural)]
pub struct Fraction {
    /// The count on top.
    pub numerator: u128,
    /// The count below; never zero.
    pub denominator: u128,
}

/// Sum of row `x` of a confusion matrix: the samples predicted as `x`.
pub open spec fn row_sum(cm: [[usize; 3]; 3], x: int) -> int {
    cell(cm, x, 0) + cell(cm, x, 1) + cell(cm, x, 2)
}

/// Sum of column `y` of a confusion matrix: the samples whose true label is `y`.
pub open spec fn column_sum(cm: [[usize; 3]; 3], y: int) -> int {
    cell(cm, 0, y) + cell(cm, 1, y) + cell(cm, 2, y)
}

/// Precision of class `c` as a fraction: of the samples predicted as `c`,
/// how many truly are `c`. `None` when no sample was predicted as `c`, in
/// which case the precision is taken to be zero.
pub fn precision_fraction(cm: &[[usize; 3]; 3], c: usize) -> (r: Option<Fraction>)
    requires
        c < 3,
    ensures
        (r is None) <==> cm[c as int][0] + cm[c as int][1] + cm[c as int][2] == 0,
        r matches Some(f) ==> f.numerator == cm[c as int][c as int] && f.denominator == cm[c as int][0]
            + cm[c as int][1] + cm[c as int][2],
        row_sum(*cm, c as int) == 0 ==> r is None,
        r matches Some(f) ==> f.numerator <= f.denominator,
        row_sum(*cm, c as int) > 0 ==> r == Some(
            Fraction {
                numerator: cell(*cm, c as int, c as int) as u128,
                denominator: row_sum(*cm, c as int) as u128,
            },
        ),
{
    let row = cm[c];
    let total: u128 = row[0] as u128 + row[1] as u128 + row[2] as u128;
    if total > 0 {
        Some(Fraction { numerator: row[c] as u128, denominator: total })
    } else {
        None
    }
}

/// Recall of class `c` as a fraction: of the samples whose true label is
/// `c`, how many were predicted as `c`. `None` when no sample is in class
/// `c`, in which case the recall is taken to be zero.
pub fn recall_fraction(cm: &[[usize; 3]; 3], c: usize) -> (r: Option<Fraction>)
    requires
        c < 3,
    ensures
        (r is None) <==> cm[0][c as int] + cm[1][c as int] + cm[2][c as int] == 0,
        r matches Some(f) ==> f.numerator == cm[c as int][c as int] && f.denominator == cm[0][c as int]
            + cm[1][c as int] + cm[2][c as int],
        column_sum(*cm, c as int) == 0 ==> r is None,
        r matches Some(f) ==> f.numerator <= f.denominator,
        column_sum(*cm, c as int) > 0 ==> r == Some(
            Fraction {
                numerator: cell(*cm, c as int, c as int) as u128,
                denominator: column_sum(*cm, c as int) as u128,
            },
        ),
{
    let total: u128 = cm[0][c] as u128 + cm[1][c] as u128 + cm[2][c] as u128;
    if total > 0 {
        Some(Fraction { numerator: cm[c][c] as u128, denominator: total })
    } else {
        None
    }
}

/// Sum of row `x` of the counts `count_pair`.
pub open spec fn pair_row(p: Seq<u8>, a: Seq<u8>, x: u8) -> nat {
    count_pair(p, a, x, 0) + count_pair(p, a, x, 1) + count_pair(p, a, x, 2)
}

/// Sum of column `y` of the counts `count_pair`.
pub open spec fn pair_column(p: Seq<u8>, a: Seq<u8>, y: u8) -> nat {
    count_pair(p, a, 0, y) + count_pair(p, a, 1, y) + count_pair(p, a, 2, y)
}

proof fn lemma_valid_drop_last(s: Seq<u8>)
    requires
        all_valid(s),
        s.len() > 0,
    ensures
        all_valid(s.drop_last()),
        valid_label(s.last()),
{
    assert forall|i: int| 0 <= i < s.drop_last().len() implies #[trigger] valid_label(
        s.drop_last()[i],
    ) by {
        assert(valid_label(s[i]));
    }
    assert(valid_label(s[s.len() - 1]));
}

/// Row `x` of the confusion matrix counts every sample predicted as `x`:
/// its sum is the number of predictions equal to `x`, the denominator of
/// the precision of `x`.
pub proof fn law_confusion_rows(p: Seq<u8>, a: Seq<u8>, x: u8)
    requires
        p.len() == a.len(),
        all_valid(a),
    ensures
        pair_row(p, a, x) == count_label(p, x),
    decreases p.len(),
{
    if p.len() > 0 {
        lemma_valid_drop_last(a);
        law_confusion_rows(p.drop_last(), a.drop_last(), x);
    }
}

/// Column `y` of the confusion matrix counts every sample whose true label
/// is `y`: its sum is the number of labels equal to `y`, the denominator of
/// the recall of `y`.
pub proof fn law_confusion_columns(p: Seq<u8>, a: Seq<u8>, y: u8)
    requires
        p.len() == a.len(),
        all_valid(p),
    ensures
        pair_column(p, a, y) == count_label(a, y),
    decreases p.len(),
{
    if p.len() > 0 {
        lemma_valid_drop_last(p);
        law_confusion_columns(p.drop_last(), a.drop_last(), y);
    }
}

/// Every sample lands in exactly one cell: the entries of the confusion
/// matrix add up to the number of samples.
pub proof fn law_confusion_total(p: Seq<u8>, a: Seq<u8>)
    requires
        p.len() == a.len(),
        all_valid(p),
        all_valid(a),
    ensures
        pair_row(p, a, 0) + pair_row(p, a, 1) + pair_row(p, a, 2) == p.len(),
    decreases p.len(),
{
    if p.len() > 0 {
        lemma_valid_drop_last(p);
        lemma_valid_drop_last(a);
        law_confusion_total(p.drop_last(), a.drop_last());
    }
}

/// The diagonal of the confusion matrix holds the correct predictions: its
/// sum is the number of samples where the prediction equals the label.
pub proof fn law_confusion_trace(p: Seq<u8>, a: Seq<u8>)
    requires
        p.len() == a.len(),
        all_valid(p),
    ensures
        count_pair(p, a, 0, 0) + count_pair(p, a, 1, 1) + count_pair(p, a, 2, 2) == count_agree(
            p,
            a,
        ),
    decreases p.len(),
{
    if p.len() > 0 {
        lemma_valid_drop_last(p);
        law_confusion_trace(p.drop_last(), a.drop_last());
    }
}

/// Correct and wrong predictions together make up the test set: the number
/// of correct predictions is at most the number of samples.
pub proof fn law_correct_at_most_samples(p: Seq<u8>, a: Seq<u8>)
    ensures
        count_agree(p, a) <= p.len(),
{
    lemma_count_agree_le(p, a);
}

/// For the confusion matrix of predictions `p` against labels `a`, the
/// precision denominator of class `c` (its row sum) is the number of samples
/// predicted as `c`, and the recall denominator (its column sum) is the
/// number of samples whose true label is `c`; both numerators are the
/// samples predicted `c` that truly are `c`.
pub proof fn law_precision_recall_denominators(cm: [[usize; 3]; 3], p: Seq<u8>, a: Seq<u8>, c: u8)
    requires
        is_confusion_of(cm, p, a),
        p.len() == a.len(),
        all_valid(p),
        all_valid(a),
        valid_label(c),
    ensures
        row_sum(cm, c as int) == count_label(p, c),
        column_sum(cm, c as int) == count_label(a, c),
        cm[c as int][0] + cm[c as int][1] + cm[c as int][2] == count_label(p, c),
        cm[0][c as int] + cm[1][c as int] + cm[2][c as int] == count_label(a, c),
        cell(cm, c as int, c as int) == count_pair(p, a, c, c),
{
    law_confusion_rows(p, a, c);
    law_confusion_columns(p, a, c);
    assert(cell(cm, c as int, 0) == count_pair(p, a, c, 0));
    assert(cell(cm, c as int, 1) == count_pair(p, a, c, 1));
    assert(cell(cm, c as int, 2) == count_pair(p, a, c, 2));
    assert(cell(cm, 0, c as int) == count_pair(p, a, 0, c));
    assert(cell(cm, 1, c as int) == count_pair(p, a, 1, c));
    assert(cell(cm, 2, c as int) == count_pair(p, a, 2, c));
}

} // verus!
