use ternary_ensemble::evaluator::{
    confusion_matrix, count_correct, evaluate_counts, precision_fraction, recall_fraction,
    Fraction,
};

fn value(f: Option<Fraction>) -> f64 {
    match f {
        Some(f) => f.numerator as f64 / f.denominator as f64,
        None => 0.0,
    }
}

// A single agent that always predicts 0, on one sample of each class.
#[test]
fn constant_zero_predictions_hand_computed() {
    let preds = vec![0, 0, 0];
    let labels = vec![0, 1, 2];
    let agents = vec![vec![0, 0, 0]];
    let r = evaluate_counts(&preds, &labels, &agents);
    assert_eq!(r.n_samples, 3);
    assert_eq!(r.ensemble_correct, 1);
    assert!((r.ensemble_correct as f64 / r.n_samples as f64 - 1.0 / 3.0).abs() < 1e-12);
    assert_eq!(r.confusion_matrix[0], [1, 1, 1]);
    assert_eq!(r.confusion_matrix[1], [0, 0, 0]);
    assert_eq!(r.confusion_matrix[2], [0, 0, 0]);
    assert_eq!(r.individual_correct, vec![1]);
}

#[test]
fn empty_test_set_counts_nothing() {
    let r = evaluate_counts(&vec![], &vec![], &vec![vec![]]);
    assert_eq!(r.n_samples, 0);
    assert_eq!(r.ensemble_correct, 0);
    assert_eq!(r.confusion_matrix, [[0; 3]; 3]);
    assert_eq!(r.individual_correct, vec![0]);
}

#[test]
fn individual_agents_counted_separately() {
    let labels = vec![0, 1, 2, 1];
    let agents = vec![vec![0, 0, 0, 0], vec![0, 1, 2, 1], vec![2, 2, 2, 1]];
    let r = evaluate_counts(&vec![0, 1, 2, 2], &labels, &agents);
    assert_eq!(r.individual_correct, vec![1, 4, 2]);
    assert_eq!(r.ensemble_correct, 3);
    assert_eq!(r.confusion_matrix, [[1, 0, 0], [0, 1, 0], [0, 1, 1]]);
}

#[test]
fn count_correct_counts_matches() {
    assert_eq!(count_correct(&vec![0, 1, 1, 2], &vec![0, 1, 2, 2]), 3);
    assert_eq!(count_correct(&vec![], &vec![]), 0);
}

#[test]
fn confusion_entries_sum_to_sample_count() {
    let preds = vec![2, 0, 1, 1, 2, 0, 0];
    let labels = vec![2, 1, 1, 0, 0, 0, 2];
    let cm = confusion_matrix(&preds, &labels);
    let total: usize = cm.iter().map(|row| row.iter().sum::<usize>()).sum();
    assert_eq!(total, 7);
    let trace = cm[0][0] + cm[1][1] + cm[2][2];
    assert_eq!(trace, count_correct(&preds, &labels));
    assert_eq!(cm, [[1, 1, 1], [1, 1, 0], [1, 0, 1]]);
}

#[test]
fn precision_recall_hand_computed() {
    let cm = [[2, 1, 0], [0, 3, 1], [0, 0, 1]];
    assert_eq!(precision_fraction(&cm, 0), Some(Fraction { numerator: 2, denominator: 3 }));
    assert_eq!(precision_fraction(&cm, 1), Some(Fraction { numerator: 3, denominator: 4 }));
    assert_eq!(precision_fraction(&cm, 2), Some(Fraction { numerator: 1, denominator: 1 }));
    assert_eq!(recall_fraction(&cm, 0), Some(Fraction { numerator: 2, denominator: 2 }));
    assert_eq!(recall_fraction(&cm, 1), Some(Fraction { numerator: 3, denominator: 4 }));
    assert_eq!(recall_fraction(&cm, 2), Some(Fraction { numerator: 1, denominator: 2 }));
    assert!((value(precision_fraction(&cm, 0)) - 2.0 / 3.0).abs() < 1e-12);
    assert!((value(recall_fraction(&cm, 2)) - 0.5).abs() < 1e-12);
}

#[test]
fn unseen_class_has_no_precision_or_recall() {
    let cm = [[1, 0, 0], [0, 0, 0], [0, 0, 1]];
    assert_eq!(precision_fraction(&cm, 1), None);
    assert_eq!(recall_fraction(&cm, 1), None);
    assert_eq!(value(precision_fraction(&cm, 1)), 0.0);
    assert_eq!(precision_fraction(&cm, 0), Some(Fraction { numerator: 1, denominator: 1 }));
    assert_eq!(recall_fraction(&cm, 2), Some(Fraction { numerator: 1, denominator: 1 }));
}

#[test]
fn row_sums_do_not_overflow() {
    let m = usize::MAX;
    let cm = [[m, m, m], [0, 0, 0], [m, 0, 0]];
    let p = precision_fraction(&cm, 0).unwrap();
    assert_eq!(p.numerator, m as u128);
    assert_eq!(p.denominator, 3 * (m as u128));
    let r = recall_fraction(&cm, 0).unwrap();
    assert_eq!(r.denominator, 2 * (m as u128));
}
