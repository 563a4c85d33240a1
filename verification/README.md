# ternary_ensemble

Ensemble methods for agents whose outputs are ternary labels `{0, 1, 2}`:
majority, weighted and ranked (Borda) voting, boosting, stacking, and
evaluation by accuracy, confusion matrix, precision and recall.

- `src/` is the verified library. It holds the decisions made on labels:
  majority and ranked voting, the choice of a class from three scores with
  ties going to the lowest class index, confusion and correctness counts,
  precision and recall fractions, and the integer generator behind an
  agent's pseudo-random weights. Contracts and laws are proved by Verus.
- `app/` holds the floating-point side: agents with `f64` weights, weighted
  scores, the boosting and stacking training loops, and accuracies. It feeds
  the library integers (predicted labels, counts, and the total-order keys
  of `f64` scores) and turns its answers back into the public API.
- `tests/` exercises the library on concrete values.
