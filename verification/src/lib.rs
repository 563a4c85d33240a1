//! Ensemble methods for ternary agents: the label-level decision logic of
//! voting, tie-breaking, ranking and evaluation, verified.
//!
//! Agents predict one of three classes, `0`, `1` or `2`. The functions here
//! take the agents' predictions (or their confidences, as integer keys that
//! order them) and decide the ensemble's answer; every strategy resolves ties
//! toward the lowest class index.
pub mod agent;
pub mod evaluator;
pub mod label;
pub mod select;
pub mod voting;

pub use evaluator::{EvaluationCounts, Fraction};
pub use label::{SampleIndex, TernaryLabel};
pub use voting::VotingStrategy;
