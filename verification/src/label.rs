//! Ternary labels.
use vstd::prelude::*;

verus! {

/// A ternary label: one of the three classes `0`, `1`, `2`.
pub type TernaryLabel = u8;

/// A sample index used in training sets.
pub type SampleIndex = usize;

/// Whether `l` names one of the three classes.
pub open spec fn valid_label(l: u8) -> bool {
    l <= 2
}

/// Whether every entry of `s` names one of the three classes.
pub open spec fn all_valid(s: Seq<u8>) -> bool {
    forall|i: int| 0 <= i < s.len() ==> #[trigger] valid_label(s[i])
}

/// Checks that `label` is one of `0`, `1`, `2`; a sample may only carry such a label.
pub fn is_ternary_label(label: TernaryLabel) -> (ok: bool)
    ensures
        ok == valid_label(label),
{
    label <= 2
}

} // verus!
