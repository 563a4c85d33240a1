//! Choosing a class from three per-class scores.
//!
//! Every strategy of the library resolves ties toward the lowest class index:
//! class 0 beats class 1 beats class 2 when their scores are equal.
use vstd::prelude::*;

verus! {

/// The class with the greatest score; among equal greatest scores, the lowest index.
pub open spec fn spec_argmax3(a: int, b: int, c: int) -> u8 {
    if a >= b && a >= c {
        0
    } else if b >= c {
        1
    } else {
        2
    }
}

/// The class with the least score; among equal least scores, the lowest index.
pub open spec fn spec_argmin3(a: int, b: int, c: int) -> u8 {
    if a <= b && a <= c {
        0
    } else if b <= c {
        1
    } else {
        2
    }
}

/// Score of class `k` among the three.
pub open spec fn score_of(s: [i128; 3], k: int) -> int {
    if k == 0 {
        s[0] as int
    } else if k == 1 {
        s[1] as int
    } else {
        s[2] as int
    }
}

/// The class with the greatest score, ties going to the lowest index.
///
/// Scores are integers that order the classes: vote counts, or the
/// total-order keys of floating-point scores.
pub fn argmax_lowest(scores: [i128; 3]) -> (r: u8)
    ensures
        r == spec_argmax3(scores[0] as int, scores[1] as int, scores[2] as int),
        r <= 2,
        forall|k: int| 0 <= k < 3 ==> score_of(scores, k) <= score_of(scores, r as int),
        forall|k: int| 0 <= k < r ==> score_of(scores, k) < score_of(scores, r as int),
{
    if scores[0] >= scores[1] && scores[0] >= scores[2] {
        0
    } else if scores[1] >= scores[2] {
        1
    } else {
        2
    }
}

/// The class with the least score, ties going to the lowest index.
pub fn argmin_lowest(scores: [i128; 3]) -> (r: u8)
    ensures
        r == spec_argmin3(scores[0] as int, scores[1] as int, scores[2] as int),
        r <= 2,
        forall|k: int| 0 <= k < 3 ==> score_of(scores, r as int) <= score_of(scores, k),
        forall|k: int| 0 <= k < r ==> score_of(scores, r as int) < score_of(scores, k),
{
    if scores[0] <= scores[1] && scores[0] <= scores[2] {
        0
    } else if scores[1] <= scores[2] {
        1
    } else {
        2
    }
}

} // verus!
