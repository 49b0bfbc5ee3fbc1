//! Shared geometry: pixel rectangles and sums and maxima of sequences,
//! used by both the grid layout and the block renderer.

use vstd::prelude::*;

verus! {

/// An absolute pixel rectangle: position and size.
#[derive(Debug, Clone, Copy, PartialEq, Eq, Structural)]
pub struct Rect {
    pub x: i32,
    pub y: i32,
    pub w: i32,
    pub h: i32,
}

/// The mathematical value of a [`Rect`], with unbounded coordinates.
pub ghost struct RectV {
    pub x: int,
    pub y: int,
    pub w: int,
    pub h: int,
}

impl View for Rect {
    type V = RectV;

    open spec fn view(&self) -> RectV {
        RectV { x: self.x as int, y: self.y as int, w: self.w as int, h: self.h as int }
    }
}

/// The sum of the first `i` elements of `s`.
pub open spec fn sum_prefix(s: Seq<int>, i: int) -> int
    decreases i,
{
    if i <= 0 {
        0
    } else {
        sum_prefix(s, i - 1) + s[i - 1]
    }
}

/// The largest element among the first `i` elements of `s`, or 0 where
/// none is larger: maxima never fall below zero.
pub open spec fn max_prefix(s: Seq<int>, i: int) -> int
    decreases i,
{
    if i <= 0 {
        0
    } else if s[i - 1] > max_prefix(s, i - 1) {
        s[i - 1]
    } else {
        max_prefix(s, i - 1)
    }
}

/// The largest element of `s`, or 0 for an empty sequence.
pub open spec fn max_value(s: Seq<int>) -> int {
    max_prefix(s, s.len() as int)
}

/// Prefix sums only depend on the elements below the prefix length.
pub proof fn lemma_sum_prefix_congruent(s: Seq<int>, t: Seq<int>, i: int)
    requires
        0 <= i <= s.len(),
        i <= t.len(),
        forall|k: int| 0 <= k < i ==> s[k] == t[k],
    ensures
        sum_prefix(s, i) == sum_prefix(t, i),
    decreases i,
{
    if i > 0 {
        lemma_sum_prefix_congruent(s, t, i - 1);
    }
}

/// Prefix sums of non-negative elements grow with the prefix length.
pub proof fn lemma_sum_prefix_monotonic(s: Seq<int>, i: int, j: int)
    requires
        0 <= i <= j <= s.len(),
        forall|k: int| 0 <= k < s.len() ==> s[k] >= 0,
    ensures
        sum_prefix(s, i) <= sum_prefix(s, j),
    decreases j,
{
    if i < j {
        lemma_sum_prefix_monotonic(s, i, j - 1);
    }
}

/// The maximum of a sequence never falls below zero.
pub proof fn lemma_max_value_nonneg(s: Seq<int>)
    ensures
        max_value(s) >= 0,
{
    lemma_max_prefix_nonneg(s, s.len() as int);
}

proof fn lemma_max_prefix_nonneg(s: Seq<int>, j: int)
    ensures
        max_prefix(s, j) >= 0,
    decreases j,
{
    if j > 0 {
        lemma_max_prefix_nonneg(s, j - 1);
    }
}

} // verus!
