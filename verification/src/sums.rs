//! Finite sums over integer ranges, and the small algebra of them the
//! mass-field proofs need: congruence, single-point updates, splitting,
//! bounds, and index reflection.

use vstd::prelude::*;

verus! {

/// Sum of `h(i)` for `i` in the half-open range `[a, b)`.
pub open spec fn sum_range(h: spec_fn(int) -> int, a: int, b: int) -> int
    decreases b - a,
{
    if a >= b {
        0
    } else {
        h(a) + sum_range(h, a + 1, b)
    }
}

/// A sum can also be peeled from its upper end.
pub proof fn lemma_sum_range_peel_back(h: spec_fn(int) -> int, a: int, b: int)
    requires
        a < b,
    ensures
        sum_range(h, a, b) == sum_range(h, a, b - 1) + h(b - 1),
    decreases b - a,
{
    if a + 1 < b {
        lemma_sum_range_peel_back(h, a + 1, b);
    } else {
        assert(sum_range(h, a + 1, b) == 0);
        assert(sum_range(h, a, b - 1) == 0);
    }
}

/// Functions that agree on the range have the same sum.
pub proof fn lemma_sum_range_congruence(h: spec_fn(int) -> int, g: spec_fn(int) -> int, a: int, b: int)
    requires
        forall|i: int| a <= i < b ==> #[trigger] h(i) == g(i),
    ensures
        sum_range(h, a, b) == sum_range(g, a, b),
    decreases b - a,
{
    if a < b {
        lemma_sum_range_congruence(h, g, a + 1, b);
    }
}

/// Changing one summand by `d` changes the sum by `d`.
pub proof fn lemma_sum_range_update(
    h: spec_fn(int) -> int,
    g: spec_fn(int) -> int,
    a: int,
    b: int,
    j: int,
    d: int,
)
    requires
        a <= j < b,
        g(j) == h(j) + d,
        forall|i: int| a <= i < b && i != j ==> #[trigger] h(i) == g(i),
    ensures
        sum_range(g, a, b) == sum_range(h, a, b) + d,
    decreases b - a,
{
    if a == j {
        lemma_sum_range_congruence(h, g, a + 1, b);
    } else {
        lemma_sum_range_update(h, g, a + 1, b, j, d);
    }
}

/// A sum splits at any point of the range.
pub proof fn lemma_sum_range_split(h: spec_fn(int) -> int, a: int, b: int, c: int)
    requires
        a <= b <= c,
    ensures
        sum_range(h, a, c) == sum_range(h, a, b) + sum_range(h, b, c),
    decreases b - a,
{
    if a < b {
        lemma_sum_range_split(h, a + 1, b, c);
    }
}

/// A sum of non-negative summands is non-negative.
pub proof fn lemma_sum_range_nonneg(h: spec_fn(int) -> int, a: int, b: int)
    requires
        forall|i: int| a <= i < b ==> #[trigger] h(i) >= 0,
    ensures
        sum_range(h, a, b) >= 0,
    decreases b - a,
{
    if a < b {
        lemma_sum_range_nonneg(h, a + 1, b);
    }
}

/// Among non-negative summands, each one is at most the whole sum.
pub proof fn lemma_sum_range_elem_bound(h: spec_fn(int) -> int, a: int, b: int, j: int)
    requires
        a <= j < b,
        forall|i: int| a <= i < b ==> #[trigger] h(i) >= 0,
    ensures
        h(j) <= sum_range(h, a, b),
    decreases b - a,
{
    if a == j {
        lemma_sum_range_nonneg(h, a + 1, b);
    } else {
        lemma_sum_range_elem_bound(h, a + 1, b, j);
    }
}

/// A sum of summands bounded by `c` is at most `c` per element.
pub proof fn lemma_sum_range_upper(h: spec_fn(int) -> int, a: int, b: int, c: int)
    requires
        a <= b,
        forall|i: int| a <= i < b ==> #[trigger] h(i) <= c,
    ensures
        sum_range(h, a, b) <= c * (b - a),
    decreases b - a,
{
    if a < b {
        assert(h(a) <= c);
        lemma_sum_range_upper(h, a + 1, b, c);
        assert(sum_range(h, a, b) == h(a) + sum_range(h, a + 1, b));
        assert(c * (b - a) == c + c * (b - (a + 1))) by (nonlinear_arith);
        assert(sum_range(h, a, b) <= c + c * (b - (a + 1)));
    } else {
        assert(sum_range(h, a, b) == 0);
        assert(c * (b - a) == 0) by (nonlinear_arith)
            requires
                b == a,
        ;
    }
}

/// Reflecting the index leaves a sum unchanged: if `g(i) == h(s - i)`
/// pointwise, then summing `g` over `[a, b)` equals summing `h` over the
/// reflected range `[s - b + 1, s - a + 1)`.
pub proof fn lemma_sum_range_reflect(
    h: spec_fn(int) -> int,
    g: spec_fn(int) -> int,
    a: int,
    b: int,
    s: int,
)
    requires
        a <= b,
        forall|i: int| a <= i < b ==> #[trigger] g(i) == h(s - i),
    ensures
        sum_range(g, a, b) == sum_range(h, s - b + 1, s - a + 1),
    decreases b - a,
{
    if a < b {
        lemma_sum_range_reflect(h, g, a + 1, b, s);
        lemma_sum_range_peel_back(h, s - b + 1, s - a + 1);
    }
}

} // verus!
