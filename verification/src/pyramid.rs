//! Geometry of the mass-field pyramid: how many levels a given extent
//! produces and how large each level is.
//!
//! Level 0 is the finest grid; each coarser level divides both dimensions
//! by the downsampling factor (never below one cell), and construction
//! stops once both dimensions are within the minimum region.

use vstd::prelude::*;

use vstd::arithmetic::div_mod::lemma_div_is_ordered;
use vstd::arithmetic::div_mod::lemma_div_nonincreasing;
use vstd::arithmetic::div_mod::lemma_fundamental_div_mod;
use vstd::arithmetic::div_mod::lemma_mod_bound;
use vstd::arithmetic::power::lemma_pow1;
use vstd::arithmetic::power::lemma_pow_adds;
use vstd::arithmetic::power::lemma_pow_positive;
use vstd::arithmetic::power::pow;

use crate::params::MASS_FIELD_SIZE;
use crate::params::MAX_MIP_LEVELS;
use crate::params::MIN_REGION;
use crate::params::MIP_LEVEL_DOWNSAMPLING;

verus! {

/// Dimensions of one pyramid level, in cells.
#[derive(Clone, Copy, PartialEq, Eq, Structural, Debug)]
pub struct LevelExtent {
    pub width: u32,
    pub height: u32,
}

/// One dimension of the next-coarser level: divided by the factor, but
/// never below a single cell.
pub open spec fn spec_next_dim(d: int, factor: int) -> int {
    if d / factor < 1 {
        1
    } else {
        d / factor
    }
}

/// How many levels the construction builds for a finest level of `w` by
/// `h` cells: one per size, stopping once both dimensions are at most
/// `min_region`.
pub open spec fn level_count(w: int, h: int, factor: int, min_region: int) -> int
    decreases w + h,
        when w >= 1 && h >= 1 && factor >= 2 && min_region >= 1
        via level_count_decreases
{
    if w <= min_region && h <= min_region {
        1
    } else {
        1 + level_count(
            spec_next_dim(w, factor),
            spec_next_dim(h, factor),
            factor,
            min_region,
        )
    }
}

#[via_fn]
proof fn level_count_decreases(w: int, h: int, factor: int, min_region: int) {
    if w >= 1 && h >= 1 && factor >= 2 && min_region >= 1 && !(w <= min_region && h
        <= min_region) {
        lemma_next_dim_le(w, factor);
        lemma_next_dim_le(h, factor);
        if w > min_region {
            lemma_next_dim_lt(w, factor);
        } else {
            lemma_next_dim_lt(h, factor);
        }
    }
}

/// The next-coarser dimension never grows.
proof fn lemma_next_dim_le(d: int, factor: int)
    requires
        d >= 1,
        factor >= 2,
    ensures
        1 <= spec_next_dim(d, factor) <= d,
{
    lemma_div_nonincreasing(d, factor);
}

/// The next-coarser dimension strictly shrinks once it is above one cell.
proof fn lemma_next_dim_lt(d: int, factor: int)
    requires
        d >= 2,
        factor >= 2,
    ensures
        1 <= spec_next_dim(d, factor) < d,
{
    vstd::arithmetic::div_mod::lemma_div_decreases(d, factor);
}

/// The level count is at least one: even a single-cell extent gets its
/// finest level.
pub proof fn lemma_level_count_pos(w: int, h: int, factor: int, min_region: int)
    requires
        w >= 1,
        h >= 1,
        factor >= 2,
        min_region >= 1,
    ensures
        level_count(w, h, factor, min_region) >= 1,
    decreases w + h,
{
    if !(w <= min_region && h <= min_region) {
        lemma_next_dim_le(w, factor);
        lemma_next_dim_le(h, factor);
        if w > min_region {
            lemma_next_dim_lt(w, factor);
        } else {
            lemma_next_dim_lt(h, factor);
        }
        lemma_level_count_pos(
            spec_next_dim(w, factor),
            spec_next_dim(h, factor),
            factor,
            min_region,
        );
    }
}

/// Bounds on the level count `L` of a square extent `e`: an extent within
/// the minimum region yields exactly one level; in general
/// `(m + 1) * factor^(L-2) <= e < (m + 1) * factor^(L-1)` pins `L`, and
/// `e <= m * factor^L` bounds the coarsest level's reach from above.
pub proof fn lemma_level_count_bounds(e: int, factor: int, m: int)
    requires
        e >= 1,
        factor >= 2,
        m >= 1,
    ensures
        level_count(e, e, factor, m) >= 1,
        e <= m ==> level_count(e, e, factor, m) == 1,
        e < (m + 1) * pow(factor, (level_count(e, e, factor, m) - 1) as nat),
        level_count(e, e, factor, m) >= 2 ==> e >= (m + 1) * pow(
            factor,
            (level_count(e, e, factor, m) - 2) as nat,
        ),
        e <= m * pow(factor, level_count(e, e, factor, m) as nat),
    decreases e,
{
    lemma_level_count_pos(e, e, factor, m);
    let lc = level_count(e, e, factor, m);
    if e <= m {
        assert(lc == 1);
        vstd::arithmetic::power::lemma_pow0(factor);
        assert(e < (m + 1) * 1);
        lemma_pow1(factor);
        assert(e <= m * factor) by (nonlinear_arith)
            requires
                e <= m,
                factor >= 2,
                m >= 1,
        ;
    } else {
        let e2 = spec_next_dim(e, factor);
        lemma_next_dim_le(e, factor);
        lemma_next_dim_lt(e, factor);
        lemma_level_count_bounds(e2, factor, m);
        let lc2 = level_count(e2, e2, factor, m);
        assert(lc == 1 + lc2);
        lemma_fundamental_div_mod(e, factor);
        lemma_mod_bound(e, factor);
        // Upper bound: e <= factor * (e / factor) + factor - 1 and the
        // inductive bound on the next level give the strict bound on e.
        let p2 = pow(factor, (lc2 - 1) as nat);
        lemma_pow_positive(factor, (lc2 - 1) as nat);
        assert(e / factor <= e2);
        assert(e2 <= (m + 1) * p2 - 1);
        assert(e <= factor * (e / factor) + factor - 1);
        assert(e <= factor * ((m + 1) * p2 - 1) + factor - 1) by (nonlinear_arith)
            requires
                e <= factor * (e / factor) + factor - 1,
                e / factor <= (m + 1) * p2 - 1,
                factor >= 2,
        ;
        assert(factor * ((m + 1) * p2 - 1) + factor - 1 == (m + 1) * (factor * p2) - 1)
            by (nonlinear_arith);
        lemma_pow_adds(factor, 1, (lc2 - 1) as nat);
        lemma_pow1(factor);
        assert(pow(factor, (lc - 1) as nat) == factor * p2);
        assert(e < (m + 1) * pow(factor, (lc - 1) as nat));
        // Lower bound: the construction only recursed because e was still
        // above the minimum region.
        if lc >= 2 {
            if lc2 >= 2 {
                let q2 = pow(factor, (lc2 - 2) as nat);
                assert(e2 >= (m + 1) * q2);
                assert(e2 >= 2) by {
                    lemma_pow_positive(factor, (lc2 - 2) as nat);
                    assert((m + 1) * q2 >= 2) by (nonlinear_arith)
                        requires
                            m >= 1,
                            q2 >= 1,
                    ;
                }
                assert(e2 == e / factor);
                assert(e >= factor * e2) by (nonlinear_arith)
                    requires
                        e == factor * (e / factor) + e % factor,
                        e % factor >= 0,
                        e2 == e / factor,
                ;
                assert(e >= (m + 1) * (factor * q2)) by (nonlinear_arith)
                    requires
                        e >= factor * e2,
                        e2 >= (m + 1) * q2,
                        factor >= 2,
                ;
                lemma_pow_adds(factor, 1, (lc2 - 2) as nat);
                assert(pow(factor, (lc - 2) as nat) == factor * q2);
            } else {
                assert(lc2 == 1);
                vstd::arithmetic::power::lemma_pow0(factor);
                assert(e >= m + 1);
            }
        }
        // The looser upper bound follows from the strict one.
        let pl = pow(factor, (lc - 1) as nat);
        lemma_pow_positive(factor, (lc - 1) as nat);
        lemma_pow_adds(factor, 1, (lc - 1) as nat);
        assert(pow(factor, lc as nat) == factor * pl);
        assert((m + 1) * pl <= m * (factor * pl)) by (nonlinear_arith)
            requires
                m >= 1,
                factor >= 2,
                pl >= 1,
        ;
        assert(e <= m * pow(factor, lc as nat));
    }
}

/// More levels never come from a smaller extent: the level count is
/// monotone in the finest extent.
pub proof fn lemma_level_count_mono_extent(e1: int, e2: int, factor: int, m: int)
    requires
        1 <= e1 <= e2,
        factor >= 2,
        m >= 1,
    ensures
        level_count(e1, e1, factor, m) <= level_count(e2, e2, factor, m),
    decreases e2,
{
    lemma_level_count_pos(e1, e1, factor, m);
    lemma_level_count_pos(e2, e2, factor, m);
    if e1 <= m && e2 <= m {
    } else if e1 <= m {
        // level_count(e1) == 1 and every count is at least 1.
    } else {
        let n1 = spec_next_dim(e1, factor);
        let n2 = spec_next_dim(e2, factor);
        lemma_next_dim_le(e1, factor);
        lemma_next_dim_le(e2, factor);
        lemma_next_dim_lt(e2, factor);
        lemma_div_is_ordered(e1, e2, factor);
        assert(n1 <= n2);
        lemma_level_count_mono_extent(n1, n2, factor, m);
    }
}

/// A coarser stopping region never yields more levels: the level count is
/// monotone (non-increasing) in the minimum region, the cell size at which
/// construction stops.
pub proof fn lemma_level_count_mono_region(e: int, factor: int, m1: int, m2: int)
    requires
        e >= 1,
        factor >= 2,
        1 <= m1 <= m2,
    ensures
        level_count(e, e, factor, m2) <= level_count(e, e, factor, m1),
    decreases e,
{
    lemma_level_count_pos(e, e, factor, m1);
    lemma_level_count_pos(e, e, factor, m2);
    if e <= m1 {
    } else if e <= m2 {
    } else {
        let n = spec_next_dim(e, factor);
        lemma_next_dim_le(e, factor);
        lemma_next_dim_lt(e, factor);
        lemma_level_count_mono_region(n, factor, m1, m2);
    }
}

/// The standard configuration (finest extent 3^7, factor 3, minimum
/// region 2) builds exactly eight levels, within the device's cap on
/// bound storage images.
pub proof fn lemma_standard_geometry_depth()
    ensures
        level_count(
            MASS_FIELD_SIZE as int,
            MASS_FIELD_SIZE as int,
            MIP_LEVEL_DOWNSAMPLING as int,
            MIN_REGION as int,
        ) == 8,
        level_count(
            MASS_FIELD_SIZE as int,
            MASS_FIELD_SIZE as int,
            MIP_LEVEL_DOWNSAMPLING as int,
            MIN_REGION as int,
        ) <= MAX_MIP_LEVELS as int,
{
    assert(level_count(1, 1, 3, 2) == 1);
    assert(level_count(3, 3, 3, 2) == 2);
    assert(level_count(9, 9, 3, 2) == 3);
    assert(level_count(27, 27, 3, 2) == 4);
    assert(level_count(81, 81, 3, 2) == 5);
    assert(level_count(243, 243, 3, 2) == 6);
    assert(level_count(729, 729, 3, 2) == 7);
    assert(level_count(2187, 2187, 3, 2) == 8);
}

/// One dimension of the next-coarser level.
pub fn next_dim(d: u32, factor: u32) -> (n: u32)
    requires
        1 <= d,
        2 <= factor,
    ensures
        n as int == spec_next_dim(d as int, factor as int),
        1 <= n <= d,
{
    proof {
        lemma_div_nonincreasing(d as int, factor as int);
    }
    let q = d / factor;
    if q < 1 {
        1
    } else {
        q
    }
}

/// The extents of every pyramid level for a square finest level of
/// `extent` cells a side: finest first, each level the next-coarser size
/// of its predecessor, stopping exactly when both dimensions are within
/// `min_region`.
pub fn compute_level_extents(extent: u32, factor: u32, min_region: u32) -> (levels: Vec<
    LevelExtent,
>)
    requires
        1 <= extent,
        2 <= factor,
        1 <= min_region,
    ensures
        levels@.len() == level_count(extent as int, extent as int, factor as int, min_region as int),
        levels@.len() >= 1,
        levels@[0].width == extent,
        levels@[0].height == extent,
        forall|k: int|
            0 < k < levels@.len() ==> (#[trigger] levels@[k]).width as int == spec_next_dim(
                levels@[k - 1].width as int,
                factor as int,
            ) && levels@[k].height as int == spec_next_dim(
                levels@[k - 1].height as int,
                factor as int,
            ),
        forall|k: int|
            0 <= k < levels@.len() ==> 1 <= (#[trigger] levels@[k]).width <= extent && 1
                <= levels@[k].height <= extent,
        levels@[levels@.len() - 1].width <= min_region && levels@[levels@.len() - 1].height
            <= min_region,
        forall|k: int|
            0 <= k < levels@.len() - 1 ==> !((#[trigger] levels@[k]).width <= min_region
                && levels@[k].height <= min_region),
{
    let ghost total = level_count(extent as int, extent as int, factor as int, min_region as int);
    let mut levels: Vec<LevelExtent> = Vec::new();
    let mut width = extent;
    let mut height = extent;
    proof {
        lemma_level_count_pos(extent as int, extent as int, factor as int, min_region as int);
    }
    loop
        invariant_except_break
            1 <= extent,
            2 <= factor,
            1 <= min_region,
            1 <= width <= extent,
            1 <= height <= extent,
            total == level_count(
                extent as int,
                extent as int,
                factor as int,
                min_region as int,
            ),
            total == levels@.len() + level_count(
                width as int,
                height as int,
                factor as int,
                min_region as int,
            ),
            levels@.len() == 0 ==> width == extent && height == extent,
            levels@.len() > 0 ==> width as int == spec_next_dim(
                levels@[levels@.len() - 1].width as int,
                factor as int,
            ) && height as int == spec_next_dim(
                levels@[levels@.len() - 1].height as int,
                factor as int,
            ),
            levels@.len() > 0 ==> levels@[0].width == extent && levels@[0].height == extent,
            forall|k: int|
                0 < k < levels@.len() ==> (#[trigger] levels@[k]).width as int == spec_next_dim(
                    levels@[k - 1].width as int,
                    factor as int,
                ) && levels@[k].height as int == spec_next_dim(
                    levels@[k - 1].height as int,
                    factor as int,
                ),
            forall|k: int|
                0 <= k < levels@.len() ==> 1 <= (#[trigger] levels@[k]).width <= extent && 1
                    <= levels@[k].height <= extent,
            forall|k: int|
                0 <= k < levels@.len() ==> !((#[trigger] levels@[k]).width <= min_region
                    && levels@[k].height <= min_region),
        ensures
            levels@.len() == total,
            levels@.len() >= 1,
            levels@[0].width == extent,
            levels@[0].height == extent,
            forall|k: int|
                0 < k < levels@.len() ==> (#[trigger] levels@[k]).width as int == spec_next_dim(
                    levels@[k - 1].width as int,
                    factor as int,
                ) && levels@[k].height as int == spec_next_dim(
                    levels@[k - 1].height as int,
                    factor as int,
                ),
            forall|k: int|
                0 <= k < levels@.len() ==> 1 <= (#[trigger] levels@[k]).width <= extent && 1
                    <= levels@[k].height <= extent,
            levels@[levels@.len() - 1].width <= min_region && levels@[levels@.len() - 1].height
                <= min_region,
            forall|k: int|
                0 <= k < levels@.len() - 1 ==> !((#[trigger] levels@[k]).width <= min_region
                    && levels@[k].height <= min_region),
        decreases level_count(width as int, height as int, factor as int, min_region as int),
    {
        proof {
            lemma_level_count_pos(width as int, height as int, factor as int, min_region as int);
        }
        levels.push(LevelExtent { width, height });
        if width <= min_region && height <= min_region {
            break ;
        }
        width = next_dim(width, factor);
        height = next_dim(height, factor);
    }
    levels
}

} // verus!
