//! The mass-field pyramid of one frame slot: a ladder of 2-D grids of
//! accumulated mass, finest first.
//!
//! Rasterization scatters one unit of mass per particle into the finest
//! level at the cell under the particle's position; downsampling then
//! fills each coarser level so that every coarse cell holds the total of
//! the fine cells that map onto it. Both steps preserve total mass
//! exactly: the grids hold integer mass counts.

use vstd::prelude::*;

use crate::params::MASS_FIELD_SIZE;
use crate::params::MASS_LIMIT;
use crate::params::MIN_REGION;
use crate::params::MIP_LEVEL_DOWNSAMPLING;
use crate::params::SCALE;
use crate::particle::Particle;
use crate::pyramid::compute_level_extents;
use crate::pyramid::level_count;
use crate::pyramid::spec_next_dim;
use crate::sums::lemma_sum_range_elem_bound;
use crate::sums::lemma_sum_range_nonneg;
use crate::sums::lemma_sum_range_peel_back;
use crate::sums::lemma_sum_range_split;
use crate::sums::lemma_sum_range_update;
use crate::sums::lemma_sum_range_upper;
use crate::sums::sum_range;

verus! {

/// Division truncating toward zero, so that negating the dividend negates
/// the quotient.
pub open spec fn spec_tdiv(a: int, b: int) -> int {
    if a >= 0 {
        a / b
    } else {
        -((-a) / b)
    }
}

/// Saturation of `x` into the symmetric interval `[-lim, lim]`.
pub open spec fn spec_clamp(x: int, lim: int) -> int {
    if x < -lim {
        -lim
    } else if x > lim {
        lim
    } else {
        x
    }
}

/// Division truncating toward zero.
pub fn tdiv(a: i64, b: i64) -> (q: i64)
    requires
        b > 0,
        a > i64::MIN,
    ensures
        q as int == spec_tdiv(a as int, b as int),
        a >= 0 ==> 0 <= q <= a,
        a < 0 ==> a <= q <= 0,
{
    if a >= 0 {
        proof {
            vstd::arithmetic::div_mod::lemma_div_nonincreasing(a as int, b as int);
            vstd::arithmetic::div_mod::lemma_div_pos_is_pos(a as int, b as int);
        }
        ((a as u64) / (b as u64)) as i64
    } else {
        proof {
            vstd::arithmetic::div_mod::lemma_div_nonincreasing(-(a as int), b as int);
            vstd::arithmetic::div_mod::lemma_div_pos_is_pos(-(a as int), b as int);
        }
        let n = (-a) as u64;
        -((n / (b as u64)) as i64)
    }
}

/// Saturation of `x` into `[-lim, lim]`.
pub fn clamp_mag(x: i64, lim: i64) -> (y: i64)
    requires
        0 <= lim,
    ensures
        y as int == spec_clamp(x as int, lim as int),
        -lim <= y <= lim,
{
    if x < -lim {
        -lim
    } else if x > lim {
        lim
    } else {
        x
    }
}

/// Truncating division is odd in its dividend.
pub proof fn lemma_tdiv_odd(a: int, b: int)
    requires
        b > 0,
    ensures
        spec_tdiv(-a, b) == -spec_tdiv(a, b),
{
}

/// Symmetric saturation is odd.
pub proof fn lemma_clamp_odd(x: int, lim: int)
    requires
        lim >= 0,
    ensures
        spec_clamp(-x, lim) == -spec_clamp(x, lim),
{
}

/// The storage coordinate of a fixed-point position on one axis of a grid
/// `w` cells wide: the visible range `[-SCALE, SCALE]` maps onto the `w`
/// cells, positions outside it saturate into the border cells, and the
/// grid center sits at the coordinate origin.
pub open spec fn spec_cell_coord(x: int, w: int) -> int {
    let half = (w - 1) / 2;
    spec_clamp(spec_tdiv(spec_clamp(x, SCALE as int) * w, 2 * SCALE as int), half) + half
}

/// The storage coordinate is a valid cell index.
pub proof fn lemma_cell_coord_range(x: int, w: int)
    requires
        w >= 1,
    ensures
        0 <= spec_cell_coord(x, w) < w,
{
}

/// On a grid with an odd number of cells, point reflection of a position
/// reflects its cell: the grid has a center cell and no reflection bias.
pub proof fn lemma_cell_coord_mirror(x: int, w: int)
    requires
        w >= 1,
        w % 2 == 1,
    ensures
        spec_cell_coord(-x, w) == w - 1 - spec_cell_coord(x, w),
{
    let half = (w - 1) / 2;
    lemma_clamp_odd(x, SCALE as int);
    let cx = spec_clamp(x, SCALE as int);
    assert((-cx) * w == -(cx * w)) by (nonlinear_arith);
    lemma_tdiv_odd(cx * w, 2 * SCALE as int);
    lemma_clamp_odd(spec_tdiv(cx * w, 2 * SCALE as int), half);
    assert(2 * half == w - 1);
}

/// The storage coordinate of a fixed-point position on one axis.
pub fn cell_coord(x: i64, w: usize) -> (c: usize)
    requires
        1 <= w <= MASS_FIELD_SIZE as usize,
    ensures
        c as int == spec_cell_coord(x as int, w as int),
        c < w,
{
    let half = ((w - 1) / 2) as i64;
    let cx = clamp_mag(x, SCALE);
    proof {
        assert(-(65536 * 2187) <= (cx as int) * (w as int) <= 65536 * 2187) by (nonlinear_arith)
            requires
                -65536 <= cx as int <= 65536,
                1 <= w as int <= 2187,
        ;
    }
    let scaled = cx * (w as i64);
    let c = clamp_mag(tdiv(scaled, 2 * SCALE), half);
    (c + half) as usize
}

/// The value of cell `i` of a grid, as an unbounded integer.
pub open spec fn cell_val(s: Seq<u64>) -> spec_fn(int) -> int {
    |i: int| s[i] as int
}

/// The mass of a grid's first `n` cells.
pub open spec fn sum_cells_prefix(s: Seq<u64>, n: int) -> int {
    sum_range(cell_val(s), 0, n)
}

/// The sum of a grid's cells, as an unbounded integer.
pub open spec fn sum_cells(s: Seq<u64>) -> int {
    sum_cells_prefix(s, s.len() as int)
}

/// Cell sums are non-negative.
pub proof fn lemma_sum_cells_nonneg(s: Seq<u64>)
    ensures
        sum_cells(s) >= 0,
{
    lemma_sum_range_nonneg(cell_val(s), 0, s.len() as int);
}

/// Every cell is at most the whole sum.
pub proof fn lemma_sum_cells_elem(s: Seq<u64>, j: int)
    requires
        0 <= j < s.len(),
    ensures
        s[j] <= sum_cells(s),
{
    lemma_sum_range_elem_bound(cell_val(s), 0, s.len() as int, j);
}

/// A grid of zeroes has zero mass.
pub proof fn lemma_sum_cells_zero(s: Seq<u64>)
    requires
        forall|i: int| 0 <= i < s.len() ==> s[i] == 0,
    ensures
        sum_cells(s) == 0,
{
    lemma_sum_range_nonneg(cell_val(s), 0, s.len() as int);
    lemma_sum_range_upper(cell_val(s), 0, s.len() as int, 0);
}

/// Bumping one cell by `d` bumps the sum by `d`.
pub proof fn lemma_sum_cells_update(s: Seq<u64>, j: int, v: u64)
    requires
        0 <= j < s.len(),
    ensures
        sum_cells(s.update(j, v)) == sum_cells(s) - s[j] + v,
{
    lemma_sum_range_update(cell_val(s), cell_val(s.update(j, v)), 0, s.len() as int, j, v - s[j]);
}

/// One pyramid level: a `width` by `height` grid of mass counts, stored
/// row-major.
pub struct PyramidLevel {
    pub width: usize,
    pub height: usize,
    pub cells: Vec<u64>,
}

impl PyramidLevel {
    pub open spec fn wf(self) -> bool {
        &&& 1 <= self.width <= MASS_FIELD_SIZE as usize
        &&& 1 <= self.height <= MASS_FIELD_SIZE as usize
        &&& self.cells@.len() == self.width * self.height
    }

    /// Total mass accumulated in this level.
    pub open spec fn mass(self) -> int {
        sum_cells(self.cells@)
    }
}

/// The flat storage index of the cell a particle scatters into on a `w`
/// by `h` grid.
pub open spec fn spec_particle_index(p: Particle, w: int, h: int) -> int {
    spec_cell_coord(p.pos_y as int, h) * w + spec_cell_coord(p.pos_x as int, w)
}

/// The particle's storage index is in range.
pub proof fn lemma_particle_index_range(p: Particle, w: int, h: int)
    requires
        w >= 1,
        h >= 1,
    ensures
        0 <= spec_particle_index(p, w, h) < w * h,
{
    lemma_cell_coord_range(p.pos_x as int, w);
    lemma_cell_coord_range(p.pos_y as int, h);
    let row = spec_cell_coord(p.pos_y as int, h);
    let col = spec_cell_coord(p.pos_x as int, w);
    assert(0 <= row * w + col < w * h) by (nonlinear_arith)
        requires
            0 <= row < h,
            0 <= col < w,
    ;
}

/// A grid after one particle's unit of mass lands in its cell.
pub open spec fn spec_scatter_one(cells: Seq<u64>, w: int, h: int, p: Particle) -> Seq<u64> {
    let idx = spec_particle_index(p, w, h);
    cells.update(idx, (cells[idx] + 1) as u64)
}

/// A grid after every particle of `parts`, in order, lands its unit of
/// mass.
pub open spec fn spec_scatter(cells: Seq<u64>, w: int, h: int, parts: Seq<Particle>) -> Seq<u64>
    decreases parts.len(),
{
    if parts.len() == 0 {
        cells
    } else {
        spec_scatter_one(spec_scatter(cells, w, h, parts.drop_last()), w, h, parts.last())
    }
}

/// A grid of `n` zeroed cells.
pub open spec fn zero_grid(n: int) -> Seq<u64> {
    Seq::new(n as nat, |i: int| 0u64)
}


/// Scattering never changes the grid's size.
proof fn lemma_scatter_len(cells: Seq<u64>, w: int, h: int, parts: Seq<Particle>)
    requires
        w >= 1,
        h >= 1,
        cells.len() == w * h,
    ensures
        spec_scatter(cells, w, h, parts).len() == cells.len(),
    decreases parts.len(),
{
    if parts.len() > 0 {
        lemma_scatter_len(cells, w, h, parts.drop_last());
        lemma_particle_index_range(parts.last(), w, h);
    }
}

/// Two particles may land in either order: accumulation is additive, so
/// the grid comes out the same.
proof fn lemma_scatter_one_commutes(cells: Seq<u64>, w: int, h: int, a: Particle, b: Particle)
    requires
        w >= 1,
        h >= 1,
        cells.len() == w * h,
    ensures
        spec_scatter_one(spec_scatter_one(cells, w, h, a), w, h, b) == spec_scatter_one(
            spec_scatter_one(cells, w, h, b),
            w,
            h,
            a,
        ),
{
    let ia = spec_particle_index(a, w, h);
    let ib = spec_particle_index(b, w, h);
    lemma_particle_index_range(a, w, h);
    lemma_particle_index_range(b, w, h);
    let lhs = spec_scatter_one(spec_scatter_one(cells, w, h, a), w, h, b);
    let rhs = spec_scatter_one(spec_scatter_one(cells, w, h, b), w, h, a);
    assert(lhs =~= rhs);
}

/// Accumulation is order-independent: swapping any two neighbors in the
/// processing order leaves the accumulated grid unchanged, and repeated
/// swaps reach every processing order, so the rasterized result is
/// deterministic whatever order the particles land in.
pub proof fn lemma_scatter_order_independent(
    cells: Seq<u64>,
    w: int,
    h: int,
    parts: Seq<Particle>,
    j: int,
)
    requires
        w >= 1,
        h >= 1,
        cells.len() == w * h,
        0 <= j < parts.len() - 1,
    ensures
        spec_scatter(cells, w, h, parts.update(j, parts[j + 1]).update(j + 1, parts[j]))
            == spec_scatter(cells, w, h, parts),
    decreases parts.len(),
{
    let n = parts.len() as int;
    let swapped = parts.update(j, parts[j + 1]).update(j + 1, parts[j]);
    if j == n - 2 {
        let base = parts.drop_last().drop_last();
        let s = spec_scatter(cells, w, h, base);
        lemma_scatter_len(cells, w, h, base);
        assert(swapped.drop_last() =~= base.push(parts[n - 1]));
        assert(parts.drop_last() =~= base.push(parts[n - 2]));
        assert(base.push(parts[n - 1]).drop_last() =~= base);
        assert(base.push(parts[n - 2]).drop_last() =~= base);
        assert(base.push(parts[n - 1]).last() == parts[n - 1]);
        assert(base.push(parts[n - 2]).last() == parts[n - 2]);
        assert(spec_scatter(cells, w, h, base.push(parts[n - 1])) == spec_scatter_one(
            s,
            w,
            h,
            parts[n - 1],
        ));
        assert(spec_scatter(cells, w, h, base.push(parts[n - 2])) == spec_scatter_one(
            s,
            w,
            h,
            parts[n - 2],
        ));
        assert(swapped.last() == parts[n - 2]);
        assert(parts.last() == parts[n - 1]);
        assert(spec_scatter(cells, w, h, swapped) == spec_scatter_one(
            spec_scatter(cells, w, h, swapped.drop_last()),
            w,
            h,
            parts[n - 2],
        ));
        assert(spec_scatter(cells, w, h, parts) == spec_scatter_one(
            spec_scatter(cells, w, h, parts.drop_last()),
            w,
            h,
            parts[n - 1],
        ));
        lemma_scatter_one_commutes(s, w, h, parts[n - 2], parts[n - 1]);
    } else {
        assert(swapped.last() == parts.last());
        assert(swapped.drop_last() =~= parts.drop_last().update(
            j,
            parts.drop_last()[j + 1],
        ).update(j + 1, parts.drop_last()[j]));
        lemma_scatter_order_independent(cells, w, h, parts.drop_last(), j);
    }
}

/// Scattering preserves the grid's size and adds exactly one unit of mass
/// per particle: rasterization is a total-mass-preserving scatter.
pub proof fn lemma_scatter_mass(cells: Seq<u64>, w: int, h: int, parts: Seq<Particle>)
    requires
        w >= 1,
        h >= 1,
        cells.len() == w * h,
        sum_cells(cells) + parts.len() <= u64::MAX,
    ensures
        spec_scatter(cells, w, h, parts).len() == cells.len(),
        sum_cells(spec_scatter(cells, w, h, parts)) == sum_cells(cells) + parts.len(),
    decreases parts.len(),
{
    lemma_sum_cells_nonneg(cells);
    if parts.len() > 0 {
        let prefix = parts.drop_last();
        lemma_scatter_mass(cells, w, h, prefix);
        let mid = spec_scatter(cells, w, h, prefix);
        let p = parts.last();
        let idx = spec_particle_index(p, w, h);
        lemma_particle_index_range(p, w, h);
        lemma_sum_cells_elem(mid, idx);
        lemma_sum_cells_nonneg(mid);
        assert(mid[idx] + 1 <= u64::MAX);
        lemma_sum_cells_update(mid, idx, (mid[idx] + 1) as u64);
    }
}


/// The coarse cell that fine cell `i` reduces into: its `factor`-by-
/// `factor` block, with the last coarse row and column absorbing any
/// remainder of a dimension that is not an exact multiple.
pub open spec fn spec_coarse_index(i: int, fw: int, cw: int, ch: int, factor: int) -> int {
    let row = i / fw;
    let col = i % fw;
    let cr = if row / factor < ch - 1 {
        row / factor
    } else {
        ch - 1
    };
    let cc = if col / factor < cw - 1 {
        col / factor
    } else {
        cw - 1
    };
    cr * cw + cc
}

/// The coarse index of any fine cell is a valid coarse cell.
pub proof fn lemma_coarse_index_range(i: int, fw: int, cw: int, ch: int, factor: int)
    requires
        i >= 0,
        fw >= 1,
        cw >= 1,
        ch >= 1,
        factor >= 1,
    ensures
        0 <= spec_coarse_index(i, fw, cw, ch, factor) < cw * ch,
{
    let row = i / fw;
    let col = i % fw;
    vstd::arithmetic::div_mod::lemma_div_pos_is_pos(i, fw);
    vstd::arithmetic::div_mod::lemma_mod_bound(i, fw);
    vstd::arithmetic::div_mod::lemma_div_pos_is_pos(row, factor);
    vstd::arithmetic::div_mod::lemma_div_pos_is_pos(col, factor);
    let cr = if row / factor < ch - 1 {
        row / factor
    } else {
        ch - 1
    };
    let cc = if col / factor < cw - 1 {
        col / factor
    } else {
        cw - 1
    };
    assert(0 <= cr * cw + cc < cw * ch) by (nonlinear_arith)
        requires
            0 <= cr <= ch - 1,
            0 <= cc <= cw - 1,
            cw >= 1,
            ch >= 1,
    ;
}

/// What fine cell `i` contributes to coarse cell `j`: its whole mass if it
/// reduces into `j`, nothing otherwise.
pub open spec fn reduce_contrib(
    fine: Seq<u64>,
    fw: int,
    cw: int,
    ch: int,
    factor: int,
    j: int,
) -> spec_fn(int) -> int {
    |i: int|
        if spec_coarse_index(i, fw, cw, ch, factor) == j {
            fine[i] as int
        } else {
            0
        }
}

/// The mass coarse cell `j` has gathered from the first `n` fine cells.
pub open spec fn spec_reduced_prefix(
    fine: Seq<u64>,
    fw: int,
    cw: int,
    ch: int,
    factor: int,
    j: int,
    n: int,
) -> int {
    sum_range(reduce_contrib(fine, fw, cw, ch, factor, j), 0, n)
}

/// The mass of coarse cell `j` after the reduction of the whole fine
/// grid: the sum of the fine cells in its block.
pub open spec fn spec_reduced_cell(
    fine: Seq<u64>,
    fw: int,
    cw: int,
    ch: int,
    factor: int,
    j: int,
) -> int {
    spec_reduced_prefix(fine, fw, cw, ch, factor, j, fine.len() as int)
}

/// `coarse` is the mass-preserving reduction of `fine` by the global
/// downsampling factor: every coarse cell holds exactly the mass of the
/// fine cells of its block.
pub open spec fn is_reduction(coarse: PyramidLevel, fine: PyramidLevel) -> bool {
    forall|j: int|
        0 <= j < coarse.cells@.len() ==> #[trigger] coarse.cells@[j] as int == spec_reduced_cell(
            fine.cells@,
            fine.width as int,
            coarse.width as int,
            coarse.height as int,
            MIP_LEVEL_DOWNSAMPLING as int,
            j,
        )
}

/// A grid of `n` zeroed cells, built.
fn zero_cells(n: usize) -> (v: Vec<u64>)
    ensures
        v@ == zero_grid(n as int),
        sum_cells(v@) == 0,
{
    let mut v: Vec<u64> = Vec::new();
    let mut i: usize = 0;
    while i < n
        invariant
            i <= n,
            v@.len() == i,
            forall|t: int| 0 <= t < i ==> v@[t] == 0,
        decreases n - i,
    {
        v.push(0);
        i = i + 1;
    }
    proof {
        assert(v@ =~= zero_grid(n as int));
        lemma_sum_cells_zero(v@);
    }
    v
}

/// Reduce a fine level into a freshly allocated `cw` by `ch` coarse grid:
/// every fine cell's mass lands in its coarse block, so the coarse grid
/// holds exactly the block sums, and the total mass is unchanged.
pub fn reduce_cells(fine: &PyramidLevel, cw: usize, ch: usize) -> (out: Vec<u64>)
    requires
        fine.wf(),
        1 <= cw <= MASS_FIELD_SIZE as usize,
        1 <= ch <= MASS_FIELD_SIZE as usize,
        sum_cells(fine.cells@) <= u64::MAX,
    ensures
        out@.len() == cw * ch,
        forall|j: int|
            0 <= j < cw * ch ==> #[trigger] out@[j] as int == spec_reduced_cell(
                fine.cells@,
                fine.width as int,
                cw as int,
                ch as int,
                MIP_LEVEL_DOWNSAMPLING as int,
                j,
            ),
        sum_cells(out@) == sum_cells(fine.cells@),
{
    let fw = fine.width;
    let factor = MIP_LEVEL_DOWNSAMPLING as usize;
    let n = fine.cells.len();
    proof {
        assert(cw * ch <= 2187 * 2187) by (nonlinear_arith)
            requires
                1 <= cw <= 2187,
                1 <= ch <= 2187,
        ;
    }
    let mut out: Vec<u64> = zero_cells(cw * ch);
    proof {
        assert forall|j: int| 0 <= j < cw * ch implies #[trigger] out@[j] as int
            == spec_reduced_prefix(
            fine.cells@,
            fw as int,
            cw as int,
            ch as int,
            factor as int,
            j,
            0,
        ) by {
            assert(sum_range(reduce_contrib(fine.cells@, fw as int, cw as int, ch as int, factor as int, j), 0, 0) == 0);
        }
    }
    let ghost gcells = fine.cells@;
    let mut i: usize = 0;
    while i < n
        invariant
            fine.wf(),
            gcells == fine.cells@,
            fw == fine.width,
            factor == MIP_LEVEL_DOWNSAMPLING as usize,
            n == fine.cells@.len(),
            i <= n,
            1 <= cw <= MASS_FIELD_SIZE as usize,
            1 <= ch <= MASS_FIELD_SIZE as usize,
            out@.len() == cw * ch,
            sum_cells(gcells) <= u64::MAX,
            sum_cells(out@) == sum_cells_prefix(gcells, i as int),
            forall|j: int|
                0 <= j < cw * ch ==> #[trigger] out@[j] as int == spec_reduced_prefix(
                    gcells,
                    fw as int,
                    cw as int,
                    ch as int,
                    factor as int,
                    j,
                    i as int,
                ),
        decreases n - i,
    {
        let row = i / fw;
        let col = i % fw;
        let rq = row / factor;
        let cq = col / factor;
        let cr = if rq < ch - 1 {
            rq
        } else {
            ch - 1
        };
        let cc = if cq < cw - 1 {
            cq
        } else {
            cw - 1
        };
        proof {
            lemma_coarse_index_range(i as int, fw as int, cw as int, ch as int, factor as int);
            assert(cr * cw + cc == spec_coarse_index(
                i as int,
                fw as int,
                cw as int,
                ch as int,
                factor as int,
            ));
            assert(cr * cw + cc < cw * ch);
            assert((cr as int) * (cw as int) + (cc as int) < 2187 * 2187) by (nonlinear_arith)
                requires
                    0 <= cr as int <= ch as int - 1,
                    0 <= cc as int <= cw as int - 1,
                    1 <= cw as int <= 2187,
                    1 <= ch as int <= 2187,
            ;
        }
        let j = cr * cw + cc;
        // The landing cell plus the incoming mass stays within range:
        // both are parts of the fine grid's total.
        proof {
            lemma_sum_cells_elem(out@, j as int);
            lemma_sum_range_peel_back(cell_val(gcells), 0, i as int + 1);
            lemma_sum_range_split(cell_val(gcells), 0, i as int + 1, gcells.len() as int);
            lemma_sum_range_nonneg(cell_val(gcells), i as int + 1, gcells.len() as int);
            lemma_sum_range_nonneg(cell_val(gcells), 0, i as int);
            assert(sum_cells_prefix(gcells, i as int) + gcells[i as int] <= sum_cells(gcells));
        }
        let v = out[j] + fine.cells[i];
        let ghost out_before = out@;
        out[j] = v;
        i = i + 1;
        proof {
            lemma_sum_cells_update(out_before, j as int, v);
            lemma_sum_range_peel_back(cell_val(gcells), 0, i as int);
            assert forall|j2: int| 0 <= j2 < cw * ch implies #[trigger] out@[j2] as int
                == spec_reduced_prefix(
                gcells,
                fw as int,
                cw as int,
                ch as int,
                factor as int,
                j2,
                i as int,
            ) by {
                let c = reduce_contrib(gcells, fw as int, cw as int, ch as int, factor as int, j2);
                lemma_sum_range_peel_back(c, 0, i as int);
            }
        }
    }
    proof {
        assert forall|j: int| 0 <= j < cw * ch implies #[trigger] out@[j] as int
            == spec_reduced_cell(
            gcells,
            fw as int,
            cw as int,
            ch as int,
            MIP_LEVEL_DOWNSAMPLING as int,
            j,
        ) by {
            assert(out@[j] as int == spec_reduced_prefix(
                gcells,
                fw as int,
                cw as int,
                ch as int,
                factor as int,
                j,
                n as int,
            ));
        }
    }
    out
}

/// The mass-field pyramid of one frame slot: every level of the ladder,
/// finest first.
pub struct MassField {
    pub levels: Vec<PyramidLevel>,
}

/// Two pyramids have the same shape: equally many levels, of equal
/// dimensions.
pub open spec fn same_geometry(a: MassField, b: MassField) -> bool {
    &&& a.levels@.len() == b.levels@.len()
    &&& forall|k: int|
        0 <= k < a.levels@.len() ==> (#[trigger] a.levels@[k]).width == b.levels@[k].width
            && a.levels@[k].height == b.levels@[k].height
}

impl MassField {
    /// Every level is a well-formed grid, and each coarser level has the
    /// next-coarser dimensions of its predecessor.
    pub open spec fn wf(self) -> bool {
        &&& 1 <= self.levels@.len()
        &&& forall|k: int| 0 <= k < self.levels@.len() ==> (#[trigger] self.levels@[k]).wf()
        &&& forall|k: int|
            0 < k < self.levels@.len() ==> (#[trigger] self.levels@[k]).width as int
                == spec_next_dim(
                self.levels@[k - 1].width as int,
                MIP_LEVEL_DOWNSAMPLING as int,
            ) && self.levels@[k].height as int == spec_next_dim(
                self.levels@[k - 1].height as int,
                MIP_LEVEL_DOWNSAMPLING as int,
            )
    }

    /// All levels are zero: no cell holds any mass.
    pub open spec fn is_cleared(self) -> bool {
        forall|k: int|
            0 <= k < self.levels@.len() ==> (#[trigger] self.levels@[k]).cells@ == zero_grid(
                self.levels@[k].width * self.levels@[k].height,
            )
    }

    /// A fresh, zeroed pyramid whose finest level is `extent` cells a
    /// side, with exactly the level ladder the construction rules call
    /// for.
    pub fn new(extent: u32) -> (f: MassField)
        requires
            1 <= extent <= MASS_FIELD_SIZE,
        ensures
            f.wf(),
            f.is_cleared(),
            f.levels@.len() == level_count(
                extent as int,
                extent as int,
                MIP_LEVEL_DOWNSAMPLING as int,
                MIN_REGION as int,
            ),
            f.levels@[0].width == extent as usize,
            f.levels@[0].height == extent as usize,
            forall|k: int|
                0 <= k < f.levels@.len() ==> (#[trigger] f.levels@[k]).mass() == 0,
    {
        let extents = compute_level_extents(extent, MIP_LEVEL_DOWNSAMPLING, MIN_REGION);
        let mut levels: Vec<PyramidLevel> = Vec::new();
        let mut k: usize = 0;
        while k < extents.len()
            invariant
                k <= extents@.len(),
                levels@.len() == k,
                forall|t: int|
                    0 <= t < extents@.len() ==> 1 <= (#[trigger] extents@[t]).width
                        <= MASS_FIELD_SIZE && 1 <= extents@[t].height <= MASS_FIELD_SIZE,
                forall|t: int|
                    0 < t < extents@.len() ==> (#[trigger] extents@[t]).width as int
                        == spec_next_dim(
                        extents@[t - 1].width as int,
                        MIP_LEVEL_DOWNSAMPLING as int,
                    ) && extents@[t].height as int == spec_next_dim(
                        extents@[t - 1].height as int,
                        MIP_LEVEL_DOWNSAMPLING as int,
                    ),
                forall|t: int|
                    0 <= t < k ==> (#[trigger] levels@[t]).width == extents@[t].width as usize
                        && levels@[t].height == extents@[t].height as usize,
                forall|t: int| 0 <= t < k ==> (#[trigger] levels@[t]).wf(),
                forall|t: int|
                    0 <= t < k ==> (#[trigger] levels@[t]).cells@ == zero_grid(
                        levels@[t].width * levels@[t].height,
                    ),
                forall|t: int| 0 <= t < k ==> (#[trigger] levels@[t]).mass() == 0,
            decreases extents@.len() - k,
        {
            let w = extents[k].width as usize;
            let h = extents[k].height as usize;
            proof {
                assert(w * h <= 2187 * 2187) by (nonlinear_arith)
                    requires
                        1 <= w <= 2187,
                        1 <= h <= 2187,
                ;
            }
            let cells = zero_cells(w * h);
            levels.push(PyramidLevel { width: w, height: h, cells });
            k = k + 1;
        }
        MassField { levels }
    }

    /// Zero every level, keeping the geometry: the clear phase of the
    /// rasterization stage.
    pub fn clear(&mut self)
        requires
            old(self).wf(),
        ensures
            final(self).wf(),
            same_geometry(*final(self), *old(self)),
            final(self).is_cleared(),
            forall|k: int|
                0 <= k < final(self).levels@.len() ==> (#[trigger] final(self).levels@[k]).mass()
                    == 0,
    {
        let n = self.levels.len();
        let mut k: usize = 0;
        while k < n
            invariant
                old(self).wf(),
                n == self.levels@.len(),
                n == old(self).levels@.len(),
                k <= n,
                forall|t: int|
                    0 <= t < n ==> (#[trigger] self.levels@[t]).width == old(
                        self,
                    ).levels@[t].width && self.levels@[t].height == old(self).levels@[t].height,
                forall|t: int| 0 <= t < n ==> (#[trigger] self.levels@[t]).wf(),
                forall|t: int|
                    k <= t < n ==> (#[trigger] self.levels@[t]).cells@ == old(
                        self,
                    ).levels@[t].cells@,
                forall|t: int|
                    0 <= t < k ==> (#[trigger] self.levels@[t]).cells@ == zero_grid(
                        self.levels@[t].width * self.levels@[t].height,
                    ),
                forall|t: int| 0 <= t < k ==> (#[trigger] self.levels@[t]).mass() == 0,
            decreases n - k,
        {
            let w = self.levels[k].width;
            let h = self.levels[k].height;
            proof {
                assert(w * h <= 2187 * 2187) by (nonlinear_arith)
                    requires
                        1 <= w <= 2187,
                        1 <= h <= 2187,
                ;
            }
            let cells = zero_cells(w * h);
            self.levels[k] = PyramidLevel { width: w, height: h, cells };
            k = k + 1;
        }
    }

    /// Scatter one unit of mass per particle into the finest level: the
    /// accumulation phase of the rasterization stage. Accumulation is
    /// additive and order-independent in effect; the finest level gains
    /// exactly one unit of mass per particle, whatever the distribution,
    /// and no other level changes.
    pub fn accumulate(&mut self, parts: &Vec<Particle>)
        requires
            old(self).wf(),
            old(self).levels@[0].mass() + parts@.len() <= u64::MAX,
        ensures
            final(self).wf(),
            same_geometry(*final(self), *old(self)),
            final(self).levels@[0].cells@ == spec_scatter(
                old(self).levels@[0].cells@,
                old(self).levels@[0].width as int,
                old(self).levels@[0].height as int,
                parts@,
            ),
            final(self).levels@[0].mass() == old(self).levels@[0].mass() + parts@.len(),
            forall|k: int|
                1 <= k < final(self).levels@.len() ==> #[trigger] final(self).levels@[k] == old(
                    self,
                ).levels@[k],
    {
        let w = self.levels[0].width;
        let h = self.levels[0].height;
        let ghost orig = self.levels@[0].cells@;
        let n = parts.len();
        let mut i: usize = 0;
        while i < n
            invariant
                old(self).wf(),
                self.levels@.len() == old(self).levels@.len(),
                forall|k: int|
                    1 <= k < self.levels@.len() ==> #[trigger] self.levels@[k] == old(
                        self,
                    ).levels@[k],
                w == old(self).levels@[0].width,
                h == old(self).levels@[0].height,
                self.levels@[0].width == w,
                self.levels@[0].height == h,
                1 <= w <= MASS_FIELD_SIZE as usize,
                1 <= h <= MASS_FIELD_SIZE as usize,
                self.levels@[0].cells@.len() == w * h,
                i <= n,
                n == parts@.len(),
                orig == old(self).levels@[0].cells@,
                sum_cells(orig) + n <= u64::MAX,
                self.levels@[0].cells@ == spec_scatter(
                    orig,
                    w as int,
                    h as int,
                    parts@.take(i as int),
                ),
                sum_cells(self.levels@[0].cells@) == sum_cells(orig) + i,
            decreases n - i,
        {
            let p = parts[i];
            let row = cell_coord(p.pos_y, h);
            let col = cell_coord(p.pos_x, w);
            proof {
                assert((row as int) * (w as int) + (col as int) < (w as int) * (h as int))
                    by (nonlinear_arith)
                    requires
                        0 <= row as int <= h as int - 1,
                        0 <= col as int <= w as int - 1,
                        1 <= w as int <= 2187,
                        1 <= h as int <= 2187,
                ;
                assert((w as int) * (h as int) <= 2187 * 2187) by (nonlinear_arith)
                    requires
                        1 <= w as int <= 2187,
                        1 <= h as int <= 2187,
                ;
            }
            let idx = row * w + col;
            proof {
                assert(idx as int == spec_particle_index(p, w as int, h as int));
                lemma_sum_cells_elem(self.levels@[0].cells@, idx as int);
                lemma_sum_cells_nonneg(orig);
            }
            let cur = self.levels[0].cells[idx];
            let ghost before = self.levels@[0].cells@;
            self.levels[0].cells[idx] = cur + 1;
            i = i + 1;
            proof {
                lemma_sum_cells_update(before, idx as int, (cur + 1) as u64);
                assert(parts@.take(i as int).drop_last() =~= parts@.take(i as int - 1));
                assert(parts@.take(i as int).last() == parts@[i as int - 1]);
                assert(self.levels@[0].cells@ == spec_scatter_one(
                    before,
                    w as int,
                    h as int,
                    parts@[i as int - 1],
                ));
            }
        }
        proof {
            assert(parts@.take(n as int) =~= parts@);
        }
    }

    /// Fill every coarser level from the level below it: the reduction
    /// phase of the rasterization stage. Each coarse cell ends up with
    /// exactly the mass of its block of finer cells, so every level comes
    /// to carry the same total mass as the finest level.
    #[verifier::rlimit(50)]
    pub fn downsample_all(&mut self)
        requires
            old(self).wf(),
            old(self).levels@[0].mass() <= u64::MAX,
        ensures
            final(self).wf(),
            same_geometry(*final(self), *old(self)),
            final(self).levels@[0] == old(self).levels@[0],
            forall|k: int|
                0 < k < final(self).levels@.len() ==> is_reduction(
                    #[trigger] final(self).levels@[k],
                    final(self).levels@[k - 1],
                ),
            forall|k: int|
                0 <= k < final(self).levels@.len() ==> (#[trigger] final(self).levels@[k]).mass()
                    == old(self).levels@[0].mass(),
    {
        let n = self.levels.len();
        let mut k: usize = 1;
        while k < n
            invariant
                old(self).wf(),
                n == self.levels@.len(),
                n == old(self).levels@.len(),
                1 <= k <= n,
                old(self).levels@[0].mass() <= u64::MAX,
                forall|t: int| 0 <= t < n ==> (#[trigger] self.levels@[t]).wf(),
                forall|t: int|
                    0 <= t < n ==> (#[trigger] self.levels@[t]).width == old(
                        self,
                    ).levels@[t].width && self.levels@[t].height == old(self).levels@[t].height,
                self.levels@[0] == old(self).levels@[0],
                forall|t: int|
                    k <= t < n ==> #[trigger] self.levels@[t] == old(self).levels@[t],
                forall|t: int|
                    0 < t < k ==> is_reduction(#[trigger] self.levels@[t], self.levels@[t - 1]),
                forall|t: int|
                    0 <= t < k ==> (#[trigger] self.levels@[t]).mass() == old(
                        self,
                    ).levels@[0].mass(),
            decreases n - k,
        {
            let cw = self.levels[k].width;
            let ch = self.levels[k].height;
            proof {
                assert((self.levels@[k as int - 1]).mass() == old(self).levels@[0].mass());
                assert(sum_cells(self.levels@[k as int - 1].cells@) <= u64::MAX);
            }
            let cells = reduce_cells(&self.levels[k - 1], cw, ch);
            self.levels[k] = PyramidLevel { width: cw, height: ch, cells };
            k = k + 1;
        }
    }

    /// One full rasterization pass over a particle snapshot: clear every
    /// level, scatter one unit of mass per particle into the finest level,
    /// and reduce it up the ladder. Afterwards the total mass of the
    /// finest level equals the particle count exactly — rasterization is a
    /// total-mass-preserving scatter — and every coarser level carries
    /// that same total, each of its cells the sum of its block below.
    pub fn rasterize(&mut self, parts: &Vec<Particle>)
        requires
            old(self).wf(),
            parts@.len() <= MASS_LIMIT,
        ensures
            final(self).wf(),
            same_geometry(*final(self), *old(self)),
            final(self).levels@[0].cells@ == spec_scatter(
                zero_grid(old(self).levels@[0].width * old(self).levels@[0].height),
                old(self).levels@[0].width as int,
                old(self).levels@[0].height as int,
                parts@,
            ),
            forall|k: int|
                0 < k < final(self).levels@.len() ==> is_reduction(
                    #[trigger] final(self).levels@[k],
                    final(self).levels@[k - 1],
                ),
            forall|k: int|
                0 <= k < final(self).levels@.len() ==> (#[trigger] final(self).levels@[k]).mass()
                    == parts@.len(),
    {
        self.clear();
        self.accumulate(parts);
        self.downsample_all();
    }
}


} // verus!
