//! The symmetry law of the force model: two particles of equal mass
//! placed symmetrically about the origin, at rest or with mirrored
//! velocities, stay symmetric about the origin for any number of steps.
//!
//! The proof runs through the whole pipeline: on grids with odd
//! dimensions the cell mapping commutes with point reflection, a mirrored
//! pair scatters into a point-symmetric finest level, mass-preserving
//! reduction keeps point symmetry level by level, and the force kernel is
//! odd in the cell offset, so a point-symmetric pyramid accelerates
//! mirrored particles in exactly opposite directions.

use vstd::prelude::*;

use crate::field::is_reduction;
use crate::field::lemma_cell_coord_mirror;
use crate::field::lemma_cell_coord_range;
use crate::field::lemma_particle_index_range;
use crate::field::lemma_tdiv_odd;
use crate::field::reduce_contrib;
use crate::field::spec_cell_coord;
use crate::field::spec_clamp;
use crate::field::spec_coarse_index;
use crate::field::spec_particle_index;
use crate::field::spec_reduced_cell;
use crate::field::spec_scatter;
use crate::field::spec_scatter_one;
use crate::field::spec_tdiv;
use crate::field::zero_grid;
use crate::field::MassField;
use crate::field::PyramidLevel;
use crate::gravity::spec_accel;
use crate::gravity::spec_cell_force;
use crate::gravity::spec_col_force;
use crate::gravity::spec_force_upto;
use crate::gravity::spec_level_force;
use crate::gravity::spec_row_force;
use crate::gravity::spec_step_particle;
use crate::gravity::step_particle;
use crate::gravity::vadd;
use crate::gravity::vneg;
use crate::params::DT_LIMIT;
use crate::params::GRAVITY_NUM;
use crate::params::MASS_FIELD_SIZE;
use crate::params::MIP_LEVEL_DOWNSAMPLING;
use crate::params::POS_LIMIT;
use crate::params::SCALE;
use crate::params::VEL_LIMIT;
use crate::particle::Particle;
use crate::pyramid::lemma_standard_geometry_depth;
use crate::sums::lemma_sum_range_reflect;
use crate::sums::sum_range;

verus! {

/// Componentwise difference of two force vectors.
pub open spec fn vsub(a: (int, int), b: (int, int)) -> (int, int) {
    (a.0 - b.0, a.1 - b.1)
}

/// A grid is point-symmetric: each cell equals its point reflection
/// through the grid center (in row-major storage, cell `i` mirrors to
/// cell `len - 1 - i`).
pub open spec fn level_symmetric(lvl: PyramidLevel) -> bool {
    forall|i: int|
        0 <= i < lvl.cells@.len() ==> #[trigger] lvl.cells@[i] == lvl.cells@[lvl.cells@.len() - 1
            - i]
}

/// Every level of the pyramid is point-symmetric.
pub open spec fn field_symmetric(f: MassField) -> bool {
    forall|k: int| 0 <= k < f.levels@.len() ==> level_symmetric(#[trigger] f.levels@[k])
}

/// Every level has an odd number of cells in each dimension, so each
/// grid has a center cell and point reflection maps cells to cells.
pub open spec fn odd_dims(f: MassField) -> bool {
    forall|k: int|
        0 <= k < f.levels@.len() ==> (#[trigger] f.levels@[k]).width % 2 == 1
            && f.levels@[k].height % 2 == 1
}

/// Each finer level is exactly the downsampling factor times its coarser
/// neighbor in both dimensions, so reduction blocks tile the fine grid
/// with no remainder.
pub open spec fn exact_chain(f: MassField) -> bool {
    forall|k: int|
        0 < k < f.levels@.len() ==> (#[trigger] f.levels@[k - 1]).width as int == 3
            * f.levels@[k].width && f.levels@[k - 1].height as int == 3 * f.levels@[k].height
}

/// Reflecting a dividend within `d * m` reflects its quotient within `m`.
proof fn lemma_div_reflect(r: int, d: int, m: int)
    requires
        0 <= r < d * m,
        d >= 1,
        m >= 1,
    ensures
        (d * m - 1 - r) / d == m - 1 - r / d,
        0 <= r / d < m,
{
    vstd::arithmetic::div_mod::lemma_fundamental_div_mod(r, d);
    vstd::arithmetic::div_mod::lemma_mod_bound(r, d);
    let q = r / d;
    let s = r % d;
    assert(q < m) by (nonlinear_arith)
        requires
            r == d * q + s,
            0 <= s < d,
            r < d * m,
            d >= 1,
    ;
    assert(q >= 0) by {
        vstd::arithmetic::div_mod::lemma_div_pos_is_pos(r, d);
    }
    assert(d * m - 1 - r == d * (m - 1 - q) + (d - 1 - s)) by (nonlinear_arith)
        requires
            r == d * q + s,
    ;
    vstd::arithmetic::div_mod::lemma_fundamental_div_mod_converse_div(
        d * m - 1 - r,
        d,
        m - 1 - q,
        d - 1 - s,
    );
}

/// Point reflection of a cell in row-major storage: the mirrored row and
/// column address cell `w * h - 1 - i`.
proof fn lemma_mirror_cell_index(cx: int, cy: int, w: int, h: int)
    requires
        0 <= cx < w,
        0 <= cy < h,
    ensures
        (h - 1 - cy) * w + (w - 1 - cx) == w * h - 1 - (cy * w + cx),
        0 <= cy * w + cx < w * h,
{
    assert((h - 1 - cy) * w + (w - 1 - cx) == w * h - 1 - (cy * w + cx) && 0 <= cy * w + cx < w
        * h) by (nonlinear_arith)
        requires
            0 <= cx < w,
            0 <= cy < h,
    ;
}

/// The cell a reflected particle scatters into is the point reflection of
/// the cell the particle scatters into, on odd-dimension grids.
proof fn lemma_particle_index_mirror(p: Particle, w: int, h: int)
    requires
        w >= 1,
        h >= 1,
        w % 2 == 1,
        h % 2 == 1,
        p.wf(),
    ensures
        spec_particle_index(p.spec_reflected(), w, h) == w * h - 1 - spec_particle_index(p, w, h),
{
    lemma_cell_coord_mirror(p.pos_x as int, w);
    lemma_cell_coord_mirror(p.pos_y as int, h);
    lemma_cell_coord_range(p.pos_x as int, w);
    lemma_cell_coord_range(p.pos_y as int, h);
    let col = spec_cell_coord(p.pos_x as int, w);
    let row = spec_cell_coord(p.pos_y as int, h);
    assert(p.spec_reflected().pos_x as int == -(p.pos_x as int));
    assert(p.spec_reflected().pos_y as int == -(p.pos_y as int));
    lemma_mirror_cell_index(col, row, w, h);
}

/// Scattering a particle and its point reflection into a zeroed
/// odd-dimension grid produces a point-symmetric grid.
pub proof fn lemma_scatter_pair_symmetric(w: int, h: int, a: Particle)
    requires
        w >= 1,
        h >= 1,
        w % 2 == 1,
        h % 2 == 1,
        a.wf(),
    ensures
        ({
            let cells = spec_scatter(zero_grid(w * h), w, h, seq![a, a.spec_reflected()]);
            &&& cells.len() == w * h
            &&& forall|i: int| 0 <= i < w * h ==> #[trigger] cells[i] == cells[w * h - 1 - i]
        }),
{
    let parts = seq![a, a.spec_reflected()];
    let z = zero_grid(w * h);
    assert(parts.drop_last() =~= seq![a]);
    assert(seq![a].drop_last() =~= Seq::<Particle>::empty());
    let ia = spec_particle_index(a, w, h);
    let ib = spec_particle_index(a.spec_reflected(), w, h);
    lemma_particle_index_range(a, w, h);
    lemma_particle_index_mirror(a, w, h);
    let s0 = spec_scatter(z, w, h, Seq::<Particle>::empty());
    assert(s0 == z);
    let s1 = spec_scatter(z, w, h, seq![a]);
    assert(s1 == spec_scatter_one(z, w, h, a));
    let s2 = spec_scatter(z, w, h, parts);
    assert(s2 == spec_scatter_one(s1, w, h, a.spec_reflected()));
    assert forall|i: int| 0 <= i < w * h implies #[trigger] s2[i] == s2[w * h - 1 - i] by {
        assert(z[i] == 0);
        assert(z[w * h - 1 - i] == 0);
        if i == ia || i == ib || w * h - 1 - i == ia || w * h - 1 - i == ib {
        } else {
            assert(s2[i] == 0);
            assert(s2[w * h - 1 - i] == 0);
        }
    }
}

/// The coarse cell of the point-reflected fine cell is the point
/// reflection of the fine cell's coarse cell, when the blocks tile
/// exactly.
proof fn lemma_coarse_index_mirror(i: int, fw: int, fh: int, cw: int, ch: int)
    requires
        0 <= i < fw * fh,
        fw == 3 * cw,
        fh == 3 * ch,
        cw >= 1,
        ch >= 1,
    ensures
        spec_coarse_index(fw * fh - 1 - i, fw, cw, ch, 3) == cw * ch - 1 - spec_coarse_index(
            i,
            fw,
            cw,
            ch,
            3,
        ),
        0 <= spec_coarse_index(i, fw, cw, ch, 3) < cw * ch,
{
    vstd::arithmetic::div_mod::lemma_fundamental_div_mod(i, fw);
    vstd::arithmetic::div_mod::lemma_mod_bound(i, fw);
    let r = i / fw;
    let c = i % fw;
    assert(0 <= r < fh) by (nonlinear_arith)
        requires
            i == fw * r + c,
            0 <= c < fw,
            0 <= i < fw * fh,
            fw >= 1,
    ;
    lemma_div_reflect(r, 3, ch);
    lemma_div_reflect(c, 3, cw);
    // The clamped block index never actually clamps when blocks tile
    // exactly.
    assert(r / 3 <= ch - 1);
    assert(c / 3 <= cw - 1);
    let i2 = fw * fh - 1 - i;
    assert(fw * fh - 1 - i == fw * (fh - 1 - r) + (fw - 1 - c)) by (nonlinear_arith)
        requires
            i == fw * r + c,
    ;
    assert(i2 == fw * (fh - 1 - r) + (fw - 1 - c));
    vstd::arithmetic::div_mod::lemma_fundamental_div_mod_converse_div(
        i2,
        fw,
        fh - 1 - r,
        fw - 1 - c,
    );
    vstd::arithmetic::div_mod::lemma_fundamental_div_mod_converse_mod(
        i2,
        fw,
        fh - 1 - r,
        fw - 1 - c,
    );
    assert(i2 / fw == fh - 1 - r);
    assert(i2 % fw == fw - 1 - c);
    assert((fh - 1 - r) / 3 == ch - 1 - r / 3);
    assert((fw - 1 - c) / 3 == cw - 1 - c / 3);
    assert((ch - 1 - r / 3) * cw + (cw - 1 - c / 3) == cw * ch - 1 - ((r / 3) * cw + c / 3))
        by (nonlinear_arith);
    assert(0 <= (r / 3) * cw + c / 3 < cw * ch) by (nonlinear_arith)
        requires
            0 <= r / 3 <= ch - 1,
            0 <= c / 3 <= cw - 1,
            cw >= 1,
            ch >= 1,
    ;
}

/// Mass-preserving reduction keeps point symmetry: if the fine grid is
/// point-symmetric and the blocks tile exactly, the coarse grid is
/// point-symmetric too.
pub proof fn lemma_reduction_symmetric(coarse: PyramidLevel, fine: PyramidLevel)
    requires
        fine.wf(),
        coarse.wf(),
        fine.width as int == 3 * coarse.width,
        fine.height as int == 3 * coarse.height,
        is_reduction(coarse, fine),
        level_symmetric(fine),
    ensures
        level_symmetric(coarse),
{
    let fw = fine.width as int;
    let fh = fine.height as int;
    let cw = coarse.width as int;
    let ch = coarse.height as int;
    let nn = fine.cells@.len() as int;
    let mm = coarse.cells@.len() as int;
    assert(nn == fw * fh);
    assert(mm == cw * ch);
    assert forall|j: int| 0 <= j < mm implies #[trigger] coarse.cells@[j] == coarse.cells@[mm - 1
        - j] by {
        let hj = reduce_contrib(fine.cells@, fw, cw, ch, 3, j);
        let gj = reduce_contrib(fine.cells@, fw, cw, ch, 3, mm - 1 - j);
        assert forall|i: int| 0 <= i < nn implies #[trigger] gj(i) == hj(nn - 1 - i) by {
            lemma_coarse_index_mirror(i, fw, fh, cw, ch);
            assert(fine.cells@[i] == fine.cells@[nn - 1 - i]);
        }
        lemma_sum_range_reflect(hj, gj, 0, nn, nn - 1);
        assert(coarse.cells@[j] as int == sum_range(hj, 0, nn));
        assert(coarse.cells@[mm - 1 - j] as int == sum_range(gj, 0, nn));
    }
}

/// The force a mirrored cell of a point-symmetric grid exerts on the
/// mirrored particle is exactly the opposite of the original cell's
/// force: the kernel is odd in the offset.
proof fn lemma_cell_force_mirror(
    lvl: PyramidLevel,
    lk: int,
    gx: int,
    gy: int,
    dx: int,
    dy: int,
)
    requires
        lvl.wf(),
        level_symmetric(lvl),
        0 <= gx < lvl.width,
        0 <= gy < lvl.height,
        lk >= 0,
    ensures
        spec_cell_force(
            lvl,
            lk,
            lvl.width - 1 - gx,
            lvl.height - 1 - gy,
            -dx,
            -dy,
        ) == vneg(spec_cell_force(lvl, lk, gx, gy, dx, dy)),
{
    let w = lvl.width as int;
    let h = lvl.height as int;
    let cx = gx + dx;
    let cy = gy + dy;
    if 0 <= cx < w && 0 <= cy < h {
        lemma_mirror_cell_index(cx, cy, w, h);
        assert(lvl.cells@[cy * w + cx] == lvl.cells@[w * h - 1 - (cy * w + cx)]);
        if !(lk > 0 && -1 <= dx <= 1 && -1 <= dy <= 1) {
            let m = lvl.cells@[cy * w + cx] as int;
            let denom = (dx * dx + dy * dy + 1) * (lk + 1);
            assert((-dx) * (-dx) + (-dy) * (-dy) == dx * dx + dy * dy) by (nonlinear_arith);
            assert((dx * dx + dy * dy + 1) * (lk + 1) >= 1) by (nonlinear_arith)
                requires
                    lk >= 0,
            ;
            assert(m * (-dx) * GRAVITY_NUM as int == -(m * dx * GRAVITY_NUM as int))
                by (nonlinear_arith);
            assert(m * (-dy) * GRAVITY_NUM as int == -(m * dy * GRAVITY_NUM as int))
                by (nonlinear_arith);
            lemma_tdiv_odd(m * dx * GRAVITY_NUM as int, denom);
            lemma_tdiv_odd(m * dy * GRAVITY_NUM as int, denom);
        }
    }
}

/// Partial window columns of the mirrored particle mirror onto partial
/// columns of the original, negated: summing offsets `[-3, e)` at the
/// mirrored center equals the negated difference of the full column and
/// the partial column `[-3, 1 - e)` at the original center.
proof fn lemma_col_force_mirror(
    lvl: PyramidLevel,
    lk: int,
    gx: int,
    gy: int,
    dx: int,
    e: int,
)
    requires
        lvl.wf(),
        level_symmetric(lvl),
        0 <= gx < lvl.width,
        0 <= gy < lvl.height,
        lk >= 0,
        -3 <= e <= 4,
    ensures
        spec_col_force(lvl, lk, lvl.width - 1 - gx, lvl.height - 1 - gy, -dx, e) == vneg(
            vsub(
                spec_col_force(lvl, lk, gx, gy, dx, 4),
                spec_col_force(lvl, lk, gx, gy, dx, 1 - e),
            ),
        ),
    decreases e + 3,
{
    if e == -3 {
    } else {
        lemma_col_force_mirror(lvl, lk, gx, gy, dx, e - 1);
        lemma_cell_force_mirror(lvl, lk, gx, gy, dx, 1 - e);
        assert(spec_col_force(lvl, lk, gx, gy, dx, 2 - e) == vadd(
            spec_col_force(lvl, lk, gx, gy, dx, 1 - e),
            spec_cell_force(lvl, lk, gx, gy, dx, 1 - e),
        ));
    }
}

/// Partial window rows of the mirrored particle mirror onto partial rows
/// of the original, negated.
proof fn lemma_row_force_mirror(lvl: PyramidLevel, lk: int, gx: int, gy: int, e: int)
    requires
        lvl.wf(),
        level_symmetric(lvl),
        0 <= gx < lvl.width,
        0 <= gy < lvl.height,
        lk >= 0,
        -3 <= e <= 4,
    ensures
        spec_row_force(lvl, lk, lvl.width - 1 - gx, lvl.height - 1 - gy, e) == vneg(
            vsub(
                spec_row_force(lvl, lk, gx, gy, 4),
                spec_row_force(lvl, lk, gx, gy, 1 - e),
            ),
        ),
    decreases e + 3,
{
    if e == -3 {
    } else {
        lemma_row_force_mirror(lvl, lk, gx, gy, e - 1);
        lemma_col_force_mirror(lvl, lk, gx, gy, 1 - e, 4);
        assert(spec_row_force(lvl, lk, gx, gy, 2 - e) == vadd(
            spec_row_force(lvl, lk, gx, gy, 1 - e),
            spec_col_force(lvl, lk, gx, gy, 1 - e, 4),
        ));
    }
}

/// A point-symmetric level with odd dimensions pushes the reflected
/// particle exactly opposite to the original.
proof fn lemma_level_force_mirror(lvl: PyramidLevel, lk: int, px: int, py: int)
    requires
        lvl.wf(),
        level_symmetric(lvl),
        lvl.width % 2 == 1,
        lvl.height % 2 == 1,
        lk >= 0,
    ensures
        spec_level_force(lvl, lk, -px, -py) == vneg(spec_level_force(lvl, lk, px, py)),
{
    let w = lvl.width as int;
    let h = lvl.height as int;
    lemma_cell_coord_mirror(px, w);
    lemma_cell_coord_mirror(py, h);
    lemma_cell_coord_range(px, w);
    lemma_cell_coord_range(py, h);
    let gx = spec_cell_coord(px, w);
    let gy = spec_cell_coord(py, h);
    lemma_row_force_mirror(lvl, lk, gx, gy, 4);
}

/// The force of the first `k` levels on the reflected particle is the
/// exact opposite of their force on the original.
proof fn lemma_force_upto_mirror(f: MassField, px: int, py: int, k: int)
    requires
        f.wf(),
        field_symmetric(f),
        odd_dims(f),
        0 <= k <= f.levels@.len(),
    ensures
        spec_force_upto(f, -px, -py, k) == vneg(spec_force_upto(f, px, py, k)),
    decreases k,
{
    if k > 0 {
        lemma_force_upto_mirror(f, px, py, k - 1);
        lemma_level_force_mirror(f.levels@[k - 1], k - 1, px, py);
    }
}

/// A point-symmetric pyramid with odd dimensions accelerates the
/// reflected particle exactly opposite to the original: the force law is
/// symmetric under point reflection.
pub proof fn lemma_accel_mirror(f: MassField, px: int, py: int)
    requires
        f.wf(),
        field_symmetric(f),
        odd_dims(f),
    ensures
        spec_accel(f, -px, -py) == vneg(spec_accel(f, px, py)),
{
    lemma_force_upto_mirror(f, px, py, f.levels@.len() as int);
}

/// One step of the integrator commutes with point reflection: against a
/// point-symmetric pyramid, stepping the reflected particle gives the
/// reflection of the stepped particle, exactly.
pub proof fn lemma_step_symmetric(f: MassField, p: Particle, dt: int)
    requires
        f.wf(),
        field_symmetric(f),
        odd_dims(f),
        p.wf(),
    ensures
        spec_step_particle(f, p.spec_reflected(), dt) == spec_step_particle(
            f,
            p,
            dt,
        ).spec_reflected(),
{
    let px = p.pos_x as int;
    let py = p.pos_y as int;
    lemma_accel_mirror(f, px, py);
    let a = spec_accel(f, px, py);
    assert(p.spec_reflected().pos_x as int == -px);
    assert(p.spec_reflected().pos_y as int == -py);
    assert((-a.0) * dt == -(a.0 * dt)) by (nonlinear_arith);
    assert((-a.1) * dt == -(a.1 * dt)) by (nonlinear_arith);
    lemma_tdiv_odd(a.0 * dt, SCALE as int);
    lemma_tdiv_odd(a.1 * dt, SCALE as int);
    crate::field::lemma_clamp_odd(
        p.vel_x + spec_tdiv(a.0 * dt, SCALE as int),
        VEL_LIMIT as int,
    );
    crate::field::lemma_clamp_odd(
        p.vel_y + spec_tdiv(a.1 * dt, SCALE as int),
        VEL_LIMIT as int,
    );
    let vx = spec_clamp(p.vel_x + spec_tdiv(a.0 * dt, SCALE as int), VEL_LIMIT as int);
    let vy = spec_clamp(p.vel_y + spec_tdiv(a.1 * dt, SCALE as int), VEL_LIMIT as int);
    assert((-vx) * dt == -(vx * dt)) by (nonlinear_arith);
    assert((-vy) * dt == -(vy * dt)) by (nonlinear_arith);
    lemma_tdiv_odd(vx * dt, SCALE as int);
    lemma_tdiv_odd(vy * dt, SCALE as int);
    crate::field::lemma_clamp_odd(px + spec_tdiv(vx * dt, SCALE as int), POS_LIMIT as int);
    crate::field::lemma_clamp_odd(py + spec_tdiv(vy * dt, SCALE as int), POS_LIMIT as int);
}

/// All levels of a pyramid rasterized from a mirrored pair are
/// point-symmetric, by induction up the ladder.
proof fn lemma_levels_symmetric_upto(f: MassField, a: Particle, k: int)
    requires
        f.wf(),
        odd_dims(f),
        exact_chain(f),
        a.wf(),
        f.levels@[0].cells@ == spec_scatter(
            zero_grid(f.levels@[0].width * f.levels@[0].height),
            f.levels@[0].width as int,
            f.levels@[0].height as int,
            seq![a, a.spec_reflected()],
        ),
        forall|t: int|
            0 < t < f.levels@.len() ==> is_reduction(#[trigger] f.levels@[t], f.levels@[t - 1]),
        0 <= k < f.levels@.len(),
    ensures
        level_symmetric(f.levels@[k]),
    decreases k,
{
    if k == 0 {
        lemma_scatter_pair_symmetric(
            f.levels@[0].width as int,
            f.levels@[0].height as int,
            a,
        );
    } else {
        lemma_levels_symmetric_upto(f, a, k - 1);
        lemma_reduction_symmetric(f.levels@[k], f.levels@[k - 1]);
    }
}

/// A pyramid rasterized from a mirrored pair is point-symmetric
/// throughout.
pub proof fn lemma_rasterized_pair_symmetric(f: MassField, a: Particle)
    requires
        f.wf(),
        odd_dims(f),
        exact_chain(f),
        a.wf(),
        f.levels@[0].cells@ == spec_scatter(
            zero_grid(f.levels@[0].width * f.levels@[0].height),
            f.levels@[0].width as int,
            f.levels@[0].height as int,
            seq![a, a.spec_reflected()],
        ),
        forall|t: int|
            0 < t < f.levels@.len() ==> is_reduction(#[trigger] f.levels@[t], f.levels@[t - 1]),
    ensures
        field_symmetric(f),
{
    assert forall|k: int| 0 <= k < f.levels@.len() implies level_symmetric(
        #[trigger] f.levels@[k],
    ) by {
        lemma_levels_symmetric_upto(f, a, k);
    }
}

/// The ladder built from the standard finest extent (3^7 cells a side)
/// has odd dimensions at every level and tiles exactly: 2187, 729, 243,
/// 81, 27, 9, 3, 1.
pub proof fn lemma_standard_geometry_symmetric(f: MassField)
    requires
        f.wf(),
        f.levels@[0].width == 2187usize,
        f.levels@[0].height == 2187usize,
        f.levels@.len() <= 8,
    ensures
        odd_dims(f),
        exact_chain(f),
{
    let n = f.levels@.len() as int;
    assert forall|k: int| 0 <= k < n implies (#[trigger] f.levels@[k]).width % 2 == 1
        && f.levels@[k].height % 2 == 1 && (k > 0 ==> f.levels@[k - 1].width as int == 3
        * f.levels@[k].width && f.levels@[k - 1].height as int == 3 * f.levels@[k].height) by {
        if k >= 1 {
            assert(f.levels@[1].width == 729usize && f.levels@[1].height == 729usize);
        }
        if k >= 2 {
            assert(f.levels@[2].width == 243usize && f.levels@[2].height == 243usize);
        }
        if k >= 3 {
            assert(f.levels@[3].width == 81usize && f.levels@[3].height == 81usize);
        }
        if k >= 4 {
            assert(f.levels@[4].width == 27usize && f.levels@[4].height == 27usize);
        }
        if k >= 5 {
            assert(f.levels@[5].width == 9usize && f.levels@[5].height == 9usize);
        }
        if k >= 6 {
            assert(f.levels@[6].width == 3usize && f.levels@[6].height == 3usize);
        }
        if k >= 7 {
            assert(f.levels@[7].width == 1usize && f.levels@[7].height == 1usize);
        }
    }
}


/// `f` is exactly the pyramid the standard ladder rasterizes from the
/// snapshot `parts`: eight well-formed levels from the standard finest
/// extent, the finest holding the scatter of the snapshot into a zeroed
/// grid, each coarser one the block reduction of the level below.
/// Together these clauses pin every level's dimensions and every cell.
pub open spec fn is_standard_rasterization(f: MassField, parts: Seq<Particle>) -> bool {
    &&& f.wf()
    &&& f.levels@.len() == 8
    &&& f.levels@[0].width == MASS_FIELD_SIZE as usize
    &&& f.levels@[0].height == MASS_FIELD_SIZE as usize
    &&& f.levels@[0].cells@ == spec_scatter(
        zero_grid(MASS_FIELD_SIZE as int * MASS_FIELD_SIZE as int),
        MASS_FIELD_SIZE as int,
        MASS_FIELD_SIZE as int,
        parts,
    )
    &&& forall|k: int|
        0 < k < f.levels@.len() ==> is_reduction(#[trigger] f.levels@[k], f.levels@[k - 1])
}

/// The pyramid the standard ladder rasterizes from a snapshot. The
/// relation pins every dimension and cell of any witness, so everything
/// the force evaluation reads is independent of the choice.
pub open spec fn standard_field_for(parts: Seq<Particle>) -> MassField {
    choose|f: MassField| is_standard_rasterization(f, parts)
}

/// Two pyramids carry the same data: the same ladder of dimensions and,
/// level for level, the same cells.
pub open spec fn same_contents(f1: MassField, f2: MassField) -> bool {
    &&& f1.levels@.len() == f2.levels@.len()
    &&& forall|k: int|
        0 <= k < f1.levels@.len() ==> (#[trigger] f1.levels@[k]).width == f2.levels@[k].width
            && f1.levels@[k].height == f2.levels@[k].height && f1.levels@[k].cells@
            == f2.levels@[k].cells@
}

/// The side length of the standard ladder's level `k`.
pub open spec fn spec_standard_dim(k: int) -> int {
    if k <= 0 {
        2187
    } else if k == 1 {
        729
    } else if k == 2 {
        243
    } else if k == 3 {
        81
    } else if k == 4 {
        27
    } else if k == 5 {
        9
    } else if k == 6 {
        3
    } else {
        1
    }
}

/// A well-formed ladder from the standard finest extent has the standard
/// dimensions at every rung: the chain of next-coarser sizes leaves no
/// choice.
proof fn lemma_standard_ladder_dims(f: MassField)
    requires
        f.wf(),
        f.levels@[0].width == MASS_FIELD_SIZE as usize,
        f.levels@[0].height == MASS_FIELD_SIZE as usize,
        f.levels@.len() <= 8,
    ensures
        forall|k: int|
            0 <= k < f.levels@.len() ==> (#[trigger] f.levels@[k]).width as int
                == spec_standard_dim(k) && f.levels@[k].height as int == spec_standard_dim(k),
{
    assert forall|k: int| 0 <= k < f.levels@.len() implies (#[trigger] f.levels@[k]).width as int
        == spec_standard_dim(k) && f.levels@[k].height as int == spec_standard_dim(k) by {
        if k >= 1 {
            assert(f.levels@[1].width == 729usize && f.levels@[1].height == 729usize);
        }
        if k >= 2 {
            assert(f.levels@[2].width == 243usize && f.levels@[2].height == 243usize);
        }
        if k >= 3 {
            assert(f.levels@[3].width == 81usize && f.levels@[3].height == 81usize);
        }
        if k >= 4 {
            assert(f.levels@[4].width == 27usize && f.levels@[4].height == 27usize);
        }
        if k >= 5 {
            assert(f.levels@[5].width == 9usize && f.levels@[5].height == 9usize);
        }
        if k >= 6 {
            assert(f.levels@[6].width == 3usize && f.levels@[6].height == 3usize);
        }
        if k >= 7 {
            assert(f.levels@[7].width == 1usize && f.levels@[7].height == 1usize);
        }
    }
}

/// Induction up the ladder: the standard-rasterization relation pins the
/// cells of every level.
proof fn lemma_standard_cells_pinned(f1: MassField, f2: MassField, parts: Seq<Particle>, k: int)
    requires
        is_standard_rasterization(f1, parts),
        is_standard_rasterization(f2, parts),
        0 <= k < 8,
    ensures
        f1.levels@[k].cells@ == f2.levels@[k].cells@,
    decreases k,
{
    lemma_standard_ladder_dims(f1);
    lemma_standard_ladder_dims(f2);
    if k > 0 {
        lemma_standard_cells_pinned(f1, f2, parts, k - 1);
        let c1 = f1.levels@[k];
        let c2 = f2.levels@[k];
        assert(c1.width == c2.width && c1.height == c2.height);
        assert(c1.cells@.len() == c1.width * c1.height);
        assert(c2.cells@.len() == c2.width * c2.height);
        assert forall|j: int| 0 <= j < c1.cells@.len() implies c1.cells@[j] == c2.cells@[j] by {
            assert(c1.cells@[j] as int == spec_reduced_cell(
                f1.levels@[k - 1].cells@,
                f1.levels@[k - 1].width as int,
                c1.width as int,
                c1.height as int,
                MIP_LEVEL_DOWNSAMPLING as int,
                j,
            ));
            assert(c2.cells@[j] as int == spec_reduced_cell(
                f2.levels@[k - 1].cells@,
                f2.levels@[k - 1].width as int,
                c2.width as int,
                c2.height as int,
                MIP_LEVEL_DOWNSAMPLING as int,
                j,
            ));
        }
        assert(c1.cells@ =~= c2.cells@);
    }
}

/// Any two witnesses of the standard-rasterization relation agree on
/// everything the force evaluation reads.
proof fn lemma_standard_rasterization_pins(f1: MassField, f2: MassField, parts: Seq<Particle>)
    requires
        is_standard_rasterization(f1, parts),
        is_standard_rasterization(f2, parts),
    ensures
        same_contents(f1, f2),
{
    lemma_standard_ladder_dims(f1);
    lemma_standard_ladder_dims(f2);
    assert forall|k: int| 0 <= k < f1.levels@.len() implies (#[trigger] f1.levels@[k]).width
        == f2.levels@[k].width && f1.levels@[k].height == f2.levels@[k].height
        && f1.levels@[k].cells@ == f2.levels@[k].cells@ by {
        lemma_standard_cells_pinned(f1, f2, parts, k);
    }
}

/// The kernel reads a level only through its dimensions and cells.
proof fn lemma_cell_force_congruent(
    l1: PyramidLevel,
    l2: PyramidLevel,
    lk: int,
    gx: int,
    gy: int,
    dx: int,
    dy: int,
)
    requires
        l1.width == l2.width,
        l1.height == l2.height,
        l1.cells@ == l2.cells@,
    ensures
        spec_cell_force(l1, lk, gx, gy, dx, dy) == spec_cell_force(l2, lk, gx, gy, dx, dy),
{
}

/// Column sums read a level only through its dimensions and cells.
proof fn lemma_col_force_congruent(
    l1: PyramidLevel,
    l2: PyramidLevel,
    lk: int,
    gx: int,
    gy: int,
    dx: int,
    dy_end: int,
)
    requires
        l1.width == l2.width,
        l1.height == l2.height,
        l1.cells@ == l2.cells@,
    ensures
        spec_col_force(l1, lk, gx, gy, dx, dy_end) == spec_col_force(l2, lk, gx, gy, dx, dy_end),
    decreases dy_end + 3,
{
    if dy_end > -3 {
        lemma_col_force_congruent(l1, l2, lk, gx, gy, dx, dy_end - 1);
        lemma_cell_force_congruent(l1, l2, lk, gx, gy, dx, dy_end - 1);
    }
}

/// Row sums read a level only through its dimensions and cells.
proof fn lemma_row_force_congruent(
    l1: PyramidLevel,
    l2: PyramidLevel,
    lk: int,
    gx: int,
    gy: int,
    dx_end: int,
)
    requires
        l1.width == l2.width,
        l1.height == l2.height,
        l1.cells@ == l2.cells@,
    ensures
        spec_row_force(l1, lk, gx, gy, dx_end) == spec_row_force(l2, lk, gx, gy, dx_end),
    decreases dx_end + 3,
{
    if dx_end > -3 {
        lemma_row_force_congruent(l1, l2, lk, gx, gy, dx_end - 1);
        lemma_col_force_congruent(l1, l2, lk, gx, gy, dx_end - 1, 4);
    }
}

/// A level's force on a particle reads only its dimensions and cells.
proof fn lemma_level_force_congruent(l1: PyramidLevel, l2: PyramidLevel, lk: int, px: int, py: int)
    requires
        l1.width == l2.width,
        l1.height == l2.height,
        l1.cells@ == l2.cells@,
    ensures
        spec_level_force(l1, lk, px, py) == spec_level_force(l2, lk, px, py),
{
    lemma_row_force_congruent(
        l1,
        l2,
        lk,
        spec_cell_coord(px, l1.width as int),
        spec_cell_coord(py, l1.height as int),
        4,
    );
}

/// The accumulated force reads the pyramid only through its data.
proof fn lemma_force_upto_congruent(f1: MassField, f2: MassField, px: int, py: int, k: int)
    requires
        same_contents(f1, f2),
        0 <= k <= f1.levels@.len(),
    ensures
        spec_force_upto(f1, px, py, k) == spec_force_upto(f2, px, py, k),
    decreases k,
{
    if k > 0 {
        lemma_force_upto_congruent(f1, f2, px, py, k - 1);
        lemma_level_force_congruent(f1.levels@[k - 1], f2.levels@[k - 1], k - 1, px, py);
    }
}

/// Stepping a particle depends on the pyramid only through its data: two
/// pyramids with the same dimensions and cells step every particle
/// identically.
proof fn lemma_step_particle_congruent(f1: MassField, f2: MassField, p: Particle, dt: int)
    requires
        same_contents(f1, f2),
    ensures
        spec_step_particle(f1, p, dt) == spec_step_particle(f2, p, dt),
{
    lemma_force_upto_congruent(
        f1,
        f2,
        p.pos_x as int,
        p.pos_y as int,
        f1.levels@.len() as int,
    );
}

/// The mirrored pair's leading particle after `n` frames of the
/// simulated scenario: each frame rasterizes the pair into the standard
/// pyramid and steps the particle against it; its partner is the point
/// reflection throughout, by the symmetry law.
pub open spec fn spec_pair_after(a0: Particle, dt: int, n: nat) -> Particle
    decreases n,
{
    if n == 0 {
        a0
    } else {
        let a = spec_pair_after(a0, dt, (n - 1) as nat);
        spec_step_particle(standard_field_for(seq![a, a.spec_reflected()]), a, dt)
    }
}

/// Two particles of equal (unit) mass placed symmetrically about the
/// origin, with mirrored velocities, remain symmetric about the origin
/// after any number of frames with any admissible time step: each frame
/// rasterizes the pair into the pyramid and steps both particles against
/// it, and the pair stays an exact mirror pair throughout.
pub fn simulate_pair(a0: Particle, dt: i64, frames: u32) -> (pair: (Particle, Particle))
    requires
        a0.wf(),
        0 <= dt <= DT_LIMIT,
    ensures
        pair.0 == spec_pair_after(a0, dt as int, frames as nat),
        pair.1 == pair.0.spec_reflected(),
        pair.0.wf(),
        pair.1.wf(),
{
    proof {
        lemma_standard_geometry_depth();
    }
    let mut field = MassField::new(MASS_FIELD_SIZE);
    let mut a = a0;
    let mut b = a0.reflected();
    let mut n: u32 = 0;
    while n < frames
        invariant
            field.wf(),
            field.levels@[0].width == 2187usize,
            field.levels@[0].height == 2187usize,
            field.levels@.len() == 8,
            a.wf(),
            b.wf(),
            b == a.spec_reflected(),
            a == spec_pair_after(a0, dt as int, n as nat),
            0 <= dt <= DT_LIMIT,
            n <= frames,
        decreases frames - n,
    {
        let mut parts: Vec<Particle> = Vec::new();
        parts.push(a);
        parts.push(b);
        proof {
            assert(parts@ =~= seq![a, a.spec_reflected()]);
        }
        field.rasterize(&parts);
        proof {
            lemma_standard_geometry_symmetric(field);
            lemma_rasterized_pair_symmetric(field, a);
            assert forall|k: int| 0 <= k < field.levels@.len() implies (
            #[trigger] field.levels@[k]).mass() <= crate::params::MASS_LIMIT by {
                assert(field.levels@[k].mass() == parts@.len());
            }
            lemma_step_symmetric(field, a, dt as int);
            // Tie this frame to the spec-level trajectory: the pyramid just
            // rasterized is a witness of the standard-rasterization
            // relation, and every witness steps the pair identically.
            assert(is_standard_rasterization(field, parts@));
            assert(exists|f: MassField| is_standard_rasterization(f, parts@));
            let w = standard_field_for(parts@);
            assert(is_standard_rasterization(w, parts@));
            lemma_standard_rasterization_pins(w, field, parts@);
            lemma_step_particle_congruent(w, field, a, dt as int);
            assert(spec_pair_after(a0, dt as int, (n + 1) as nat) == spec_step_particle(
                field,
                a,
                dt as int,
            ));
        }
        let a2 = step_particle(&field, &a, dt);
        let b2 = step_particle(&field, &b, dt);
        a = a2;
        b = b2;
        n = n + 1;
    }
    (a, b)
}

} // verus!
