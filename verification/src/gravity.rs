//! The gravity evaluation stage, as a host-side reference model: for each
//! particle of the previous snapshot, gather force contributions from a
//! bounded window of cells at every pyramid level — the finest level
//! supplies the near field, coarser levels approximate ever farther mass —
//! then integrate velocity and position for one time step.
//!
//! Work per particle is bounded by the window size times the level cap,
//! independent of how many particles there are. The kernel is odd in the
//! cell offset, which is what makes the force law symmetric under point
//! reflection.

use vstd::prelude::*;

use crate::field::cell_coord;
use crate::field::clamp_mag;
use crate::field::lemma_sum_cells_elem;
use crate::field::spec_cell_coord;
use crate::field::spec_clamp;
use crate::field::spec_tdiv;
use crate::field::tdiv;
use crate::field::MassField;
use crate::field::PyramidLevel;
use crate::params::DT_LIMIT;
use crate::params::GRAVITY_NUM;
use crate::params::MASS_LIMIT;
use crate::params::MAX_MIP_LEVELS;
use crate::params::POS_LIMIT;
use crate::params::SCALE;
use crate::params::VEL_LIMIT;
use crate::particle::Particle;

verus! {

/// Largest magnitude one cell can contribute to one force component:
/// full mass in the cell (the particle cap), the largest offset, and the
/// kernel numerator.
pub const CELL_FORCE_LIMIT: i64 = 50331648;

/// Largest magnitude of a whole force component: every cell of the
/// 7-by-7 window, at every one of the at most 12 levels, at full
/// contribution.
pub const ACCEL_LIMIT: i64 = 29595009024;

/// Componentwise sum of two force vectors.
pub open spec fn vadd(a: (int, int), b: (int, int)) -> (int, int) {
    (a.0 + b.0, a.1 + b.1)
}

/// Componentwise negation of a force vector.
pub open spec fn vneg(a: (int, int)) -> (int, int) {
    (-a.0, -a.1)
}

/// No level's total mass exceeds the particle cap, so every cell value
/// fits the force arithmetic.
pub open spec fn mass_bounded(f: MassField) -> bool {
    forall|k: int| 0 <= k < f.levels@.len() ==> (#[trigger] f.levels@[k]).mass() <= MASS_LIMIT
}

/// The force the cell at offset `(dx, dy)` from a particle's cell exerts
/// on the particle, at level `lk`: proportional to the cell's mass and
/// the offset, fading with squared offset and with level depth. Cells
/// outside the grid contribute nothing; at coarser levels the immediate
/// neighborhood is skipped, since the finer level below already resolved
/// it.
pub open spec fn spec_cell_force(
    lvl: PyramidLevel,
    lk: int,
    gx: int,
    gy: int,
    dx: int,
    dy: int,
) -> (int, int) {
    let cx = gx + dx;
    let cy = gy + dy;
    if cx < 0 || cx >= lvl.width || cy < 0 || cy >= lvl.height {
        (0, 0)
    } else if lk > 0 && -1 <= dx <= 1 && -1 <= dy <= 1 {
        (0, 0)
    } else {
        let m = lvl.cells@[cy * lvl.width + cx] as int;
        let denom = (dx * dx + dy * dy + 1) * (lk + 1);
        (
            spec_tdiv(m * dx * GRAVITY_NUM as int, denom),
            spec_tdiv(m * dy * GRAVITY_NUM as int, denom),
        )
    }
}

/// Force gathered from the cells of one window column: offsets
/// `(dx, dy')` for `dy'` in `[-3, dy_end)`.
pub open spec fn spec_col_force(
    lvl: PyramidLevel,
    lk: int,
    gx: int,
    gy: int,
    dx: int,
    dy_end: int,
) -> (int, int)
    decreases dy_end + 3,
{
    if dy_end <= -3 {
        (0, 0)
    } else {
        vadd(
            spec_col_force(lvl, lk, gx, gy, dx, dy_end - 1),
            spec_cell_force(lvl, lk, gx, gy, dx, dy_end - 1),
        )
    }
}

/// Force gathered from the window columns at offsets `dx'` in
/// `[-3, dx_end)`, each column complete.
pub open spec fn spec_row_force(
    lvl: PyramidLevel,
    lk: int,
    gx: int,
    gy: int,
    dx_end: int,
) -> (int, int)
    decreases dx_end + 3,
{
    if dx_end <= -3 {
        (0, 0)
    } else {
        vadd(
            spec_row_force(lvl, lk, gx, gy, dx_end - 1),
            spec_col_force(lvl, lk, gx, gy, dx_end - 1, 4),
        )
    }
}

/// Force one level exerts on a particle at fixed-point position
/// `(px, py)`: the full window around the particle's cell at that level.
pub open spec fn spec_level_force(lvl: PyramidLevel, lk: int, px: int, py: int) -> (int, int) {
    spec_row_force(
        lvl,
        lk,
        spec_cell_coord(px, lvl.width as int),
        spec_cell_coord(py, lvl.height as int),
        4,
    )
}

/// Force accumulated from levels `0 .. k`.
pub open spec fn spec_force_upto(f: MassField, px: int, py: int, k: int) -> (int, int)
    decreases k,
{
    if k <= 0 {
        (0, 0)
    } else {
        vadd(spec_force_upto(f, px, py, k - 1), spec_level_force(f.levels@[k - 1], k - 1, px, py))
    }
}

/// The acceleration the whole pyramid imparts on a particle at
/// `(px, py)`: every level's window, near field from the finest level,
/// far field from the coarser ones.
pub open spec fn spec_accel(f: MassField, px: int, py: int) -> (int, int) {
    spec_force_upto(f, px, py, f.levels@.len() as int)
}

/// The force one window cell contributes, computed.
fn cell_force(lvl: &PyramidLevel, lk: usize, gx: usize, gy: usize, dx: i64, dy: i64) -> (cf: (
    i64,
    i64,
))
    requires
        lvl.wf(),
        lvl.mass() <= MASS_LIMIT,
        gx < lvl.width,
        gy < lvl.height,
        -3 <= dx <= 3,
        -3 <= dy <= 3,
        lk < MAX_MIP_LEVELS as usize,
    ensures
        (cf.0 as int, cf.1 as int) == spec_cell_force(
            *lvl,
            lk as int,
            gx as int,
            gy as int,
            dx as int,
            dy as int,
        ),
        -CELL_FORCE_LIMIT <= cf.0 <= CELL_FORCE_LIMIT,
        -CELL_FORCE_LIMIT <= cf.1 <= CELL_FORCE_LIMIT,
{
    let cx = gx as i64 + dx;
    let cy = gy as i64 + dy;
    if cx < 0 || cx >= lvl.width as i64 || cy < 0 || cy >= lvl.height as i64 {
        (0, 0)
    } else if lk > 0 && -1 <= dx && dx <= 1 && -1 <= dy && dy <= 1 {
        (0, 0)
    } else {
        proof {
            assert((cy as int) * (lvl.width as int) + (cx as int) < (lvl.width as int) * (
            lvl.height as int) && 0 <= (cy as int) * (lvl.width as int) + (cx as int) && (
            lvl.width as int) * (lvl.height as int) <= 2187 * 2187) by (nonlinear_arith)
                requires
                    0 <= cy as int <= lvl.height as int - 1,
                    0 <= cx as int <= lvl.width as int - 1,
                    1 <= lvl.width as int <= 2187,
                    1 <= lvl.height as int <= 2187,
            ;
        }
        let idx = (cy as usize) * lvl.width + (cx as usize);
        proof {
            lemma_sum_cells_elem(lvl.cells@, idx as int);
        }
        let m = lvl.cells[idx] as i64;
        proof {
            assert(0 <= m * dx * GRAVITY_NUM <= CELL_FORCE_LIMIT || 0 >= m * dx * GRAVITY_NUM
                >= -CELL_FORCE_LIMIT) by (nonlinear_arith)
                requires
                    0 <= m <= 1048576,
                    -3 <= dx <= 3,
                    GRAVITY_NUM == 16,
                    CELL_FORCE_LIMIT == 50331648,
            ;
            assert(0 <= m * dy * GRAVITY_NUM <= CELL_FORCE_LIMIT || 0 >= m * dy * GRAVITY_NUM
                >= -CELL_FORCE_LIMIT) by (nonlinear_arith)
                requires
                    0 <= m <= 1048576,
                    -3 <= dy <= 3,
                    GRAVITY_NUM == 16,
                    CELL_FORCE_LIMIT == 50331648,
            ;
            assert(0 <= dx * dx <= 9 && 0 <= dy * dy <= 9) by (nonlinear_arith)
                requires
                    -3 <= dx <= 3,
                    -3 <= dy <= 3,
            ;
            assert(1 <= (dx * dx + dy * dy + 1) * (lk as int + 1) <= 19 * 12) by (nonlinear_arith)
                requires
                    -3 <= dx <= 3,
                    -3 <= dy <= 3,
                    0 <= lk as int <= 11,
            ;
        }
        let denom = (dx * dx + dy * dy + 1) * (lk as i64 + 1);
        let fx = tdiv(m * dx * GRAVITY_NUM, denom);
        let fy = tdiv(m * dy * GRAVITY_NUM, denom);
        (fx, fy)
    }
}

/// The force one level exerts on a particle, computed over the window.
fn level_force(lvl: &PyramidLevel, lk: usize, px: i64, py: i64) -> (lf: (i64, i64))
    requires
        lvl.wf(),
        lvl.mass() <= MASS_LIMIT,
        lk < MAX_MIP_LEVELS as usize,
    ensures
        (lf.0 as int, lf.1 as int) == spec_level_force(*lvl, lk as int, px as int, py as int),
        -49 * CELL_FORCE_LIMIT <= lf.0 <= 49 * CELL_FORCE_LIMIT,
        -49 * CELL_FORCE_LIMIT <= lf.1 <= 49 * CELL_FORCE_LIMIT,
{
    let gx = cell_coord(px, lvl.width);
    let gy = cell_coord(py, lvl.height);
    let mut rx: i64 = 0;
    let mut ry: i64 = 0;
    let mut dx: i64 = -3;
    while dx <= 3
        invariant
            lvl.wf(),
            lvl.mass() <= MASS_LIMIT,
            lk < MAX_MIP_LEVELS as usize,
            gx < lvl.width,
            gy < lvl.height,
            gx as int == spec_cell_coord(px as int, lvl.width as int),
            gy as int == spec_cell_coord(py as int, lvl.height as int),
            -3 <= dx <= 4,
            (rx as int, ry as int) == spec_row_force(
                *lvl,
                lk as int,
                gx as int,
                gy as int,
                dx as int,
            ),
            -(dx + 3) * 352321536 <= rx <= (dx + 3) * 352321536,
            -(dx + 3) * 352321536 <= ry <= (dx + 3) * 352321536,
        decreases 4 - dx,
    {
        let mut cx: i64 = 0;
        let mut cy: i64 = 0;
        let mut dy: i64 = -3;
        while dy <= 3
            invariant
                lvl.wf(),
                lvl.mass() <= MASS_LIMIT,
                lk < MAX_MIP_LEVELS as usize,
                gx < lvl.width,
                gy < lvl.height,
                -3 <= dx <= 3,
                -3 <= dy <= 4,
                (cx as int, cy as int) == spec_col_force(
                    *lvl,
                    lk as int,
                    gx as int,
                    gy as int,
                    dx as int,
                    dy as int,
                ),
                -(dy + 3) * 50331648 <= cx <= (dy + 3) * 50331648,
                -(dy + 3) * 50331648 <= cy <= (dy + 3) * 50331648,
            decreases 4 - dy,
        {
            let cf = cell_force(lvl, lk, gx, gy, dx, dy);
            cx = cx + cf.0;
            cy = cy + cf.1;
            dy = dy + 1;
        }
        rx = rx + cx;
        ry = ry + cy;
        dx = dx + 1;
    }
    (rx, ry)
}

/// The acceleration the pyramid imparts on a particle at `(px, py)`,
/// computed level by level.
pub fn accel(f: &MassField, px: i64, py: i64) -> (a: (i64, i64))
    requires
        f.wf(),
        mass_bounded(*f),
        f.levels@.len() <= MAX_MIP_LEVELS as usize,
    ensures
        (a.0 as int, a.1 as int) == spec_accel(*f, px as int, py as int),
        -ACCEL_LIMIT <= a.0 <= ACCEL_LIMIT,
        -ACCEL_LIMIT <= a.1 <= ACCEL_LIMIT,
{
    let mut ax: i64 = 0;
    let mut ay: i64 = 0;
    let n = f.levels.len();
    let mut k: usize = 0;
    while k < n
        invariant
            f.wf(),
            mass_bounded(*f),
            n == f.levels@.len(),
            n <= MAX_MIP_LEVELS as usize,
            k <= n,
            (ax as int, ay as int) == spec_force_upto(*f, px as int, py as int, k as int),
            -(k as int) * 2466250752 <= ax as int <= (k as int) * 2466250752,
            -(k as int) * 2466250752 <= ay as int <= (k as int) * 2466250752,
        decreases n - k,
    {
        let lf = level_force(&f.levels[k], k, px, py);
        proof {
            assert(CELL_FORCE_LIMIT == 50331648);
        }
        ax = ax + lf.0;
        ay = ay + lf.1;
        k = k + 1;
    }
    proof {
        assert(ACCEL_LIMIT == 29595009024);
    }
    (ax, ay)
}

/// One particle advanced by one time step `dt` against the pyramid:
/// velocity gains the acceleration integrated over `dt`, position gains
/// the new velocity integrated over `dt`, both saturating at their
/// limits. A zero time step leaves the particle exactly as it was.
pub open spec fn spec_step_particle(f: MassField, p: Particle, dt: int) -> Particle {
    let a = spec_accel(f, p.pos_x as int, p.pos_y as int);
    let vx = spec_clamp(p.vel_x + spec_tdiv(a.0 * dt, SCALE as int), VEL_LIMIT as int);
    let vy = spec_clamp(p.vel_y + spec_tdiv(a.1 * dt, SCALE as int), VEL_LIMIT as int);
    let px = spec_clamp(p.pos_x + spec_tdiv(vx * dt, SCALE as int), POS_LIMIT as int);
    let py = spec_clamp(p.pos_y + spec_tdiv(vy * dt, SCALE as int), POS_LIMIT as int);
    Particle { pos_x: px as i64, pos_y: py as i64, vel_x: vx as i64, vel_y: vy as i64 }
}

/// Advance one particle by one time step.
pub fn step_particle(f: &MassField, p: &Particle, dt: i64) -> (q: Particle)
    requires
        f.wf(),
        mass_bounded(*f),
        f.levels@.len() <= MAX_MIP_LEVELS as usize,
        p.wf(),
        0 <= dt <= DT_LIMIT,
    ensures
        q == spec_step_particle(*f, *p, dt as int),
        q.wf(),
        dt == 0 ==> q == *p,
{
    let a = accel(f, p.pos_x, p.pos_y);
    proof {
        assert(ACCEL_LIMIT == 29595009024);
        assert(DT_LIMIT == 65536);
        assert(VEL_LIMIT == 65536);
        assert(-1939538511396864 <= (a.0 as int) * (dt as int) <= 1939538511396864)
            by (nonlinear_arith)
            requires
                -29595009024 <= a.0 as int <= 29595009024,
                0 <= dt as int <= 65536,
        ;
        assert(-1939538511396864 <= (a.1 as int) * (dt as int) <= 1939538511396864)
            by (nonlinear_arith)
            requires
                -29595009024 <= a.1 as int <= 29595009024,
                0 <= dt as int <= 65536,
        ;
    }
    let vx = clamp_mag(p.vel_x + tdiv(a.0 * dt, SCALE), VEL_LIMIT);
    let vy = clamp_mag(p.vel_y + tdiv(a.1 * dt, SCALE), VEL_LIMIT);
    proof {
        assert(-4294967296 <= (vx as int) * (dt as int) <= 4294967296) by (nonlinear_arith)
            requires
                -65536 <= vx as int <= 65536,
                0 <= dt as int <= 65536,
        ;
        assert(-4294967296 <= (vy as int) * (dt as int) <= 4294967296) by (nonlinear_arith)
            requires
                -65536 <= vy as int <= 65536,
                0 <= dt as int <= 65536,
        ;
    }
    let px = clamp_mag(p.pos_x + tdiv(vx * dt, SCALE), POS_LIMIT);
    let py = clamp_mag(p.pos_y + tdiv(vy * dt, SCALE), POS_LIMIT);
    proof {
        if dt == 0 {
            assert((a.0 as int) * (dt as int) == 0 && (a.1 as int) * (dt as int) == 0 && (
            vx as int) * (dt as int) == 0 && (vy as int) * (dt as int) == 0)
                by (nonlinear_arith)
                requires
                    dt as int == 0,
            ;
        }
    }
    Particle { pos_x: px, pos_y: py, vel_x: vx, vel_y: vy }
}

/// Advance a whole snapshot by one time step: the new snapshot holds,
/// particle for particle, the stepped state of the old one, and a zero
/// time step returns the snapshot unchanged.
pub fn step_all(f: &MassField, prev: &Vec<Particle>, dt: i64) -> (out: Vec<Particle>)
    requires
        f.wf(),
        mass_bounded(*f),
        f.levels@.len() <= MAX_MIP_LEVELS as usize,
        forall|i: int| 0 <= i < prev@.len() ==> (#[trigger] prev@[i]).wf(),
        0 <= dt <= DT_LIMIT,
    ensures
        out@.len() == prev@.len(),
        forall|i: int|
            0 <= i < prev@.len() ==> #[trigger] out@[i] == spec_step_particle(*f, prev@[i], dt as int),
        forall|i: int| 0 <= i < out@.len() ==> (#[trigger] out@[i]).wf(),
        dt == 0 ==> out@ == prev@,
{
    let n = prev.len();
    let mut out: Vec<Particle> = Vec::new();
    let mut i: usize = 0;
    while i < n
        invariant
            f.wf(),
            mass_bounded(*f),
            f.levels@.len() <= MAX_MIP_LEVELS as usize,
            forall|t: int| 0 <= t < prev@.len() ==> (#[trigger] prev@[t]).wf(),
            0 <= dt <= DT_LIMIT,
            n == prev@.len(),
            i <= n,
            out@.len() == i,
            forall|t: int|
                0 <= t < i ==> #[trigger] out@[t] == spec_step_particle(*f, prev@[t], dt as int),
            forall|t: int| 0 <= t < i ==> (#[trigger] out@[t]).wf(),
            dt == 0 ==> forall|t: int| 0 <= t < i ==> #[trigger] out@[t] == prev@[t],
        decreases n - i,
    {
        let q = step_particle(f, &prev[i], dt);
        out.push(q);
        i = i + 1;
    }
    proof {
        if dt == 0 {
            assert(out@ =~= prev@);
        }
    }
    out
}

} // verus!
