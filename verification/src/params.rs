//! Tunable constants of the simulation core.
//!
//! Positions, velocities and time deltas are fixed-point numbers: `SCALE`
//! units stand for one world unit, and the visible region spans one world
//! unit from the origin in each direction.

use vstd::prelude::*;

verus! {

/// Number of frame slots rotating in flight.
pub const MAX_FRAMES_IN_FLIGHT: usize = 2;

/// Each pyramid level is this factor coarser than the one below it,
/// in each dimension.
pub const MIP_LEVEL_DOWNSAMPLING: u32 = 3;

/// Side length, in cells, of the finest mass-field level (3^7).
pub const MASS_FIELD_SIZE: u32 = 2187;

/// Hard cap on pyramid depth; the device binds this many storage images.
pub const MAX_MIP_LEVELS: u32 = 12;

/// Chebyshev radius, in cells, of the window a particle samples at each
/// pyramid level when accumulating force.
pub const SHADER_FORCE_REGION_RADIUS: u32 = 3;

/// Pyramid construction stops once both dimensions of a level are at most
/// this many cells, derived from the near-field radius of the force kernel.
pub const MIN_REGION: u32 = SHADER_FORCE_REGION_RADIUS / 2 + 1;

/// Fixed-point scale: this many counts per world unit (2^16).
pub const SCALE: i64 = 65536;

/// Positions are clamped to this magnitude; particles may drift somewhat
/// outside the visible region before saturating.
pub const POS_LIMIT: i64 = 4 * SCALE;

/// Velocities saturate at one world unit per second.
pub const VEL_LIMIT: i64 = SCALE;

/// Longest admissible frame delta: one second, in fixed-point counts.
pub const DT_LIMIT: i64 = SCALE;

/// Numerator constant of the force kernel.
pub const GRAVITY_NUM: i64 = 16;

/// Upper bound on how many particles a simulation may hold (2^20); keeps
/// every intermediate of the force accumulation inside `i64`.
pub const MASS_LIMIT: u64 = 1048576;

} // verus!
