//! The body state the simulation advances: fixed-point positions and
//! velocities, and point reflection through the origin.

use vstd::prelude::*;

use crate::params::POS_LIMIT;
use crate::params::VEL_LIMIT;

verus! {

/// One point mass: position and velocity on a 2-D plane, in fixed-point
/// counts (`params::SCALE` counts per world unit). Every particle carries
/// the same unit mass.
#[derive(Clone, Copy, PartialEq, Eq, Structural, Debug)]
pub struct Particle {
    pub pos_x: i64,
    pub pos_y: i64,
    pub vel_x: i64,
    pub vel_y: i64,
}

impl Particle {
    /// Position and velocity are within the saturation limits the
    /// integrator maintains.
    pub open spec fn wf(self) -> bool {
        &&& -POS_LIMIT <= self.pos_x <= POS_LIMIT
        &&& -POS_LIMIT <= self.pos_y <= POS_LIMIT
        &&& -VEL_LIMIT <= self.vel_x <= VEL_LIMIT
        &&& -VEL_LIMIT <= self.vel_y <= VEL_LIMIT
    }

    /// The point reflection of this particle through the origin: position
    /// and velocity both negated.
    pub open spec fn spec_reflected(self) -> Particle {
        Particle {
            pos_x: (-self.pos_x) as i64,
            pos_y: (-self.pos_y) as i64,
            vel_x: (-self.vel_x) as i64,
            vel_y: (-self.vel_y) as i64,
        }
    }

    pub fn new(pos_x: i64, pos_y: i64, vel_x: i64, vel_y: i64) -> (p: Particle)
        ensures
            p == (Particle { pos_x, pos_y, vel_x, vel_y }),
    {
        Particle { pos_x, pos_y, vel_x, vel_y }
    }

    /// The point reflection of this particle through the origin.
    pub fn reflected(&self) -> (q: Particle)
        requires
            self.wf(),
        ensures
            q == self.spec_reflected(),
            q.wf(),
    {
        Particle {
            pos_x: -self.pos_x,
            pos_y: -self.pos_y,
            vel_x: -self.vel_x,
            vel_y: -self.vel_y,
        }
    }
}

} // verus!
