//! The simulation as a whole: per-slot particle snapshots, per-slot
//! mass-field pyramids, the frame scheduler and the surface lifecycle,
//! wired together the way one frame flows — rasterize the previous
//! snapshot into the current slot's pyramid, evaluate gravity against it,
//! write the current slot's snapshot.

use vstd::prelude::*;

use crate::field::is_reduction;
use crate::field::same_geometry;
use crate::field::spec_scatter;
use crate::field::zero_grid;
use crate::field::MassField;
use crate::gravity::mass_bounded;
use crate::gravity::spec_step_particle;
use crate::gravity::step_all;
use crate::lifecycle::rebuild_relation;
use crate::lifecycle::SurfaceLifecycle;
use crate::lifecycle::SurfaceParams;
use crate::params::DT_LIMIT;
use crate::params::MASS_FIELD_SIZE;
use crate::params::MASS_LIMIT;
use crate::params::MAX_FRAMES_IN_FLIGHT;
use crate::params::MAX_MIP_LEVELS;
use crate::params::MIN_REGION;
use crate::params::MIP_LEVEL_DOWNSAMPLING;
use crate::particle::Particle;
use crate::pyramid::lemma_level_count_mono_extent;
use crate::pyramid::lemma_standard_geometry_depth;
use crate::scheduler::other_slot;
use crate::scheduler::FrameScheduler;

verus! {

/// All host-side state of the simulation.
///
/// Slot `f`'s snapshot is written by the gravity pass of frame `f` and
/// read back as the previous state by the next frame on the other slot;
/// each slot's pyramid reflects that slot's input snapshot, so the two
/// slots never share mutable state within a frame.
pub struct Simulation {
    pub scheduler: FrameScheduler,
    pub lifecycle: SurfaceLifecycle,
    pub fields: Vec<MassField>,
    pub snapshots: Vec<Vec<Particle>>,
}

impl Simulation {
    /// One pyramid and one snapshot per frame slot; the pyramids are
    /// well-formed, within the level cap and the mass cap, and all slots
    /// share one geometry — the level count is identical across slots;
    /// the snapshots hold equally many well-formed particles, within the
    /// particle cap.
    pub open spec fn wf(self) -> bool {
        &&& self.scheduler.wf()
        &&& self.fields@.len() == MAX_FRAMES_IN_FLIGHT
        &&& self.snapshots@.len() == MAX_FRAMES_IN_FLIGHT
        &&& forall|k: int|
            0 <= k < MAX_FRAMES_IN_FLIGHT ==> (#[trigger] self.fields@[k]).wf() && mass_bounded(
                self.fields@[k],
            ) && self.fields@[k].levels@.len() <= MAX_MIP_LEVELS as usize
        &&& forall|k: int|
            0 <= k < MAX_FRAMES_IN_FLIGHT ==> same_geometry(
                #[trigger] self.fields@[k],
                self.fields@[0],
            )
        &&& forall|k: int|
            0 <= k < MAX_FRAMES_IN_FLIGHT ==> (#[trigger] self.snapshots@[k]).len()
                == self.snapshots@[0].len()
        &&& self.snapshots@[0].len() <= MASS_LIMIT
        &&& forall|k: int, i: int|
            0 <= k < MAX_FRAMES_IN_FLIGHT && 0 <= i < self.snapshots@[k].len()
                ==> (#[trigger] self.snapshots@[k][i]).wf()
    }

    /// A fresh simulation: both slots start from the initial particle
    /// distribution handed in by the generator collaborator, with zeroed
    /// pyramids, a bootstrapping scheduler, and the initial surface
    /// resources.
    pub fn new(initial: Vec<Particle>, extent: u32, params: &SurfaceParams) -> (s: Simulation)
        requires
            initial@.len() <= MASS_LIMIT,
            forall|i: int| 0 <= i < initial@.len() ==> (#[trigger] initial@[i]).wf(),
            1 <= extent <= MASS_FIELD_SIZE,
        ensures
            s.wf(),
            s.scheduler.phase is Bootstrapping,
            s.scheduler.slot == 0,
            s.scheduler.frames == 0,
            forall|k: int|
                0 <= k < MAX_FRAMES_IN_FLIGHT ==> (#[trigger] s.snapshots@[k])@ == initial@,
            forall|k: int|
                0 <= k < MAX_FRAMES_IN_FLIGHT ==> (#[trigger] s.fields@[k]).levels@[0].width
                    == extent as usize && s.fields@[k].levels@[0].height == extent as usize,
            forall|k: int| 0 <= k < MAX_FRAMES_IN_FLIGHT ==> (#[trigger] s.fields@[k]).is_cleared(),
    {
        proof {
            lemma_level_count_mono_extent(
                extent as int,
                MASS_FIELD_SIZE as int,
                MIP_LEVEL_DOWNSAMPLING as int,
                MIN_REGION as int,
            );
            lemma_standard_geometry_depth();
        }
        let field0 = MassField::new(extent);
        let field1 = MassField::new(extent);
        let snapshot0 = initial.clone();
        let snapshot1 = initial;
        proof {
            assert(snapshot0@ =~= snapshot1@);
        }
        let mut fields: Vec<MassField> = Vec::new();
        fields.push(field0);
        fields.push(field1);
        let mut snapshots: Vec<Vec<Particle>> = Vec::new();
        snapshots.push(snapshot0);
        snapshots.push(snapshot1);
        let scheduler = FrameScheduler::new(params.image_count);
        let lifecycle = SurfaceLifecycle::new(params);
        Simulation { scheduler, lifecycle, fields, snapshots }
    }

    /// The compute stages of one frame on the scheduler's current slot:
    /// rasterize the previous slot's snapshot into this slot's pyramid
    /// (clear, scatter, downsample), then integrate every particle of
    /// that snapshot against the fresh pyramid into this slot's snapshot.
    ///
    /// Only the current slot's pyramid and snapshot change — the previous
    /// slot's state, still owned by the in-flight frame, is read but
    /// never written. With a zero time step the new snapshot equals the
    /// previous one: no spurious motion.
    pub fn run_frame(&mut self, dt: i64)
        requires
            old(self).wf(),
            0 <= dt <= DT_LIMIT,
        ensures
            final(self).wf(),
            final(self).scheduler == old(self).scheduler,
            final(self).lifecycle == old(self).lifecycle,
            forall|k: int|
                0 <= k < MAX_FRAMES_IN_FLIGHT && k != old(self).scheduler.slot
                    ==> #[trigger] final(self).fields@[k] == old(self).fields@[k]
                    && final(self).snapshots@[k] == old(self).snapshots@[k],
            final(self).snapshots@[old(self).scheduler.slot as int]@.len() == old(
                self,
            ).snapshots@[0].len(),
            forall|i: int|
                0 <= i < old(self).snapshots@[0].len()
                    ==> #[trigger] final(self).snapshots@[old(self).scheduler.slot as int]@[i]
                    == spec_step_particle(
                    final(self).fields@[old(self).scheduler.slot as int],
                    old(self).snapshots@[crate::scheduler::spec_other_slot(
                        old(self).scheduler.slot as int,
                    )]@[i],
                    dt as int,
                ),
            dt == 0 ==> final(self).snapshots@[old(self).scheduler.slot as int]@ == old(
                self,
            ).snapshots@[crate::scheduler::spec_other_slot(old(self).scheduler.slot as int)]@,
            ({
                let slot = old(self).scheduler.slot as int;
                let prev = crate::scheduler::spec_other_slot(slot);
                let pyramid = final(self).fields@[slot];
                &&& same_geometry(pyramid, old(self).fields@[slot])
                &&& pyramid.levels@[0].cells@ == spec_scatter(
                    zero_grid(
                        old(self).fields@[slot].levels@[0].width * old(
                            self,
                        ).fields@[slot].levels@[0].height,
                    ),
                    old(self).fields@[slot].levels@[0].width as int,
                    old(self).fields@[slot].levels@[0].height as int,
                    old(self).snapshots@[prev]@,
                )
                &&& forall|k: int|
                    0 < k < pyramid.levels@.len() ==> is_reduction(
                        #[trigger] pyramid.levels@[k],
                        pyramid.levels@[k - 1],
                    )
                &&& forall|k: int|
                    0 <= k < pyramid.levels@.len() ==> (#[trigger] pyramid.levels@[k]).mass()
                        == old(self).snapshots@[prev]@.len()
            }),
    {
        let slot = self.scheduler.slot;
        let prev = other_slot(slot);
        self.fields[slot].rasterize(&self.snapshots[prev]);
        let stepped = step_all(&self.fields[slot], &self.snapshots[prev], dt);
        self.snapshots[slot] = stepped;
    }

    /// The stale-surface path: rebuild the surface-sized resources
    /// against the new parameters and forget image ownership, so no frame
    /// waits on a fence of the old surface. The per-slot pyramids and
    /// particle snapshots are independent of surface size and survive
    /// untouched.
    pub fn handle_stale_surface(&mut self, params: &SurfaceParams)
        requires
            old(self).wf(),
            old(self).lifecycle.generation < u64::MAX,
        ensures
            final(self).wf(),
            rebuild_relation(old(self).lifecycle, final(self).lifecycle, *params),
            final(self).scheduler.image_owner@.len() == params.image_count,
            forall|i: int|
                0 <= i < params.image_count ==> final(self).scheduler.image_owner@[i] is None,
            final(self).scheduler.slot == old(self).scheduler.slot,
            final(self).scheduler.frames == old(self).scheduler.frames,
            final(self).scheduler.phase == old(self).scheduler.phase,
            final(self).fields == old(self).fields,
            final(self).snapshots == old(self).snapshots,
    {
        self.lifecycle.rebuild(params);
        self.scheduler.reset_image_table(params.image_count);
    }
}

} // verus!
