//! The presentable surface's size-dependent resources, and the rebuild
//! protocol that replaces them when the surface goes stale.
//!
//! Resources are modelled as records tagged with the surface generation
//! that created them. A rebuild destroys every record of the old
//! generation before creating the new set, so no handle of a previous
//! generation can survive, and what it creates depends only on the
//! surface parameters — never on what was there before.

use vstd::prelude::*;

verus! {

/// What the presentation collaborator reports about the surface: its
/// pixel extent and how many presentable images it hands out.
#[derive(Clone, Copy, PartialEq, Eq, Structural, Debug)]
pub struct SurfaceParams {
    pub width: u32,
    pub height: u32,
    pub image_count: usize,
}

/// One surface-sized resource record (framebuffer, view, descriptor set
/// of one presentable image), tagged with the generation that created it.
#[derive(Clone, Copy, PartialEq, Eq, Structural, Debug)]
pub struct SurfaceRecord {
    pub generation: u64,
}

/// The generation-independent shape of a resource set: extent and
/// presentable image count.
pub open spec fn rebuilt_structure(params: SurfaceParams) -> (u32, u32, int) {
    (params.width, params.height, params.image_count as int)
}

/// Owns the surface-sized resources of the renderer and rebuilds them
/// against new surface parameters.
pub struct SurfaceLifecycle {
    pub generation: u64,
    pub extent_width: u32,
    pub extent_height: u32,
    pub framebuffers: Vec<SurfaceRecord>,
}

/// What one rebuild leaves behind: a bumped generation, a structure fully
/// determined by the surface parameters alone, and no record of any
/// earlier generation.
pub open spec fn rebuild_relation(
    pre: SurfaceLifecycle,
    post: SurfaceLifecycle,
    params: SurfaceParams,
) -> bool {
    &&& post.generation == pre.generation + 1
    &&& post.structure() == rebuilt_structure(params)
    &&& post.no_stale_handles()
}

impl SurfaceLifecycle {
    /// Every live record belongs to the current generation: nothing from
    /// a previous surface build leaked.
    pub open spec fn no_stale_handles(self) -> bool {
        forall|i: int|
            0 <= i < self.framebuffers@.len() ==> (#[trigger] self.framebuffers@[i]).generation
                == self.generation
    }

    /// The generation-independent shape of this resource set.
    pub open spec fn structure(self) -> (u32, u32, int) {
        (self.extent_width, self.extent_height, self.framebuffers@.len() as int)
    }

    /// The initial resource set, built at startup for the first surface.
    pub fn new(params: &SurfaceParams) -> (s: SurfaceLifecycle)
        ensures
            s.no_stale_handles(),
            s.structure() == rebuilt_structure(*params),
            s.generation == 0,
    {
        let framebuffers = make_records(0, params.image_count);
        SurfaceLifecycle {
            generation: 0,
            extent_width: params.width,
            extent_height: params.height,
            framebuffers,
        }
    }

    /// Rebuild against new surface parameters: destroy the old
    /// generation's records, then create the new set sized to the new
    /// image count and extent. What comes out depends only on the
    /// parameters, and no prior-generation handle survives.
    pub fn rebuild(&mut self, params: &SurfaceParams)
        requires
            old(self).generation < u64::MAX,
        ensures
            rebuild_relation(*old(self), *final(self), *params),
            final(self).generation == old(self).generation + 1,
            final(self).extent_width == params.width,
            final(self).extent_height == params.height,
            final(self).framebuffers@.len() == params.image_count,
            final(self).no_stale_handles(),
    {
        // Destruction precedes recreation within the one call: the old
        // records are dropped before any new one exists.
        self.framebuffers = Vec::new();
        let gen = self.generation + 1;
        self.generation = gen;
        self.extent_width = params.width;
        self.extent_height = params.height;
        self.framebuffers = make_records(gen, params.image_count);
    }
}

/// `count` fresh records of generation `gen`.
fn make_records(gen: u64, count: usize) -> (v: Vec<SurfaceRecord>)
    ensures
        v@.len() == count,
        forall|i: int| 0 <= i < count ==> (#[trigger] v@[i]).generation == gen,
{
    let mut v: Vec<SurfaceRecord> = Vec::new();
    let mut i: usize = 0;
    while i < count
        invariant
            i <= count,
            v@.len() == i,
            forall|t: int| 0 <= t < i ==> (#[trigger] v@[t]).generation == gen,
        decreases count - i,
    {
        v.push(SurfaceRecord { generation: gen });
        i = i + 1;
    }
    v
}

/// Rebuilding twice in a row with the same surface parameters and no
/// intervening frame yields a resource set structurally identical to
/// rebuilding once — same extent, same image count — and, both times, no
/// handle of any earlier generation survives.
pub proof fn lemma_rebuild_idempotent(
    s0: SurfaceLifecycle,
    s1: SurfaceLifecycle,
    s2: SurfaceLifecycle,
    params: SurfaceParams,
)
    requires
        rebuild_relation(s0, s1, params),
        rebuild_relation(s1, s2, params),
    ensures
        s2.structure() == s1.structure(),
        s1.no_stale_handles(),
        s2.no_stale_handles(),
{
}

} // verus!
