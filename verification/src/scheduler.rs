//! Frame scheduling: slot rotation, image ownership, and the semaphore
//! protocol that orders the clear, mass, gravity and render submissions of
//! one frame across the two device queues.
//!
//! The scheduler never touches device handles. It decides, as plain data,
//! what the frame loop must submit and what each submission waits on and
//! signals; the surrounding program carries the decisions out.

use vstd::prelude::*;

use crate::params::MAX_FRAMES_IN_FLIGHT;

verus! {

/// Bootstrap state machine: the first frame's mass pass must not wait for a
/// gravity pass, because none has ever been submitted.
#[derive(Clone, Copy, PartialEq, Eq, Structural, Debug)]
pub enum Phase {
    Bootstrapping,
    Steady,
}

/// One synchronization handle per stage boundary and frame slot.
#[derive(Clone, Copy, PartialEq, Eq, Structural, Debug)]
pub enum SemaphoreId {
    /// The presentation engine released the acquired image of this slot.
    ImageAvailable(usize),
    /// The pyramid of this slot has been cleared.
    ClearFinished(usize),
    /// Mass accumulation into this slot's pyramid is complete.
    MassFinished(usize),
    /// The gravity pass wrote this slot's particle buffer.
    GravityFinished(usize),
    /// The gravity pass is done reading the previous snapshot; the slot it
    /// read from may be overwritten.
    GravityReadFinished(usize),
    /// Rendering into this slot's image is complete.
    RenderFinished(usize),
}

/// The pipeline stage a submission runs.
#[derive(Clone, Copy, PartialEq, Eq, Structural, Debug)]
pub enum Stage {
    Clear,
    Mass,
    Gravity,
    Render,
}

/// One queue submission of a frame: its stage, the semaphores it waits on,
/// the semaphores it signals, and whether it signals the slot's in-flight
/// fence.
pub struct Submission {
    pub stage: Stage,
    pub waits: Vec<SemaphoreId>,
    pub signals: Vec<SemaphoreId>,
    pub signals_in_flight_fence: bool,
}

/// Everything one frame submits, in submission order, plus the semaphore
/// presentation waits on.
pub struct FramePlan {
    pub submissions: Vec<Submission>,
    pub present_wait: SemaphoreId,
}

/// What the frame loop should do with an image-acquire outcome.
#[derive(Clone, Copy, PartialEq, Eq, Structural, Debug)]
pub enum AcquireDirective {
    /// Run the frame against this presentable image.
    Proceed(usize),
    /// The surface is stale: rebuild it and skip this frame entirely.
    Rebuild,
    /// Unrecoverable device failure: stop the run.
    Abort,
}

/// Outcome reported by the presentation engine when acquiring an image.
#[derive(Clone, Copy, PartialEq, Eq, Structural, Debug)]
pub enum AcquireOutcome {
    Available(usize),
    Suboptimal(usize),
    Stale,
    DeviceError,
}

/// Outcome reported by the presentation engine after presenting.
#[derive(Clone, Copy, PartialEq, Eq, Structural, Debug)]
pub enum PresentOutcome {
    Presented,
    Suboptimal,
    Stale,
    DeviceError,
}

/// What the frame loop should do after presenting.
#[derive(Clone, Copy, PartialEq, Eq, Structural, Debug)]
pub enum PresentDirective {
    /// Go on to the next frame.
    Continue,
    /// Rebuild the surface resources, then re-record the gravity command
    /// buffers so they bind the rebuilt resources.
    RebuildAndReissue,
    /// Unrecoverable device failure: stop the run.
    Abort,
}

/// A sequence holding exactly the one given element.
pub open spec fn is_seq1(s: Seq<SemaphoreId>, a: SemaphoreId) -> bool {
    s.len() == 1 && s[0] == a
}

/// A sequence holding exactly the two given elements, in order.
pub open spec fn is_seq2(s: Seq<SemaphoreId>, a: SemaphoreId, b: SemaphoreId) -> bool {
    s.len() == 2 && s[0] == a && s[1] == b
}

/// The slot whose buffer the gravity pass of `slot` reads as the previous
/// snapshot, and whose mass pass must therefore wait for that read.
pub open spec fn spec_other_slot(slot: int) -> int {
    (slot + 1) % (MAX_FRAMES_IN_FLIGHT as int)
}

/// The exact semaphore protocol of one frame on slot `slot` in phase
/// `phase`: four submissions in order (clear, mass, gravity, render), with
/// the waits and signals of the frame-pipeline design.
pub open spec fn matches_protocol(plan: FramePlan, slot: int, phase: Phase) -> bool {
    let subs = plan.submissions@;
    &&& subs.len() == 4
    &&& subs[0].stage == Stage::Clear
    &&& is_seq1(subs[0].waits@, SemaphoreId::ImageAvailable(slot as usize))
    &&& is_seq1(subs[0].signals@, SemaphoreId::ClearFinished(slot as usize))
    &&& !subs[0].signals_in_flight_fence
    &&& subs[1].stage == Stage::Mass
    &&& (if phase is Bootstrapping {
        is_seq1(subs[1].waits@, SemaphoreId::ClearFinished(slot as usize))
    } else {
        is_seq2(
            subs[1].waits@,
            SemaphoreId::ClearFinished(slot as usize),
            SemaphoreId::GravityReadFinished(spec_other_slot(slot) as usize),
        )
    })
    &&& is_seq1(subs[1].signals@, SemaphoreId::MassFinished(slot as usize))
    &&& !subs[1].signals_in_flight_fence
    &&& subs[2].stage == Stage::Gravity
    &&& is_seq1(subs[2].waits@, SemaphoreId::MassFinished(slot as usize))
    &&& is_seq2(
        subs[2].signals@,
        SemaphoreId::GravityFinished(slot as usize),
        SemaphoreId::GravityReadFinished(slot as usize),
    )
    &&& !subs[2].signals_in_flight_fence
    &&& subs[3].stage == Stage::Render
    &&& is_seq1(subs[3].waits@, SemaphoreId::GravityFinished(slot as usize))
    &&& is_seq1(subs[3].signals@, SemaphoreId::RenderFinished(slot as usize))
    &&& subs[3].signals_in_flight_fence
    &&& plan.present_wait == SemaphoreId::RenderFinished(slot as usize)
}

/// Slot owned by frame number `f`.
pub open spec fn slot_of_frame(f: int) -> int {
    f % (MAX_FRAMES_IN_FLIGHT as int)
}

/// Orchestrates the per-frame ordering of the pipeline stages.
///
/// `image_owner[i]` remembers which frame slot last rendered into
/// presentable image `i`, so a frame reusing that image first waits for the
/// owning slot's in-flight fence.
pub struct FrameScheduler {
    pub slot: usize,
    pub frames: u64,
    pub phase: Phase,
    pub image_owner: Vec<Option<usize>>,
}

impl FrameScheduler {
    /// Slot rotation and bootstrap bookkeeping are in step.
    pub open spec fn wf(self) -> bool {
        &&& self.slot < MAX_FRAMES_IN_FLIGHT
        &&& self.slot as int == slot_of_frame(self.frames as int)
        &&& (self.phase is Bootstrapping <==> self.frames == 0)
        &&& forall|i: int|
            0 <= i < self.image_owner@.len() ==> (#[trigger] self.image_owner@[i] matches Some(s)
                ==> s < MAX_FRAMES_IN_FLIGHT)
    }

    /// A fresh scheduler for a surface with `image_count` presentable
    /// images: slot 0, frame 0, bootstrapping, no image owned by any slot.
    pub fn new(image_count: usize) -> (s: FrameScheduler)
        ensures
            s.wf(),
            s.slot == 0,
            s.frames == 0,
            s.phase is Bootstrapping,
            s.image_owner@.len() == image_count,
            forall|i: int| 0 <= i < image_count ==> s.image_owner@[i] is None,
    {
        let mut image_owner: Vec<Option<usize>> = Vec::new();
        let mut i: usize = 0;
        while i < image_count
            invariant
                i <= image_count,
                image_owner@.len() == i,
                forall|j: int| 0 <= j < i ==> image_owner@[j] is None,
            decreases image_count - i,
        {
            image_owner.push(None);
            i = i + 1;
        }
        FrameScheduler { slot: 0, frames: 0, phase: Phase::Bootstrapping, image_owner }
    }

    /// The submissions of the current frame, with the exact wait/signal
    /// protocol. While bootstrapping, no submission waits on a
    /// gravity-read signal, since none has ever been submitted.
    pub fn plan_frame(&self) -> (plan: FramePlan)
        requires
            self.wf(),
        ensures
            matches_protocol(plan, self.slot as int, self.phase),
    {
        let slot = self.slot;
        let other = other_slot(slot);

        let mut clear_waits: Vec<SemaphoreId> = Vec::new();
        clear_waits.push(SemaphoreId::ImageAvailable(slot));
        let mut clear_signals: Vec<SemaphoreId> = Vec::new();
        clear_signals.push(SemaphoreId::ClearFinished(slot));

        let mut mass_waits: Vec<SemaphoreId> = Vec::new();
        mass_waits.push(SemaphoreId::ClearFinished(slot));
        if !matches!(self.phase, Phase::Bootstrapping) {
            mass_waits.push(SemaphoreId::GravityReadFinished(other));
        }
        let mut mass_signals: Vec<SemaphoreId> = Vec::new();
        mass_signals.push(SemaphoreId::MassFinished(slot));

        let mut gravity_waits: Vec<SemaphoreId> = Vec::new();
        gravity_waits.push(SemaphoreId::MassFinished(slot));
        let mut gravity_signals: Vec<SemaphoreId> = Vec::new();
        gravity_signals.push(SemaphoreId::GravityFinished(slot));
        gravity_signals.push(SemaphoreId::GravityReadFinished(slot));

        let mut render_waits: Vec<SemaphoreId> = Vec::new();
        render_waits.push(SemaphoreId::GravityFinished(slot));
        let mut render_signals: Vec<SemaphoreId> = Vec::new();
        render_signals.push(SemaphoreId::RenderFinished(slot));

        let mut submissions: Vec<Submission> = Vec::new();
        submissions.push(
            Submission {
                stage: Stage::Clear,
                waits: clear_waits,
                signals: clear_signals,
                signals_in_flight_fence: false,
            },
        );
        submissions.push(
            Submission {
                stage: Stage::Mass,
                waits: mass_waits,
                signals: mass_signals,
                signals_in_flight_fence: false,
            },
        );
        submissions.push(
            Submission {
                stage: Stage::Gravity,
                waits: gravity_waits,
                signals: gravity_signals,
                signals_in_flight_fence: false,
            },
        );
        submissions.push(
            Submission {
                stage: Stage::Render,
                waits: render_waits,
                signals: render_signals,
                signals_in_flight_fence: true,
            },
        );

        FramePlan { submissions, present_wait: SemaphoreId::RenderFinished(slot) }
    }

    /// Record that the current frame renders into presentable image
    /// `image_index`. Returns the slot whose in-flight fence must complete
    /// first, if another in-flight frame still owns the image.
    pub fn claim_image(&mut self, image_index: usize) -> (wait_for: Option<usize>)
        requires
            old(self).wf(),
            image_index < old(self).image_owner@.len(),
        ensures
            final(self).wf(),
            wait_for == old(self).image_owner@[image_index as int],
            final(self).image_owner@ == old(self).image_owner@.update(
                image_index as int,
                Some(old(self).slot),
            ),
            final(self).slot == old(self).slot,
            final(self).frames == old(self).frames,
            final(self).phase == old(self).phase,
            wait_for matches Some(s) ==> s < MAX_FRAMES_IN_FLIGHT,
    {
        let wait_for = self.image_owner[image_index];
        let slot = self.slot;
        self.image_owner.set(image_index, Some(slot));
        wait_for
    }

    /// Complete the current frame: move to the next slot and leave the
    /// bootstrap phase, since a gravity pass has now been submitted.
    pub fn advance_frame(&mut self)
        requires
            old(self).wf(),
            old(self).frames < u64::MAX,
        ensures
            final(self).wf(),
            final(self).frames == old(self).frames + 1,
            final(self).slot as int == slot_of_frame(final(self).frames as int),
            final(self).phase is Steady,
            final(self).image_owner@ == old(self).image_owner@,
    {
        proof {
            vstd::arithmetic::div_mod::lemma_mod_add_multiples_vanish(
                old(self).frames as int + 1 - MAX_FRAMES_IN_FLIGHT as int,
                MAX_FRAMES_IN_FLIGHT as int,
            );
        }
        self.frames = self.frames + 1;
        self.slot = if self.slot + 1 == MAX_FRAMES_IN_FLIGHT {
            0
        } else {
            self.slot + 1
        };
        self.phase = Phase::Steady;
    }

    /// Forget image ownership and size the table for `image_count`
    /// presentable images; invoked after a surface rebuild so no frame
    /// waits on a fence of the previous surface generation.
    pub fn reset_image_table(&mut self, image_count: usize)
        requires
            old(self).wf(),
        ensures
            final(self).wf(),
            final(self).image_owner@.len() == image_count,
            forall|i: int| 0 <= i < image_count ==> final(self).image_owner@[i] is None,
            final(self).slot == old(self).slot,
            final(self).frames == old(self).frames,
            final(self).phase == old(self).phase,
    {
        let mut image_owner: Vec<Option<usize>> = Vec::new();
        let mut i: usize = 0;
        while i < image_count
            invariant
                i <= image_count,
                image_owner@.len() == i,
                forall|j: int| 0 <= j < i ==> image_owner@[j] is None,
            decreases image_count - i,
        {
            image_owner.push(None);
            i = i + 1;
        }
        self.image_owner = image_owner;
    }
}

/// Number of compute workgroups that cover `n` items at 256 invocations
/// per group: the least count whose groups reach every item, so a
/// dispatch sized by it touches each particle exactly where the verified
/// model says.
pub fn dispatch_group_count(n: usize) -> (g: u32)
    requires
        n <= crate::params::MASS_LIMIT as usize,
    ensures
        g as int == (n as int + 255) / 256,
        256 * (g as int) >= n as int,
        n > 0 ==> 256 * (g as int - 1) < n as int,
        n == 0 ==> g == 0,
{
    proof {
        vstd::arithmetic::div_mod::lemma_fundamental_div_mod(n as int + 255, 256);
        vstd::arithmetic::div_mod::lemma_mod_bound(n as int + 255, 256);
        vstd::arithmetic::div_mod::lemma_div_is_ordered(
            n as int + 255,
            crate::params::MASS_LIMIT as int + 255,
            256,
        );
    }
    ((n + 255) / 256) as u32
}

/// The slot other than `slot` in the two-slot rotation.
pub fn other_slot(slot: usize) -> (o: usize)
    requires
        slot < MAX_FRAMES_IN_FLIGHT,
    ensures
        o as int == spec_other_slot(slot as int),
        o < MAX_FRAMES_IN_FLIGHT,
{
    if slot + 1 == MAX_FRAMES_IN_FLIGHT {
        0
    } else {
        slot + 1
    }
}

/// Maps an acquire outcome to what the frame loop does: proceed on success
/// (suboptimal counts as success at acquire time), rebuild on a stale
/// surface, abort on any other failure.
pub fn direct_acquire(outcome: AcquireOutcome) -> (d: AcquireDirective)
    ensures
        outcome matches AcquireOutcome::Available(i) ==> d == AcquireDirective::Proceed(i),
        outcome matches AcquireOutcome::Suboptimal(i) ==> d == AcquireDirective::Proceed(i),
        outcome is Stale ==> d == AcquireDirective::Rebuild,
        outcome is DeviceError ==> d == AcquireDirective::Abort,
{
    match outcome {
        AcquireOutcome::Available(i) => AcquireDirective::Proceed(i),
        AcquireOutcome::Suboptimal(i) => AcquireDirective::Proceed(i),
        AcquireOutcome::Stale => AcquireDirective::Rebuild,
        AcquireOutcome::DeviceError => AcquireDirective::Abort,
    }
}

/// Maps a present outcome to what the frame loop does: a stale or
/// suboptimal surface, or a pending window resize, triggers a rebuild; any
/// other failure aborts; otherwise the loop continues.
pub fn direct_present(outcome: PresentOutcome, resized: bool) -> (d: PresentDirective)
    ensures
        outcome is Stale || outcome is Suboptimal ==> d == PresentDirective::RebuildAndReissue,
        outcome is DeviceError ==> d == PresentDirective::Abort,
        outcome is Presented && resized ==> d == PresentDirective::RebuildAndReissue,
        outcome is Presented && !resized ==> d == PresentDirective::Continue,
{
    match outcome {
        PresentOutcome::Stale => PresentDirective::RebuildAndReissue,
        PresentOutcome::Suboptimal => PresentDirective::RebuildAndReissue,
        PresentOutcome::DeviceError => PresentDirective::Abort,
        PresentOutcome::Presented => {
            if resized {
                PresentDirective::RebuildAndReissue
            } else {
                PresentDirective::Continue
            }
        },
    }
}

/// Frames `f` and `f + d` run on different slots for `0 < d <` the number
/// of frame slots: within any window of consecutive frames no slot
/// repeats.
pub proof fn lemma_slot_rotation_distinct(f: int, d: int)
    requires
        f >= 0,
        0 < d < MAX_FRAMES_IN_FLIGHT,
    ensures
        slot_of_frame(f) != slot_of_frame(f + d),
{
    let m = MAX_FRAMES_IN_FLIGHT as int;
    vstd::arithmetic::div_mod::lemma_fundamental_div_mod(f, m);
    vstd::arithmetic::div_mod::lemma_mod_bound(f, m);
    if slot_of_frame(f) == slot_of_frame(f + d) {
        vstd::arithmetic::div_mod::lemma_mod_add_multiples_vanish(f % m + d, m);
        assert((f + d) % m == (f % m + d) % m);
        vstd::arithmetic::div_mod::lemma_mod_bound(f % m + d, m);
        vstd::arithmetic::div_mod::lemma_mod_sub_multiples_vanish(f % m + d, m);
        assert((f % m + d) % m == (f % m + d) - m) by {
            vstd::arithmetic::div_mod::lemma_small_mod((f % m + d - m) as nat, m as nat);
        }
    }
}

/// Every slot is visited within any window of consecutive frames as long
/// as the window: after that many frames each slot has run exactly once.
pub proof fn lemma_slot_rotation_covers(f: int, s: int)
    requires
        f >= 0,
        0 <= s < MAX_FRAMES_IN_FLIGHT,
    ensures
        exists|i: int|
            0 <= i < MAX_FRAMES_IN_FLIGHT && #[trigger] slot_of_frame(f + i) == s,
{
    let m = MAX_FRAMES_IN_FLIGHT as int;
    vstd::arithmetic::div_mod::lemma_mod_bound(f, m);
    let r = f % m;
    let i = if s >= r {
        s - r
    } else {
        s - r + m
    };
    assert(0 <= i < m);
    vstd::arithmetic::div_mod::lemma_mod_add_multiples_vanish(r + i, m);
    assert((f + i) % m == (r + i) % m);
    if s >= r {
        vstd::arithmetic::div_mod::lemma_small_mod(s as nat, m as nat);
    } else {
        vstd::arithmetic::div_mod::lemma_mod_sub_multiples_vanish(r + i, m);
        vstd::arithmetic::div_mod::lemma_small_mod(s as nat, m as nat);
    }
    assert(slot_of_frame(f + i) == s);
}

/// While bootstrapping, nothing in the frame's plan waits on a
/// gravity-read signal: a scheduler that waited there would deadlock,
/// since no gravity pass has ever signalled one.
pub proof fn lemma_bootstrap_never_waits_gravity_read(plan: FramePlan, slot: int)
    requires
        matches_protocol(plan, slot, Phase::Bootstrapping),
    ensures
        forall|i: int, j: int|
            0 <= i < plan.submissions@.len() && 0 <= j < plan.submissions@[i].waits@.len()
                ==> !(plan.submissions@[i].waits@[j] is GravityReadFinished),
{
    assert forall|i: int, j: int|
        0 <= i < plan.submissions@.len() && 0 <= j
            < plan.submissions@[i].waits@.len() implies !(plan.submissions@[i].waits@[j]
        is GravityReadFinished) by {
        if i == 0 {
            assert(plan.submissions@[i].waits@[j] == SemaphoreId::ImageAvailable(slot as usize));
        } else if i == 1 {
            assert(plan.submissions@[i].waits@[j] == SemaphoreId::ClearFinished(slot as usize));
        } else if i == 2 {
            assert(plan.submissions@[i].waits@[j] == SemaphoreId::MassFinished(slot as usize));
        } else {
            assert(plan.submissions@[i].waits@[j] == SemaphoreId::GravityFinished(slot as usize));
        }
    }
}

/// A plan can run to completion from a set of already-signalled
/// semaphores: every wait of every submission is either already signalled
/// or signalled by an earlier submission of the same plan.
pub open spec fn executes_from(plan: FramePlan, ready: Set<SemaphoreId>) -> bool {
    forall|i: int, j: int|
        0 <= i < plan.submissions@.len() && 0 <= j < plan.submissions@[i].waits@.len()
            ==> ready.contains(#[trigger] plan.submissions@[i].waits@[j]) || exists|k: int|
            0 <= k < i && plan.submissions@[k].signals@.contains(plan.submissions@[i].waits@[j])
}

/// The bootstrap frame never blocks: with only the image-available signal
/// pending from the presentation engine, every submission's waits are met
/// in submission order, so the first frame completes without waiting on a
/// signal that was never sent.
pub proof fn lemma_bootstrap_frame_executes(plan: FramePlan, slot: int)
    requires
        matches_protocol(plan, slot, Phase::Bootstrapping),
    ensures
        executes_from(plan, Set::empty().insert(SemaphoreId::ImageAvailable(slot as usize))),
{
    let ready = Set::<SemaphoreId>::empty().insert(SemaphoreId::ImageAvailable(slot as usize));
    assert forall|i: int, j: int|
        0 <= i < plan.submissions@.len() && 0 <= j
            < plan.submissions@[i].waits@.len() implies ready.contains(
        #[trigger] plan.submissions@[i].waits@[j]) || exists|k: int|
        0 <= k < i && plan.submissions@[k].signals@.contains(plan.submissions@[i].waits@[j]) by {
        let w = plan.submissions@[i].waits@[j];
        if i == 0 {
            assert(ready.contains(w));
        } else if i == 1 {
            assert(plan.submissions@[0].signals@[0] == w);
            assert(plan.submissions@[0].signals@.contains(w));
        } else if i == 2 {
            assert(plan.submissions@[1].signals@[0] == w);
            assert(plan.submissions@[1].signals@.contains(w));
        } else {
            assert(plan.submissions@[2].signals@[0] == w);
            assert(plan.submissions@[2].signals@.contains(w));
        }
    }
}

/// In the steady phase the frame needs exactly one extra signal beyond the
/// acquired image: the gravity-read signal of the other slot's last
/// gravity pass, which releases the snapshot this frame's mass pass
/// overwrites.
pub proof fn lemma_steady_frame_executes(plan: FramePlan, slot: int)
    requires
        matches_protocol(plan, slot, Phase::Steady),
        0 <= slot < MAX_FRAMES_IN_FLIGHT,
    ensures
        executes_from(
            plan,
            Set::empty().insert(SemaphoreId::ImageAvailable(slot as usize)).insert(
                SemaphoreId::GravityReadFinished(spec_other_slot(slot) as usize),
            ),
        ),
{
    let ready = Set::<SemaphoreId>::empty().insert(
        SemaphoreId::ImageAvailable(slot as usize),
    ).insert(SemaphoreId::GravityReadFinished(spec_other_slot(slot) as usize));
    assert forall|i: int, j: int|
        0 <= i < plan.submissions@.len() && 0 <= j
            < plan.submissions@[i].waits@.len() implies ready.contains(
        #[trigger] plan.submissions@[i].waits@[j]) || exists|k: int|
        0 <= k < i && plan.submissions@[k].signals@.contains(plan.submissions@[i].waits@[j]) by {
        let w = plan.submissions@[i].waits@[j];
        if i == 0 {
            assert(ready.contains(w));
        } else if i == 1 {
            if j == 0 {
                assert(plan.submissions@[0].signals@[0] == w);
                assert(plan.submissions@[0].signals@.contains(w));
            } else {
                assert(ready.contains(w));
            }
        } else if i == 2 {
            assert(plan.submissions@[1].signals@[0] == w);
            assert(plan.submissions@[1].signals@.contains(w));
        } else {
            assert(plan.submissions@[2].signals@[0] == w);
            assert(plan.submissions@[2].signals@.contains(w));
        }
    }
}

} // verus!
