use gravity_sim::params::MASS_LIMIT;
use gravity_sim::params::MAX_FRAMES_IN_FLIGHT;
use gravity_sim::scheduler::dispatch_group_count;
use gravity_sim::scheduler::AcquireDirective;
use gravity_sim::scheduler::AcquireOutcome;
use gravity_sim::scheduler::direct_acquire;
use gravity_sim::scheduler::direct_present;
use gravity_sim::scheduler::FrameScheduler;
use gravity_sim::scheduler::Phase;
use gravity_sim::scheduler::PresentDirective;
use gravity_sim::scheduler::PresentOutcome;
use gravity_sim::scheduler::SemaphoreId;
use gravity_sim::scheduler::Stage;

#[test]
fn slot_follows_frame_count() {
    let mut s = FrameScheduler::new(3);
    assert_eq!(s.slot, 0);
    assert_eq!(s.frames, 0);
    for expected_frame in 1u64..=5 {
        s.advance_frame();
        assert_eq!(s.frames, expected_frame);
        assert_eq!(s.slot as u64, expected_frame % MAX_FRAMES_IN_FLIGHT as u64);
    }
}

#[test]
fn two_consecutive_frames_visit_each_slot_once() {
    let mut s = FrameScheduler::new(2);
    let mut visited = vec![0u32; MAX_FRAMES_IN_FLIGHT];
    for _ in 0..MAX_FRAMES_IN_FLIGHT {
        visited[s.slot] += 1;
        s.advance_frame();
    }
    for count in visited {
        assert_eq!(count, 1);
    }
}

#[test]
fn bootstrap_plan_never_waits_on_gravity_read() {
    let s = FrameScheduler::new(2);
    assert!(matches!(s.phase, Phase::Bootstrapping));
    let plan = s.plan_frame();
    assert_eq!(plan.submissions.len(), 4);
    for sub in &plan.submissions {
        for wait in &sub.waits {
            assert!(!matches!(wait, SemaphoreId::GravityReadFinished(_)));
        }
    }
}

#[test]
fn bootstrap_plan_orders_the_stages() {
    let s = FrameScheduler::new(2);
    let plan = s.plan_frame();
    assert!(matches!(plan.submissions[0].stage, Stage::Clear));
    assert!(matches!(plan.submissions[1].stage, Stage::Mass));
    assert!(matches!(plan.submissions[2].stage, Stage::Gravity));
    assert!(matches!(plan.submissions[3].stage, Stage::Render));
    assert_eq!(plan.submissions[0].waits, vec![SemaphoreId::ImageAvailable(0)]);
    assert_eq!(plan.submissions[0].signals, vec![SemaphoreId::ClearFinished(0)]);
    assert_eq!(plan.submissions[1].waits, vec![SemaphoreId::ClearFinished(0)]);
    assert_eq!(plan.submissions[1].signals, vec![SemaphoreId::MassFinished(0)]);
    assert_eq!(plan.submissions[2].waits, vec![SemaphoreId::MassFinished(0)]);
    assert_eq!(
        plan.submissions[2].signals,
        vec![SemaphoreId::GravityFinished(0), SemaphoreId::GravityReadFinished(0)]
    );
    assert_eq!(plan.submissions[3].waits, vec![SemaphoreId::GravityFinished(0)]);
    assert_eq!(plan.submissions[3].signals, vec![SemaphoreId::RenderFinished(0)]);
    assert!(plan.submissions[3].signals_in_flight_fence);
    assert!(!plan.submissions[0].signals_in_flight_fence);
    assert!(!plan.submissions[1].signals_in_flight_fence);
    assert!(!plan.submissions[2].signals_in_flight_fence);
    assert_eq!(plan.present_wait, SemaphoreId::RenderFinished(0));
}

#[test]
fn steady_plan_waits_on_other_slots_gravity_read() {
    let mut s = FrameScheduler::new(2);
    s.advance_frame();
    assert!(matches!(s.phase, Phase::Steady));
    assert_eq!(s.slot, 1);
    let plan = s.plan_frame();
    assert_eq!(
        plan.submissions[1].waits,
        vec![SemaphoreId::ClearFinished(1), SemaphoreId::GravityReadFinished(0)]
    );
}

#[test]
fn claiming_an_image_reports_the_previous_owner() {
    let mut s = FrameScheduler::new(3);
    assert_eq!(s.claim_image(1), None);
    assert_eq!(s.image_owner[1], Some(0));
    s.advance_frame();
    assert_eq!(s.claim_image(1), Some(0));
    assert_eq!(s.image_owner[1], Some(1));
    assert_eq!(s.claim_image(2), None);
}

#[test]
fn resetting_the_image_table_forgets_ownership() {
    let mut s = FrameScheduler::new(2);
    s.claim_image(0);
    s.claim_image(1);
    s.reset_image_table(4);
    assert_eq!(s.image_owner.len(), 4);
    for owner in &s.image_owner {
        assert_eq!(*owner, None);
    }
}

#[test]
fn acquire_outcomes_map_to_directives() {
    assert_eq!(direct_acquire(AcquireOutcome::Available(2)), AcquireDirective::Proceed(2));
    assert_eq!(direct_acquire(AcquireOutcome::Suboptimal(1)), AcquireDirective::Proceed(1));
    assert_eq!(direct_acquire(AcquireOutcome::Stale), AcquireDirective::Rebuild);
    assert_eq!(direct_acquire(AcquireOutcome::DeviceError), AcquireDirective::Abort);
}

#[test]
fn present_outcomes_map_to_directives() {
    assert_eq!(direct_present(PresentOutcome::Presented, false), PresentDirective::Continue);
    assert_eq!(
        direct_present(PresentOutcome::Presented, true),
        PresentDirective::RebuildAndReissue
    );
    assert_eq!(
        direct_present(PresentOutcome::Suboptimal, false),
        PresentDirective::RebuildAndReissue
    );
    assert_eq!(direct_present(PresentOutcome::Stale, false), PresentDirective::RebuildAndReissue);
    assert_eq!(direct_present(PresentOutcome::DeviceError, false), PresentDirective::Abort);
    assert_eq!(direct_present(PresentOutcome::DeviceError, true), PresentDirective::Abort);
}

#[test]
fn dispatch_groups_cover_every_particle() {
    assert_eq!(dispatch_group_count(0), 0);
    assert_eq!(dispatch_group_count(1), 1);
    assert_eq!(dispatch_group_count(256), 1);
    assert_eq!(dispatch_group_count(257), 2);
    assert_eq!(dispatch_group_count(1000000), 3907);
    assert_eq!(dispatch_group_count(MASS_LIMIT as usize), 4096);
    for n in [1usize, 255, 256, 511, 999999] {
        let g = dispatch_group_count(n) as usize;
        assert!(256 * g >= n);
        assert!(256 * (g - 1) < n);
    }
}
