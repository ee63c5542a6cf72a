use learn_opengl::lifecycle::{
    empty_slot, frame_step, reset_step, InitPolicy, ResetPolicy, SceneSlot,
};

#[test]
fn first_frame_sets_up_and_renders() {
    let step = frame_step(InitPolicy::WhenAbsent, empty_slot());
    assert!(step.initialize);
    assert!(step.render);
    assert_eq!(step.slot, SceneSlot { live: true, ever_initialized: true });
}

#[test]
fn later_frames_only_render() {
    let slot = frame_step(InitPolicy::WhenAbsent, empty_slot()).slot;
    let step = frame_step(InitPolicy::WhenAbsent, slot);
    assert!(!step.initialize);
    assert!(step.render);
}

#[test]
fn reset_releases_live_state_once() {
    let slot = frame_step(InitPolicy::WhenAbsent, empty_slot()).slot;
    let first = reset_step(ResetPolicy::ReleaseResources, slot);
    assert!(first.release_resources);
    assert!(!first.slot.live);
    let second = reset_step(ResetPolicy::ReleaseResources, first.slot);
    assert!(!second.release_resources);
    assert!(!reset_step(ResetPolicy::ReleaseResources, empty_slot()).release_resources);
}

#[test]
fn drop_only_reset_releases_nothing() {
    let slot = frame_step(InitPolicy::WhenAbsent, empty_slot()).slot;
    let step = reset_step(ResetPolicy::DropOnly, slot);
    assert!(!step.release_resources);
    assert!(!step.slot.live);
}

#[test]
fn frame_after_reset_sets_up_again() {
    let slot = frame_step(InitPolicy::WhenAbsent, empty_slot()).slot;
    let slot = reset_step(ResetPolicy::ReleaseResources, slot).slot;
    assert!(frame_step(InitPolicy::WhenAbsent, slot).initialize);
}

#[test]
fn once_per_process_never_sets_up_twice() {
    let first = frame_step(InitPolicy::OncePerProcess, empty_slot());
    assert!(first.initialize && first.render);
    let second = frame_step(InitPolicy::OncePerProcess, first.slot);
    assert!(!second.initialize && second.render);
    let reset = reset_step(ResetPolicy::ReleaseResources, second.slot);
    assert!(reset.release_resources);
    let after = frame_step(InitPolicy::OncePerProcess, reset.slot);
    assert!(!after.initialize);
    assert!(!after.render);
}

#[test]
fn every_call_policy_sets_up_without_rendering() {
    let first = frame_step(InitPolicy::EveryCall, empty_slot());
    assert!(first.initialize && !first.render);
    let second = frame_step(InitPolicy::EveryCall, first.slot);
    assert!(second.initialize && !second.render);
}
