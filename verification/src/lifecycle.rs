use vstd::prelude::*;

verus! {

/// When an example creates its GPU state.
#[derive(Clone, Copy, Debug, PartialEq, Eq, Structural)]
pub enum InitPolicy {
    /// On a frame that finds no state (most examples).
    WhenAbsent,
    /// On the first frame of the process only, even after a reset (the HDR
    /// example, which guards its setup with a `std::sync::Once`).
    OncePerProcess,
    /// On every call, and the call does not render (the normal mapping
    /// example, whose renderer is driven separately).
    EveryCall,
}

/// What resetting an example does with its state.
#[derive(Clone, Copy, Debug, PartialEq, Eq, Structural)]
pub enum ResetPolicy {
    /// Deletes the GPU objects of a live state, then drops it.
    ReleaseResources,
    /// Only drops the state; its GPU objects are left to their owners.
    DropOnly,
}

/// Whether an example's state exists, and whether it was ever created in
/// this process.
#[derive(Clone, Copy, Debug, PartialEq, Eq, Structural)]
pub struct SceneSlot {
    pub live: bool,
    pub ever_initialized: bool,
}

/// What a frame of an example does: the slot afterwards, whether the
/// example's setup runs, and whether its renderer runs with a state.
#[derive(Clone, Copy, Debug, PartialEq, Eq, Structural)]
pub struct FrameStep {
    pub slot: SceneSlot,
    pub initialize: bool,
    pub render: bool,
}

/// What a reset of an example does: the slot afterwards, and whether the
/// GPU objects of the state are deleted.
#[derive(Clone, Copy, Debug, PartialEq, Eq, Structural)]
pub struct ResetStep {
    pub slot: SceneSlot,
    pub release_resources: bool,
}

/// The slot of an example before its first frame.
pub open spec fn empty_slot_spec() -> SceneSlot {
    SceneSlot { live: false, ever_initialized: false }
}

/// The slot of an example before its first frame.
pub fn empty_slot() -> (slot: SceneSlot)
    ensures
        slot == empty_slot_spec(),
{
    SceneSlot { live: false, ever_initialized: false }
}

/// The effect of one frame of an example under `policy`.
pub open spec fn frame_step_spec(policy: InitPolicy, slot: SceneSlot) -> FrameStep {
    match policy {
        InitPolicy::WhenAbsent => FrameStep {
            slot: SceneSlot { live: true, ever_initialized: true },
            initialize: !slot.live,
            render: true,
        },
        InitPolicy::OncePerProcess => FrameStep {
            slot: SceneSlot { live: slot.live || !slot.ever_initialized, ever_initialized: true },
            initialize: !slot.ever_initialized,
            render: slot.live || !slot.ever_initialized,
        },
        InitPolicy::EveryCall => FrameStep {
            slot: SceneSlot { live: true, ever_initialized: true },
            initialize: true,
            render: false,
        },
    }
}

/// The effect of one reset of an example under `policy`.
pub open spec fn reset_step_spec(policy: ResetPolicy, slot: SceneSlot) -> ResetStep {
    ResetStep {
        slot: SceneSlot { live: false, ever_initialized: slot.ever_initialized },
        release_resources: match policy {
            ResetPolicy::ReleaseResources => slot.live,
            ResetPolicy::DropOnly => false,
        },
    }
}

/// Decides one frame of an example: whether its setup runs (the state is
/// missing, or under `OncePerProcess` was never created, or always under
/// `EveryCall`) and whether it then renders with its state.
pub fn frame_step(policy: InitPolicy, slot: SceneSlot) -> (step: FrameStep)
    ensures
        step == frame_step_spec(policy, slot),
{
    match policy {
        InitPolicy::WhenAbsent => FrameStep {
            slot: SceneSlot { live: true, ever_initialized: true },
            initialize: !slot.live,
            render: true,
        },
        InitPolicy::OncePerProcess => {
            let initialize = !slot.ever_initialized;
            let live = slot.live || initialize;
            FrameStep {
                slot: SceneSlot { live, ever_initialized: true },
                initialize,
                render: live,
            }
        },
        InitPolicy::EveryCall => FrameStep {
            slot: SceneSlot { live: true, ever_initialized: true },
            initialize: true,
            render: false,
        },
    }
}

/// Decides one reset of an example: its state is dropped, and its GPU
/// objects are deleted only under `ReleaseResources` and only if the state
/// was live.
pub fn reset_step(policy: ResetPolicy, slot: SceneSlot) -> (step: ResetStep)
    ensures
        step == reset_step_spec(policy, slot),
{
    let release_resources = match policy {
        ResetPolicy::ReleaseResources => slot.live,
        ResetPolicy::DropOnly => false,
    };
    ResetStep {
        slot: SceneSlot { live: false, ever_initialized: slot.ever_initialized },
        release_resources,
    }
}

/// Under `WhenAbsent`, a frame always leaves the state live, and a second
/// frame right after it does not run the setup again.
pub proof fn lemma_setup_runs_once_between_resets(slot: SceneSlot)
    ensures
        frame_step_spec(InitPolicy::WhenAbsent, slot).slot.live,
        !frame_step_spec(
            InitPolicy::WhenAbsent,
            frame_step_spec(InitPolicy::WhenAbsent, slot).slot,
        ).initialize,
{
}

/// Under `WhenAbsent`, the first frame after a reset runs the setup again,
/// whatever the reset policy.
pub proof fn lemma_reset_then_frame_reinitializes(reset: ResetPolicy, slot: SceneSlot)
    ensures
        frame_step_spec(InitPolicy::WhenAbsent, reset_step_spec(reset, slot).slot).initialize,
{
}

/// GPU objects are deleted at most once: a reset right after a reset
/// releases nothing, and a reset of an example that was never set up
/// releases nothing.
pub proof fn lemma_release_at_most_once(policy: ResetPolicy, other: ResetPolicy, slot: SceneSlot)
    ensures
        !reset_step_spec(other, reset_step_spec(policy, slot).slot).release_resources,
        !reset_step_spec(policy, empty_slot_spec()).release_resources,
{
}

/// Under `OncePerProcess`, the setup runs on the first frame and never
/// again, so unlike under `WhenAbsent` a reset does not force a new setup: after any frame it is marked done, and once done neither a frame
/// nor a reset followed by a frame runs it; after a reset the renderer has
/// no state to draw with.
pub proof fn lemma_once_per_process(slot: SceneSlot, reset: ResetPolicy)
    ensures
        frame_step_spec(InitPolicy::OncePerProcess, empty_slot_spec()).initialize,
        frame_step_spec(InitPolicy::OncePerProcess, slot).slot.ever_initialized,
        slot.ever_initialized ==> !frame_step_spec(InitPolicy::OncePerProcess, slot).initialize,
        slot.ever_initialized ==> {
            let after_reset = reset_step_spec(reset, slot).slot;
            &&& !frame_step_spec(InitPolicy::OncePerProcess, after_reset).initialize
            &&& !frame_step_spec(InitPolicy::OncePerProcess, after_reset).render
        },
{
}

/// When a frame draws: under `WhenAbsent` every frame draws, including the
/// first one after a reset (which also sets the example up again); under
/// `OncePerProcess` a frame draws exactly when a state is live after it;
/// under `EveryCall` no frame draws. Whatever the policy, a frame draws
/// only with a live state, and a frame that sets up leaves the state live.
pub proof fn lemma_when_frames_draw(policy: InitPolicy, reset: ResetPolicy, slot: SceneSlot)
    ensures
        frame_step_spec(InitPolicy::WhenAbsent, slot).render,
        frame_step_spec(InitPolicy::WhenAbsent, reset_step_spec(reset, slot).slot).render,
        frame_step_spec(InitPolicy::WhenAbsent, reset_step_spec(reset, slot).slot).initialize,
        frame_step_spec(InitPolicy::OncePerProcess, slot).render == frame_step_spec(
            InitPolicy::OncePerProcess,
            slot,
        ).slot.live,
        !frame_step_spec(InitPolicy::EveryCall, slot).render,
        frame_step_spec(policy, slot).render ==> frame_step_spec(policy, slot).slot.live,
        frame_step_spec(policy, slot).initialize ==> frame_step_spec(policy, slot).slot.live,
{
}

/// What a reset does: the state is gone afterwards, the record of a past
/// setup is kept, GPU objects are deleted when the state was live under
/// `ReleaseResources`, and never under `DropOnly`.
pub proof fn lemma_reset_meaning(policy: ResetPolicy, slot: SceneSlot)
    ensures
        !reset_step_spec(policy, slot).slot.live,
        reset_step_spec(policy, slot).slot.ever_initialized == slot.ever_initialized,
        slot.live ==> reset_step_spec(ResetPolicy::ReleaseResources, slot).release_resources,
        !reset_step_spec(ResetPolicy::DropOnly, slot).release_resources,
        reset_step_spec(policy, slot).release_resources ==> slot.live,
{
}

} // verus!
