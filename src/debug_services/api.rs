//! Entry points of the debug services for the frame hooks.
use crate::debug_services::commands_registry::{self, profile_commands_registered};
use crate::debug_services::profile::{self, frame_ended};
use crate::debug_services::state::DebugState;
use vstd::prelude::*;

verus! {

/// Ends the profiler's frame at clock reading `now_ns`.
pub fn debug_frame_end(debug_state: &mut DebugState, now_ns: u64)
    requires
        old(debug_state).wf(),
    ensures
        final(debug_state).wf(),
        frame_ended(final(debug_state).profile, old(debug_state).profile, now_ns),
        final(debug_state).commands == old(debug_state).commands,
{
    profile::frame_end(&mut debug_state.profile, now_ns);
}

/// Starts the profiler's frame at clock reading `now_ns`.
pub fn debug_frame_start(debug_state: &mut DebugState, now_ns: u64)
    requires
        old(debug_state).wf(),
    ensures
        final(debug_state).wf(),
        final(debug_state).profile.frame_timer == now_ns,
        final(debug_state).profile == (profile::ProfileState {
            frame_timer: now_ns,
            ..old(debug_state).profile
        }),
        final(debug_state).commands == old(debug_state).commands,
{
    profile::frame_start(&mut debug_state.profile, now_ns);
}

/// Registers the console's commands.
pub fn init(debug_state: &mut DebugState)
    requires
        old(debug_state).wf(),
    ensures
        final(debug_state).wf(),
        profile_commands_registered(*final(debug_state), *old(debug_state)),
{
    commands_registry::init(debug_state);
}

} // verus!
