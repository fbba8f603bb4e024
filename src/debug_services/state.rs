//! The state of the debug services: the console and the profiler.
use crate::debug_services::commands::CommandsState;
use crate::debug_services::profile::{ProfileState, DEFAULT_SNAPSHOT_INTERVAL};
use vstd::prelude::*;

verus! {

pub struct DebugState {
    pub commands: CommandsState,
    pub profile: ProfileState,
}

impl DebugState {
    pub open spec fn wf(&self) -> bool {
        self.commands.wf() && self.profile.wf()
    }

    /// A console with no commands and a fresh profiler.
    pub fn new() -> (r: DebugState)
        ensures
            r.wf(),
            r.commands.index@.len() == 0,
            r.commands.registry@.len() == 0,
            r.commands.history@.len() == 0,
            r.profile.snapshot_interval == DEFAULT_SNAPSHOT_INTERVAL,
            r.profile.frame_counter == 0,
            r.profile.snapshot_counter == 0,
    {
        DebugState { commands: CommandsState::new(), profile: ProfileState::new() }
    }
}

} // verus!
