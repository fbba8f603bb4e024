//! The commands the console ships with.
use crate::debug_services::commands::{register_command, registered_index, Command, CommandExecutor};
use crate::debug_services::state::DebugState;
use vstd::prelude::*;
use vstd::string::StringExecFns;

verus! {

/// `p` is `q` with `profile::set_snapshot_interval` registered, under the
/// description "Update snapshot interval".
pub open spec fn profile_commands_registered(p: DebugState, q: DebugState) -> bool {
    &&& p.profile == q.profile
    &&& p.commands.history@ == q.commands.history@
    &&& exists|c: Command|
        #![trigger registered_index(q.commands.index@, c)]
        {
            &&& c.namespace@ == "profile"@
            &&& c.name@ == "set_snapshot_interval"@
            &&& c.executor == CommandExecutor::SetSnapshotInterval
            &&& p.commands.index@ == registered_index(q.commands.index@, c)
        }
    &&& p.commands.registry@.len() == q.commands.registry@.len() + 1
    &&& p.commands.registry@.drop_last() == q.commands.registry@
    &&& p.commands.registry@.last().namespace@ == "profile"@
    &&& p.commands.registry@.last().name@ == "set_snapshot_interval"@
    &&& p.commands.registry@.last().args@ == "<arguments: int>"@
    &&& p.commands.registry@.last().desc@ == "Update snapshot interval"@
}

/// Registers `profile::set_snapshot_interval`.
pub fn init(debug_state: &mut DebugState)
    requires
        old(debug_state).commands.wf(),
    ensures
        final(debug_state).commands.wf(),
        profile_commands_registered(*final(debug_state), *old(debug_state)),
{
    let command = Command {
        namespace: String::from_str("profile"),
        name: String::from_str("set_snapshot_interval"),
        executor: CommandExecutor::SetSnapshotInterval,
    };
    let ghost c = command;
    register_command(debug_state, "Update snapshot interval", command);
    proof {
        assert(debug_state.commands.index@ == registered_index(old(debug_state).commands.index@, c));
    }
}

} // verus!
