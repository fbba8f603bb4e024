//! Transient per-frame memory: the argument stacks of request commands.
use crate::commands::{Vec2f, Vec2i};
use vstd::prelude::*;

verus! {

/// The argument stacks that request commands push onto and terminal request
/// commands pop from.
pub struct CommandsDataMemory {
    pub vec2f_data: Vec<Vec2f>,
    pub vec2i_data: Vec<Vec2i>,
}

impl CommandsDataMemory {
    pub open spec fn is_empty(&self) -> bool {
        self.vec2f_data@.len() == 0 && self.vec2i_data@.len() == 0
    }

    pub fn new() -> (r: CommandsDataMemory)
        ensures
            r.is_empty(),
    {
        CommandsDataMemory { vec2f_data: Vec::new(), vec2i_data: Vec::new() }
    }

    pub fn clear(&mut self)
        ensures
            final(self).is_empty(),
    {
        self.vec2f_data.clear();
        self.vec2i_data.clear();
    }
}

/// The memory that lives for one frame and is released by `flush`.
pub struct MemoryState {
    pub commands_data: CommandsDataMemory,
}

impl MemoryState {
    pub fn new() -> (r: MemoryState)
        ensures
            r.commands_data.is_empty(),
    {
        MemoryState { commands_data: CommandsDataMemory::new() }
    }

    pub fn flush(&mut self)
        ensures
            final(self).commands_data.is_empty(),
    {
        self.commands_data.clear();
    }
}

/// Releases the frame memory of `memory`.
pub fn flush(memory: &mut MemoryState)
    ensures
        final(memory).commands_data.is_empty(),
{
    memory.flush();
}

} // verus!
