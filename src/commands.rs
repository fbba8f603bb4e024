//! The command model: value types carried by commands, the three command
//! kinds, their type codes, and the queues that hold them for one frame.
use vstd::prelude::*;
use vstd::slice::slice_to_vec;
use vstd::string::{StrSliceExecFns, StringSliceAdditionalSpecFns};

verus! {

/// Bit pattern of the binary32 value `1.0`.
pub const ONE_BITS: u32 = 0x3F80_0000;

/// A two-dimensional float vector. Each coordinate is held as its IEEE-754
/// binary32 bit pattern: the core never computes with coordinates, it hands
/// them on to the renderer exactly as they were given.
#[derive(Debug, Clone, Copy, PartialEq, Eq, Structural, Default)]
pub struct Vec2f {
    pub x_bits: u32,
    pub y_bits: u32,
}

impl Vec2f {
    pub open spec fn spec_zero() -> Vec2f {
        Vec2f { x_bits: 0, y_bits: 0 }
    }

    /// The vector `(0.0, 0.0)` (both bit patterns are zero).
    pub fn zero() -> (r: Vec2f)
        ensures
            r == Vec2f::spec_zero(),
    {
        Vec2f { x_bits: 0, y_bits: 0 }
    }

    pub fn new(x_bits: u32, y_bits: u32) -> (r: Vec2f)
        ensures
            r.x_bits == x_bits && r.y_bits == y_bits,
    {
        Vec2f { x_bits, y_bits }
    }
}

/// A two-dimensional integer vector (sizes in pixels, integer points).
#[derive(Debug, Clone, Copy, PartialEq, Eq, Structural, Default)]
pub struct Vec2i {
    pub x: i32,
    pub y: i32,
}

impl Vec2i {
    pub fn zero() -> (r: Vec2i)
        ensures
            r.x == 0 && r.y == 0,
    {
        Vec2i { x: 0, y: 0 }
    }

    pub fn new(x: i32, y: i32) -> (r: Vec2i)
        ensures
            r.x == x && r.y == y,
    {
        Vec2i { x, y }
    }
}

/// An RGBA color; each channel is the bit pattern of a binary32 value.
#[derive(Debug, Clone, Copy, PartialEq, Eq, Structural, Default)]
pub struct Color {
    pub r_bits: u32,
    pub g_bits: u32,
    pub b_bits: u32,
    pub a_bits: u32,
}

impl Color {
    pub fn rgba(r_bits: u32, g_bits: u32, b_bits: u32, a_bits: u32) -> (c: Color)
        ensures
            c == (Color { r_bits, g_bits, b_bits, a_bits }),
    {
        Color { r_bits, g_bits, b_bits, a_bits }
    }

    /// An opaque color: alpha is `1.0`.
    pub fn rgb(r_bits: u32, g_bits: u32, b_bits: u32) -> (c: Color)
        ensures
            c == (Color { r_bits, g_bits, b_bits, a_bits: ONE_BITS }),
    {
        Color { r_bits, g_bits, b_bits, a_bits: ONE_BITS }
    }
}

/// The payload of a command: exactly one of the shapes a command can carry.
/// Which one is meaningful is fixed by the command's type.
#[derive(Debug, Clone, PartialEq)]
pub enum CommandData {
    Empty,
    Int32(i32),
    Vec2f(Vec2f),
    Vec2i(Vec2i),
    Color(Color),
    /// A byte span, most often UTF-8 text.
    Bytes(Vec<u8>),
}

impl CommandData {
    pub fn int32(data: i32) -> (r: CommandData)
        ensures
            r == CommandData::Int32(data),
    {
        CommandData::Int32(data)
    }

    pub fn vec2f(data: Vec2f) -> (r: CommandData)
        ensures
            r == CommandData::Vec2f(data),
    {
        CommandData::Vec2f(data)
    }

    pub fn vec2i(data: Vec2i) -> (r: CommandData)
        ensures
            r == CommandData::Vec2i(data),
    {
        CommandData::Vec2i(data)
    }

    pub fn color(data: Color) -> (r: CommandData)
        ensures
            r == CommandData::Color(data),
    {
        CommandData::Color(data)
    }

    /// The UTF-8 bytes of `data`.
    pub fn string(data: &str) -> (r: CommandData)
        ensures
            r is Bytes && r->Bytes_0@ == data.spec_bytes(),
    {
        CommandData::Bytes(data.as_bytes_vec())
    }

    pub fn string_bytes(data: &[u8]) -> (r: CommandData)
        ensures
            r is Bytes && r->Bytes_0@ == data@,
    {
        CommandData::Bytes(slice_to_vec(data))
    }
}

/// Render command types. Each has a fixed wire code (see `code`).
#[derive(Debug, Clone, Copy, PartialEq, Eq, Structural)]
pub enum RenderCommandType {
    PushColor,
    PushVec2f,
    PushInt32,
    SetCamera,
    SetColorUniform,
    PushColorShader,
    PushTextShader,
    PushString,
    DrawLines,
    DrawPoints,
    DrawQuads,
    DrawText,
}

impl RenderCommandType {
    pub open spec fn spec_code(self) -> i32 {
        match self {
            RenderCommandType::PushColor => 0,
            RenderCommandType::PushVec2f => 1,
            RenderCommandType::SetColorUniform => 2,
            RenderCommandType::PushColorShader => 3,
            RenderCommandType::DrawLines => 4,
            RenderCommandType::DrawPoints => 5,
            RenderCommandType::DrawQuads => 6,
            RenderCommandType::DrawText => 7,
            RenderCommandType::PushString => 8,
            RenderCommandType::PushTextShader => 9,
            RenderCommandType::SetCamera => 10,
            RenderCommandType::PushInt32 => 11,
        }
    }

    /// The wire code of this command type.
    #[verifier::when_used_as_spec(spec_code)]
    pub fn code(self) -> (r: i32)
        ensures
            r == self.spec_code(),
    {
        match self {
            RenderCommandType::PushColor => 0,
            RenderCommandType::PushVec2f => 1,
            RenderCommandType::SetColorUniform => 2,
            RenderCommandType::PushColorShader => 3,
            RenderCommandType::DrawLines => 4,
            RenderCommandType::DrawPoints => 5,
            RenderCommandType::DrawQuads => 6,
            RenderCommandType::DrawText => 7,
            RenderCommandType::PushString => 8,
            RenderCommandType::PushTextShader => 9,
            RenderCommandType::SetCamera => 10,
            RenderCommandType::PushInt32 => 11,
        }
    }
}

/// Request command types (host to core). Each has a fixed wire code.
#[derive(Debug, Clone, Copy, PartialEq, Eq, Structural)]
pub enum RequestCommandType {
    PushVec2f,
    PushVec2i,
    SetViewportSize,
    OnTouchStart,
    OnTouchEnd,
    OnTouchMove,
}

impl RequestCommandType {
    pub open spec fn spec_code(self) -> i32 {
        match self {
            RequestCommandType::PushVec2f => 0,
            RequestCommandType::SetViewportSize => 1,
            RequestCommandType::OnTouchStart => 2,
            RequestCommandType::OnTouchEnd => 3,
            RequestCommandType::OnTouchMove => 4,
            RequestCommandType::PushVec2i => 5,
        }
    }

    /// The wire code of this command type.
    #[verifier::when_used_as_spec(spec_code)]
    pub fn code(self) -> (r: i32)
        ensures
            r == self.spec_code(),
    {
        match self {
            RequestCommandType::PushVec2f => 0,
            RequestCommandType::SetViewportSize => 1,
            RequestCommandType::OnTouchStart => 2,
            RequestCommandType::OnTouchEnd => 3,
            RequestCommandType::OnTouchMove => 4,
            RequestCommandType::PushVec2i => 5,
        }
    }

    /// The command type with wire code `code`, if there is one.
    pub fn from_code(code: i32) -> (r: Option<RequestCommandType>)
        ensures
            r matches Some(t) ==> t.spec_code() == code,
            r is None <==> (code < 0 || code > 5),
    {
        if code == 0 {
            Some(RequestCommandType::PushVec2f)
        } else if code == 1 {
            Some(RequestCommandType::SetViewportSize)
        } else if code == 2 {
            Some(RequestCommandType::OnTouchStart)
        } else if code == 3 {
            Some(RequestCommandType::OnTouchEnd)
        } else if code == 4 {
            Some(RequestCommandType::OnTouchMove)
        } else if code == 5 {
            Some(RequestCommandType::PushVec2i)
        } else {
            None
        }
    }

    /// Whether a command of this type consumes the pushed arguments.
    pub open spec fn spec_is_terminal(self) -> bool {
        !(self is PushVec2f || self is PushVec2i)
    }
}

/// Execution command types (core to host). Each has a fixed wire code.
#[derive(Debug, Clone, Copy, PartialEq, Eq, Structural)]
pub enum ExecutionCommandType {
    PushVec2f,
    PushInt32,
    UpdateCameraPosition,
}

impl ExecutionCommandType {
    pub open spec fn spec_code(self) -> i32 {
        match self {
            ExecutionCommandType::PushVec2f => 0,
            ExecutionCommandType::UpdateCameraPosition => 1,
            ExecutionCommandType::PushInt32 => 2,
        }
    }

    /// The wire code of this command type.
    #[verifier::when_used_as_spec(spec_code)]
    pub fn code(self) -> (r: i32)
        ensures
            r == self.spec_code(),
    {
        match self {
            ExecutionCommandType::PushVec2f => 0,
            ExecutionCommandType::UpdateCameraPosition => 1,
            ExecutionCommandType::PushInt32 => 2,
        }
    }
}

#[derive(Debug, Clone, PartialEq)]
pub struct RenderCommand {
    pub command_type: RenderCommandType,
    pub data: CommandData,
}

#[derive(Debug, Clone, PartialEq)]
pub struct ExecutionCommand {
    pub command_type: ExecutionCommandType,
    pub data: CommandData,
}

#[derive(Debug, Clone, PartialEq)]
pub struct RequestCommand {
    pub command_type: RequestCommandType,
    pub data: CommandData,
}

/// The three command queues of one frame.
pub struct CommandsState {
    pub render_commands: Vec<RenderCommand>,
    pub exec_commands: Vec<ExecutionCommand>,
    pub request_commands: Vec<RequestCommand>,
}

impl CommandsState {
    pub open spec fn is_empty(&self) -> bool {
        &&& self.render_commands@.len() == 0
        &&& self.exec_commands@.len() == 0
        &&& self.request_commands@.len() == 0
    }

    pub fn new() -> (r: CommandsState)
        ensures
            r.is_empty(),
    {
        CommandsState {
            render_commands: Vec::new(),
            exec_commands: Vec::new(),
            request_commands: Vec::new(),
        }
    }

    /// Empties all three queues.
    pub fn clear(&mut self)
        ensures
            final(self).is_empty(),
    {
        self.render_commands.clear();
        self.exec_commands.clear();
        self.request_commands.clear();
    }
}

impl Default for CommandsState {
    fn default() -> (r: CommandsState)
        ensures
            r.is_empty(),
    {
        CommandsState::new()
    }
}

pub open spec fn render_command(command_type: RenderCommandType, data: CommandData) -> RenderCommand {
    RenderCommand { command_type, data }
}

pub open spec fn execution_command(
    command_type: ExecutionCommandType,
    data: CommandData,
) -> ExecutionCommand {
    ExecutionCommand { command_type, data }
}

pub open spec fn request_command(
    command_type: RequestCommandType,
    data: CommandData,
) -> RequestCommand {
    RequestCommand { command_type, data }
}

/// `s` is `t` with one more render command appended.
pub open spec fn render_appended(s: &CommandsState, t: &CommandsState, c: RenderCommand) -> bool {
    &&& s.render_commands@ == t.render_commands@.push(c)
    &&& s.exec_commands@ == t.exec_commands@
    &&& s.request_commands@ == t.request_commands@
}

/// `s` is `t` with one more execution command appended.
pub open spec fn exec_appended(s: &CommandsState, t: &CommandsState, c: ExecutionCommand) -> bool {
    &&& s.render_commands@ == t.render_commands@
    &&& s.exec_commands@ == t.exec_commands@.push(c)
    &&& s.request_commands@ == t.request_commands@
}

/// `s` is `t` with one more request command appended.
pub open spec fn request_appended(s: &CommandsState, t: &CommandsState, c: RequestCommand) -> bool {
    &&& s.render_commands@ == t.render_commands@
    &&& s.exec_commands@ == t.exec_commands@
    &&& s.request_commands@ == t.request_commands@.push(c)
}

pub fn push_render_command(commands_state: &mut CommandsState, command_type: RenderCommandType)
    ensures
        render_appended(
            final(commands_state),
            old(commands_state),
            render_command(command_type, CommandData::Empty),
        ),
{
    let command = RenderCommand { command_type, data: CommandData::Empty };
    commands_state.render_commands.push(command);
}

pub fn push_render_command_data(
    commands_state: &mut CommandsState,
    command_type: RenderCommandType,
    data: CommandData,
)
    ensures
        render_appended(final(commands_state), old(commands_state), render_command(command_type, data)),
{
    let command = RenderCommand { command_type, data };
    commands_state.render_commands.push(command);
}

pub fn push_execution_command(
    commands_state: &mut CommandsState,
    command_type: ExecutionCommandType,
)
    ensures
        exec_appended(
            final(commands_state),
            old(commands_state),
            execution_command(command_type, CommandData::Empty),
        ),
{
    let command = ExecutionCommand { command_type, data: CommandData::Empty };
    commands_state.exec_commands.push(command);
}

pub fn push_execution_command_data(
    commands_state: &mut CommandsState,
    command_type: ExecutionCommandType,
    data: CommandData,
)
    ensures
        exec_appended(final(commands_state), old(commands_state), execution_command(command_type, data)),
{
    let command = ExecutionCommand { command_type, data };
    commands_state.exec_commands.push(command);
}

pub fn push_request_command(commands_state: &mut CommandsState, command_type: RequestCommandType)
    ensures
        request_appended(
            final(commands_state),
            old(commands_state),
            request_command(command_type, CommandData::Empty),
        ),
{
    let command = RequestCommand { command_type, data: CommandData::Empty };
    commands_state.request_commands.push(command);
}

pub fn push_request_command_data(
    commands_state: &mut CommandsState,
    command_type: RequestCommandType,
    data: CommandData,
)
    ensures
        request_appended(final(commands_state), old(commands_state), request_command(command_type, data)),
{
    let command = RequestCommand { command_type, data };
    commands_state.request_commands.push(command);
}

} // verus!
