//! The graphics API: stateless emitters that append well-formed command
//! pairs to the queues. Emitters never read the queues back and never fail.
use crate::commands::{
    execution_command, push_execution_command, push_execution_command_data, push_render_command,
    push_render_command_data, render_appended, render_command, Color, CommandData, CommandsState,
    ExecutionCommand, ExecutionCommandType, RenderCommand, RenderCommandType, Vec2f, ONE_BITS,
};
use crate::render_state::RenderState;
use vstd::prelude::*;
use vstd::string::StringSliceAdditionalSpecFns;

verus! {

pub const CAMERA_UI: usize = 0;

pub const CAMERA_ORTHO: usize = 1;

pub const CAMERA_COUNT: usize = 2;

/// `s` is `t` with the render commands `cs` appended, in order.
pub open spec fn render_extended(s: &CommandsState, t: &CommandsState, cs: Seq<RenderCommand>) -> bool {
    &&& s.render_commands@ == t.render_commands@ + cs
    &&& s.exec_commands@ == t.exec_commands@
    &&& s.request_commands@ == t.request_commands@
}

/// `s` is `t` with the execution commands `cs` appended, in order.
pub open spec fn exec_extended(s: &CommandsState, t: &CommandsState, cs: Seq<ExecutionCommand>) -> bool {
    &&& s.render_commands@ == t.render_commands@
    &&& s.exec_commands@ == t.exec_commands@ + cs
    &&& s.request_commands@ == t.request_commands@
}

pub open spec fn plain(t: RenderCommandType) -> RenderCommand {
    render_command(t, CommandData::Empty)
}

pub open spec fn vec2f_command(v: Vec2f) -> RenderCommand {
    render_command(RenderCommandType::PushVec2f, CommandData::Vec2f(v))
}

pub open spec fn color_command(c: Color) -> RenderCommand {
    render_command(RenderCommandType::PushColor, CommandData::Color(c))
}

pub fn push_color_shader(commands_state: &mut CommandsState)
    ensures
        render_appended(final(commands_state), old(commands_state), plain(RenderCommandType::PushColorShader)),
{
    push_render_command(commands_state, RenderCommandType::PushColorShader);
}

pub fn push_text_shader(commands_state: &mut CommandsState)
    ensures
        render_appended(final(commands_state), old(commands_state), plain(RenderCommandType::PushTextShader)),
{
    push_render_command(commands_state, RenderCommandType::PushTextShader);
}

pub fn push_color(commands_state: &mut CommandsState, color: Color)
    ensures
        render_appended(final(commands_state), old(commands_state), color_command(color)),
{
    push_render_command_data(commands_state, RenderCommandType::PushColor, CommandData::color(color));
}

/// Appends the UTF-8 bytes of `str` as a `PushString` command and returns
/// the size the host measured for this string, read from the render state.
pub fn push_string(
    commands_state: &mut CommandsState,
    render_state: &mut RenderState,
    str: &str,
) -> (size: Vec2f)
    ensures
        final(commands_state).render_commands@.len() == old(commands_state).render_commands@.len() + 1,
        final(commands_state).render_commands@.drop_last() == old(commands_state).render_commands@,
        final(commands_state).render_commands@.last().command_type == RenderCommandType::PushString,
        final(commands_state).render_commands@.last().data is Bytes,
        final(commands_state).render_commands@.last().data->Bytes_0@ == str.spec_bytes(),
        final(commands_state).exec_commands@ == old(commands_state).exec_commands@,
        final(commands_state).request_commands@ == old(commands_state).request_commands@,
        final(render_state).text_sizes@ == old(render_state).text_sizes@,
        size == (if old(render_state).offset < old(render_state).text_sizes@.len() {
            old(render_state).text_sizes@[old(render_state).offset as int]
        } else {
            Vec2f::spec_zero()
        }),
        final(render_state).offset == (if old(render_state).offset < usize::MAX {
            old(render_state).offset + 1
        } else {
            old(render_state).offset as int
        }),
{
    push_render_command_data(commands_state, RenderCommandType::PushString, CommandData::string(str));
    proof {
        assert(commands_state.render_commands@.drop_last() =~= old(commands_state).render_commands@);
    }
    render_state.next_text_size()
}

/// Pushes the position `(x, y)` and then the string, as `push_string_vec2f`.
pub fn push_string_xy(
    commands_state: &mut CommandsState,
    render_state: &mut RenderState,
    str: &str,
    x_bits: u32,
    y_bits: u32,
) -> (size: Vec2f)
    ensures
        final(commands_state).render_commands@.len() == old(commands_state).render_commands@.len() + 2,
        final(commands_state).render_commands@[old(commands_state).render_commands@.len() as int]
            == vec2f_command(Vec2f { x_bits, y_bits }),
        final(commands_state).render_commands@.last().command_type == RenderCommandType::PushString,
        final(commands_state).render_commands@.last().data is Bytes,
        final(commands_state).render_commands@.last().data->Bytes_0@ == str.spec_bytes(),
        final(commands_state).render_commands@.subrange(0, old(commands_state).render_commands@.len() as int)
            == old(commands_state).render_commands@,
        final(commands_state).exec_commands@ == old(commands_state).exec_commands@,
        final(commands_state).request_commands@ == old(commands_state).request_commands@,
        final(render_state).text_sizes@ == old(render_state).text_sizes@,
        size == (if old(render_state).offset < old(render_state).text_sizes@.len() {
            old(render_state).text_sizes@[old(render_state).offset as int]
        } else {
            Vec2f::spec_zero()
        }),
{
    push_string_vec2f(commands_state, render_state, str, Vec2f::new(x_bits, y_bits))
}

/// Pushes the position `pos` and then the string; returns the measured size.
pub fn push_string_vec2f(
    commands_state: &mut CommandsState,
    render_state: &mut RenderState,
    str: &str,
    pos: Vec2f,
) -> (size: Vec2f)
    ensures
        final(commands_state).render_commands@.len() == old(commands_state).render_commands@.len() + 2,
        final(commands_state).render_commands@[old(commands_state).render_commands@.len() as int]
            == vec2f_command(pos),
        final(commands_state).render_commands@.last().command_type == RenderCommandType::PushString,
        final(commands_state).render_commands@.last().data is Bytes,
        final(commands_state).render_commands@.last().data->Bytes_0@ == str.spec_bytes(),
        final(commands_state).render_commands@.subrange(0, old(commands_state).render_commands@.len() as int)
            == old(commands_state).render_commands@,
        final(commands_state).exec_commands@ == old(commands_state).exec_commands@,
        final(commands_state).request_commands@ == old(commands_state).request_commands@,
        final(render_state).text_sizes@ == old(render_state).text_sizes@,
        size == (if old(render_state).offset < old(render_state).text_sizes@.len() {
            old(render_state).text_sizes@[old(render_state).offset as int]
        } else {
            Vec2f::spec_zero()
        }),
{
    push_vec2f(commands_state, pos);
    let ghost mid = commands_state.render_commands@;
    let size = push_string(commands_state, render_state, str);
    proof {
        let n = old(commands_state).render_commands@.len() as int;
        assert(commands_state.render_commands@.drop_last() == mid);
        assert(commands_state.render_commands@[n] == mid[n]);
        assert(commands_state.render_commands@.subrange(0, n) =~= mid.drop_last());
    }
    size
}

/// `c` pushes the text `bytes`.
pub open spec fn is_text_command(c: RenderCommand, bytes: Seq<u8>) -> bool {
    &&& c.command_type == RenderCommandType::PushString
    &&& c.data is Bytes
    &&& c.data->Bytes_0@ == bytes
}

/// `saturating_advance(o, k)`: the cursor `o` moved on by `k`, saturating.
pub open spec fn saturating_advance(o: int, k: int) -> int {
    if o + k > usize::MAX {
        usize::MAX as int
    } else {
        o + k
    }
}

/// Pushes the position `pos` and then the text `bytes`; returns the
/// measured size, as `push_string_vec2f` does.
pub fn push_text_vec2f(
    commands_state: &mut CommandsState,
    render_state: &mut RenderState,
    bytes: Vec<u8>,
    pos: Vec2f,
) -> (size: Vec2f)
    ensures
        final(commands_state).render_commands@.len() == old(commands_state).render_commands@.len() + 2,
        final(commands_state).render_commands@.subrange(0, old(commands_state).render_commands@.len() as int)
            == old(commands_state).render_commands@,
        final(commands_state).render_commands@[old(commands_state).render_commands@.len() as int]
            == vec2f_command(pos),
        final(commands_state).render_commands@.last().command_type == RenderCommandType::PushString,
        final(commands_state).render_commands@.last().data is Bytes,
        final(commands_state).render_commands@.last().data->Bytes_0@ == bytes@,
        final(commands_state).exec_commands@ == old(commands_state).exec_commands@,
        final(commands_state).request_commands@ == old(commands_state).request_commands@,
        final(render_state).text_sizes@ == old(render_state).text_sizes@,
        final(render_state).offset == saturating_advance(old(render_state).offset as int, 1),
        size == (if old(render_state).offset < old(render_state).text_sizes@.len() {
            old(render_state).text_sizes@[old(render_state).offset as int]
        } else {
            Vec2f::spec_zero()
        }),
{
    push_vec2f(commands_state, pos);
    let ghost mid = commands_state.render_commands@;
    let ghost b = bytes@;
    push_render_command_data(commands_state, RenderCommandType::PushString, CommandData::Bytes(bytes));
    proof {
        let n = old(commands_state).render_commands@.len() as int;
        assert(commands_state.render_commands@.subrange(0, n) =~= old(commands_state).render_commands@);
        assert(commands_state.render_commands@[n] == mid[n]);
    }
    render_state.next_text_size()
}

pub fn push_color_rgb(commands_state: &mut CommandsState, r_bits: u32, g_bits: u32, b_bits: u32)
    ensures
        render_appended(
            final(commands_state),
            old(commands_state),
            color_command(Color { r_bits, g_bits, b_bits, a_bits: ONE_BITS }),
        ),
{
    push_color(commands_state, Color::rgb(r_bits, g_bits, b_bits));
}

pub fn push_color_rgba(
    commands_state: &mut CommandsState,
    r_bits: u32,
    g_bits: u32,
    b_bits: u32,
    a_bits: u32,
)
    ensures
        render_appended(
            final(commands_state),
            old(commands_state),
            color_command(Color { r_bits, g_bits, b_bits, a_bits }),
        ),
{
    push_color(commands_state, Color::rgba(r_bits, g_bits, b_bits, a_bits));
}

pub fn set_color_uniform(commands_state: &mut CommandsState)
    ensures
        render_appended(final(commands_state), old(commands_state), plain(RenderCommandType::SetColorUniform)),
{
    push_render_command(commands_state, RenderCommandType::SetColorUniform);
}

/// Selects camera `camera_id`: its id as an integer argument, then `SetCamera`.
pub fn set_camera(commands_state: &mut CommandsState, camera_id: usize)
    ensures
        render_extended(
            final(commands_state),
            old(commands_state),
            seq![
                render_command(RenderCommandType::PushInt32, CommandData::Int32(camera_id as i32)),
                plain(RenderCommandType::SetCamera),
            ],
        ),
{
    push_render_command_data(
        commands_state,
        RenderCommandType::PushInt32,
        CommandData::int32(camera_id as i32),
    );
    push_render_command(commands_state, RenderCommandType::SetCamera);
    proof {
        assert(commands_state.render_commands@ =~= old(commands_state).render_commands@ + seq![
            render_command(RenderCommandType::PushInt32, CommandData::Int32(camera_id as i32)),
            plain(RenderCommandType::SetCamera),
        ]);
    }
}

pub fn draw_lines(commands_state: &mut CommandsState)
    ensures
        render_appended(final(commands_state), old(commands_state), plain(RenderCommandType::DrawLines)),
{
    push_render_command(commands_state, RenderCommandType::DrawLines);
}

pub fn draw_text(commands_state: &mut CommandsState)
    ensures
        render_appended(final(commands_state), old(commands_state), plain(RenderCommandType::DrawText)),
{
    push_render_command(commands_state, RenderCommandType::DrawText);
}

pub fn draw_quads(commands_state: &mut CommandsState)
    ensures
        render_appended(final(commands_state), old(commands_state), plain(RenderCommandType::DrawQuads)),
{
    push_render_command(commands_state, RenderCommandType::DrawQuads);
}

pub fn push_vec2f(commands_state: &mut CommandsState, vec2f: Vec2f)
    ensures
        render_appended(final(commands_state), old(commands_state), vec2f_command(vec2f)),
{
    push_render_command_data(commands_state, RenderCommandType::PushVec2f, CommandData::vec2f(vec2f));
}

pub fn push_vec2f_xy(commands_state: &mut CommandsState, x_bits: u32, y_bits: u32)
    ensures
        render_appended(
            final(commands_state),
            old(commands_state),
            vec2f_command(Vec2f { x_bits, y_bits }),
        ),
{
    push_render_command_data(
        commands_state,
        RenderCommandType::PushVec2f,
        CommandData::vec2f(Vec2f::new(x_bits, y_bits)),
    );
}

/// The line list of a quad outline through the corners `a, b, c, d`:
/// the segments `a-b`, `b-c`, `c-d` and `d-a`.
pub open spec fn quad_lines(a: Vec2f, b: Vec2f, c: Vec2f, d: Vec2f) -> Seq<RenderCommand> {
    seq![
        vec2f_command(a),
        vec2f_command(b),
        vec2f_command(b),
        vec2f_command(c),
        vec2f_command(c),
        vec2f_command(d),
        vec2f_command(d),
        vec2f_command(a),
    ]
}

/// Pushes the outline of a quad as four line segments. The corners are given
/// in drawing order (for a rectangle at `pos` of size `size`: `pos`,
/// `pos + (size.x, 0)`, `pos + size`, `pos + (0, size.y)`).
pub fn push_quad_lines(
    commands_state: &mut CommandsState,
    a: Vec2f,
    b: Vec2f,
    c: Vec2f,
    d: Vec2f,
)
    ensures
        render_extended(final(commands_state), old(commands_state), quad_lines(a, b, c, d)),
{
    push_vec2f(commands_state, a);
    push_vec2f(commands_state, b);
    push_vec2f(commands_state, b);
    push_vec2f(commands_state, c);
    push_vec2f(commands_state, c);
    push_vec2f(commands_state, d);
    push_vec2f(commands_state, d);
    push_vec2f(commands_state, a);
    proof {
        assert(commands_state.render_commands@ =~= old(commands_state).render_commands@ + quad_lines(a, b, c, d));
    }
}

/// Tells the host to move camera `id` to `pos`.
pub fn update_camera_position(commands_state: &mut CommandsState, id: usize, pos: Vec2f)
    ensures
        exec_extended(
            final(commands_state),
            old(commands_state),
            seq![
                execution_command(ExecutionCommandType::PushInt32, CommandData::Int32(id as i32)),
                execution_command(ExecutionCommandType::PushVec2f, CommandData::Vec2f(pos)),
                execution_command(ExecutionCommandType::UpdateCameraPosition, CommandData::Empty),
            ],
        ),
{
    push_execution_command_data(commands_state, ExecutionCommandType::PushInt32, CommandData::int32(id as i32));
    push_execution_command_data(commands_state, ExecutionCommandType::PushVec2f, CommandData::vec2f(pos));
    push_execution_command(commands_state, ExecutionCommandType::UpdateCameraPosition);
    proof {
        assert(commands_state.exec_commands@ =~= old(commands_state).exec_commands@ + seq![
            execution_command(ExecutionCommandType::PushInt32, CommandData::Int32(id as i32)),
            execution_command(ExecutionCommandType::PushVec2f, CommandData::Vec2f(pos)),
            execution_command(ExecutionCommandType::UpdateCameraPosition, CommandData::Empty),
        ]);
    }
}

/// A color pushed with `push_color`, then `set_color_uniform` and
/// `draw_quads`, reaches the render queue as exactly those three commands,
/// in that order, after everything queued before, with the color's bits
/// unchanged.
pub proof fn lemma_color_quad_round_trip(
    s0: CommandsState,
    s1: CommandsState,
    s2: CommandsState,
    s3: CommandsState,
    color: Color,
)
    requires
        render_appended(&s1, &s0, color_command(color)),
        render_appended(&s2, &s1, plain(RenderCommandType::SetColorUniform)),
        render_appended(&s3, &s2, plain(RenderCommandType::DrawQuads)),
    ensures
        s3.render_commands@ == s0.render_commands@ + seq![
            color_command(color),
            plain(RenderCommandType::SetColorUniform),
            plain(RenderCommandType::DrawQuads),
        ],
        s3.render_commands@[s0.render_commands@.len() as int].data == CommandData::Color(color),
{
    assert(s3.render_commands@ =~= s0.render_commands@ + seq![
        color_command(color),
        plain(RenderCommandType::SetColorUniform),
        plain(RenderCommandType::DrawQuads),
    ]);
}

/// Appends compose: render commands appended by successive emitter calls
/// stand in the queue in call order, after those that were already there.
pub proof fn lemma_render_appends_compose(
    s0: CommandsState,
    s1: CommandsState,
    s2: CommandsState,
    first: Seq<RenderCommand>,
    second: Seq<RenderCommand>,
)
    requires
        render_extended(&s1, &s0, first),
        render_extended(&s2, &s1, second),
    ensures
        render_extended(&s2, &s0, first + second),
        s2.render_commands@.subrange(0, s0.render_commands@.len() as int) == s0.render_commands@,
{
    assert(s2.render_commands@ =~= s0.render_commands@ + (first + second));
    assert(s2.render_commands@.subrange(0, s0.render_commands@.len() as int) =~= s0.render_commands@);
}

} // verus!
