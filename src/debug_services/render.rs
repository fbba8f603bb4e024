//! The profiling overlay's drawing: the frame time, the table of the current
//! snapshot and the strip of the snapshot log, emitted through the graphics
//! API. Where things go on screen is decided by the caller, which passes the
//! positions of the table's columns and rows and of the strip's bars.
use crate::commands::{Color, CommandsState, RenderCommand, RenderCommandType, Vec2f, ONE_BITS};
use crate::debug_services::profile::{
    PerformanceCounterStatisticsRecord, ProfileState, PERFORMANCE_COUNTER_LOG_SIZE,
};
use crate::gapi::{
    color_command, draw_quads, draw_text, is_text_command, plain, push_color, push_color_shader,
    push_text_shader, push_text_vec2f, push_vec2f, saturating_advance, set_color_uniform, vec2f_command,
};
use crate::render_state::RenderState;
use vstd::prelude::*;
use vstd::string::StrSliceExecFns;
use vstd::utf8::encode_utf8;

verus! {

/// Columns of the profile table: thread, share, name, call site, hits per
/// frame, elapsed per frame, elapsed per hit.
pub const COLUMNS: usize = 7;

/// Bit pattern of the binary32 value `0.5`.
pub const HALF_BITS: u32 = 0x3F00_0000;

/// Bit pattern of the binary32 value `0.2`.
pub const FIFTH_BITS: u32 = 0x3E4C_CCCD;

/// Bit pattern of the binary32 value `5.0`.
pub const FIVE_BITS: u32 = 0x40A0_0000;

pub open spec fn black() -> Color {
    Color { r_bits: 0, g_bits: 0, b_bits: 0, a_bits: ONE_BITS }
}

pub open spec fn white() -> Color {
    Color { r_bits: ONE_BITS, g_bits: ONE_BITS, b_bits: ONE_BITS, a_bits: ONE_BITS }
}

pub open spec fn grey() -> Color {
    Color { r_bits: HALF_BITS, g_bits: HALF_BITS, b_bits: HALF_BITS, a_bits: ONE_BITS }
}

pub open spec fn dark_grey() -> Color {
    Color { r_bits: FIFTH_BITS, g_bits: FIFTH_BITS, b_bits: FIFTH_BITS, a_bits: ONE_BITS }
}

/// Black at half opacity.
pub open spec fn shade() -> Color {
    Color { r_bits: 0, g_bits: 0, b_bits: 0, a_bits: HALF_BITS }
}

// ---------------------------------------------------------------------------
// Texts.
/// The ASCII decimal digits of `n`.
pub open spec fn decimal(n: nat) -> Seq<u8>
    decreases n,
{
    if n < 10 {
        seq![(48 + n) as u8]
    } else {
        decimal(n / 10).push((48 + n % 10) as u8)
    }
}

/// `n` in hundredths, written with two decimals: `12.34`.
pub open spec fn hundredths(n: nat) -> Seq<u8> {
    decimal(n / 100) + seq![46u8, (48 + (n % 100) / 10) as u8, (48 + n % 10) as u8]
}

pub open spec fn frames_of(r: PerformanceCounterStatisticsRecord) -> nat {
    if r.hits > 0 {
        r.hits as nat
    } else {
        1
    }
}

/// The text of column `c` of the table row of `r`.
pub open spec fn cell_text(r: PerformanceCounterStatisticsRecord, c: int) -> Seq<u8> {
    if c == 0 {
        encode_utf8(r.thread_id@)
    } else if c == 1 {
        hundredths(r.percent as nat) + seq![37u8]
    } else if c == 2 {
        encode_utf8(r.name@)
    } else if c == 3 {
        encode_utf8(r.file_name@) + seq![58u8] + decimal(r.line as nat)
    } else if c == 4 {
        decimal(r.sum_hits as nat / frames_of(r)) + seq![104u8]
    } else if c == 5 {
        decimal(r.sum_elapsed as nat / frames_of(r)) + seq![32u8, 110u8, 115u8]
    } else {
        decimal(r.elapsed_per_hit as nat) + seq![32u8, 110u8, 115u8, 47u8, 104u8]
    }
}

/// The frame time in milliseconds with two decimals: `16.67 ms`.
pub open spec fn frame_time_text(elapsed_ns: u64) -> Seq<u8> {
    hundredths(elapsed_ns as nat / 10000) + seq![32u8, 109u8, 115u8]
}

/// Appends the decimal digits of `n`.
fn push_decimal(out: &mut Vec<u8>, n: u128)
    ensures
        final(out)@ == old(out)@ + decimal(n as nat),
    decreases n,
{
    let ghost before = out@;
    if n >= 10 {
        push_decimal(out, n / 10);
    }
    out.push((48 + n % 10) as u8);
    proof {
        if n >= 10 {
            assert(out@ =~= before + decimal(n as nat / 10).push((48 + n % 10) as u8));
        } else {
            assert(out@ =~= before + seq![(48 + n) as u8]);
        }
    }
}

/// Appends `n / 100` with two decimals.
fn push_hundredths(out: &mut Vec<u8>, n: u128)
    ensures
        final(out)@ == old(out)@ + hundredths(n as nat),
{
    let ghost before = out@;
    push_decimal(out, n / 100);
    out.push(46);
    out.push((48 + (n % 100) / 10) as u8);
    out.push((48 + n % 10) as u8);
    proof {
        assert(out@ =~= before + hundredths(n as nat));
    }
}

/// Appends the given bytes, in order.
fn push_bytes(out: &mut Vec<u8>, bytes: &[u8])
    ensures
        final(out)@ == old(out)@ + bytes@,
{
    let ghost before = out@;
    let mut i: usize = 0;
    while i < bytes.len()
        invariant
            i <= bytes@.len(),
            out@ == before + bytes@.take(i as int),
        decreases bytes@.len() - i,
    {
        out.push(bytes[i]);
        proof {
            assert(bytes@.take(i + 1) =~= bytes@.take(i as int).push(bytes@[i as int]));
        }
        i = i + 1;
    }
    proof {
        assert(bytes@.take(bytes@.len() as int) =~= bytes@);
    }
}

/// The UTF-8 bytes of `s`.
fn utf8_of(s: &String) -> (r: Vec<u8>)
    ensures
        r@ == encode_utf8(s@),
{
    s.as_str().as_bytes_vec()
}

/// The text of column `c` of the table row of `r`.
fn cell(r: &PerformanceCounterStatisticsRecord, c: usize) -> (t: Vec<u8>)
    requires
        c < COLUMNS,
    ensures
        t@ == cell_text(*r, c as int),
{
    let frames: u64 = if r.hits > 0 {
        r.hits
    } else {
        1
    };
    let mut t: Vec<u8> = Vec::new();
    if c == 0 {
        t = utf8_of(&r.thread_id);
    } else if c == 1 {
        push_hundredths(&mut t, r.percent as u128);
        t.push(37);
    } else if c == 2 {
        t = utf8_of(&r.name);
    } else if c == 3 {
        t = utf8_of(&r.file_name);
        t.push(58);
        push_decimal(&mut t, r.line as u128);
    } else if c == 4 {
        push_decimal(&mut t, r.sum_hits / (frames as u128));
        t.push(104);
    } else if c == 5 {
        push_decimal(&mut t, r.sum_elapsed / (frames as u128));
        push_bytes(&mut t, &[32u8, 110, 115]);
    } else {
        push_decimal(&mut t, r.elapsed_per_hit);
        push_bytes(&mut t, &[32u8, 110, 115, 47, 104]);
    }
    proof {
        assert(t@ =~= cell_text(*r, c as int));
    }
    t
}

// ---------------------------------------------------------------------------
// Drawing.
/// `cmds` holds, for each cell `k` of the table of `snap` (row `k / COLUMNS`,
/// column `k % COLUMNS`), its position and then its text.
pub open spec fn is_profile_table(
    cmds: Seq<RenderCommand>,
    snap: Seq<PerformanceCounterStatisticsRecord>,
    column_x: Seq<u32>,
    row_y: Seq<u32>,
) -> bool {
    &&& cmds.len() == 14 * snap.len()
    &&& forall|k: int|
        #![trigger cmds[2 * k]]
        0 <= k < 7 * snap.len() ==> {
            &&& cmds[2 * k] == vec2f_command(
                Vec2f { x_bits: column_x[k % 7], y_bits: row_y[k / 7] },
            )
            &&& is_text_command(cmds[2 * k + 1], cell_text(snap[k / 7], k % 7))
        }
}

/// The commands that close a block of text in color `c`.
pub open spec fn text_trailer(c: Color) -> Seq<RenderCommand> {
    seq![
        plain(RenderCommandType::PushTextShader),
        color_command(c),
        plain(RenderCommandType::SetColorUniform),
        plain(RenderCommandType::DrawText),
    ]
}

/// Draws the frame time of the last frame at `(5, 5)` in black.
pub fn render_frame_time(
    commands_state: &mut CommandsState,
    render_state: &mut RenderState,
    profile_state: &ProfileState,
)
    ensures
        ({
            let n0 = old(commands_state).render_commands@.len() as int;
            let cmds = final(commands_state).render_commands@;
            &&& cmds.len() == n0 + 6
            &&& cmds.subrange(0, n0) == old(commands_state).render_commands@
            &&& cmds[n0] == vec2f_command(Vec2f { x_bits: FIVE_BITS, y_bits: FIVE_BITS })
            &&& is_text_command(cmds[n0 + 1], frame_time_text(profile_state.frame_elapsed))
            &&& cmds.subrange(n0 + 2, n0 + 6) == text_trailer(black())
        }),
        final(commands_state).exec_commands@ == old(commands_state).exec_commands@,
        final(commands_state).request_commands@ == old(commands_state).request_commands@,
        final(render_state).text_sizes@ == old(render_state).text_sizes@,
        final(render_state).offset == saturating_advance(old(render_state).offset as int, 1),
{
    let mut text: Vec<u8> = Vec::new();
    push_hundredths(&mut text, (profile_state.frame_elapsed / 10000) as u128);
    push_bytes(&mut text, &[32u8, 109, 115]);
    proof {
        assert(text@ =~= frame_time_text(profile_state.frame_elapsed));
    }
    let ghost n0 = commands_state.render_commands@.len() as int;
    push_text_vec2f(commands_state, render_state, text, Vec2f::new(FIVE_BITS, FIVE_BITS));
    let ghost mid = commands_state.render_commands@;
    push_text_shader(commands_state);
    push_color(commands_state, Color::rgb(0, 0, 0));
    set_color_uniform(commands_state);
    draw_text(commands_state);
    proof {
        let cmds = commands_state.render_commands@;
        assert(cmds.subrange(0, n0 + 2) == mid);
        assert(cmds.subrange(0, n0) =~= mid.subrange(0, n0));
        assert(cmds[n0] == mid[n0]);
        assert(cmds[n0 + 1] == mid[n0 + 1]);
        assert(cmds.subrange(n0 + 2, n0 + 6) =~= text_trailer(black()));
    }
}

/// Draws the current snapshot: a translucent panel at `panel_pos` of size
/// `panel_size`, then one row of texts per record, at height `row_y[r]`
/// for row `r` and at `column_x[c]` for column `c`, then the text trailer
/// in white.
pub fn render_profile(
    commands_state: &mut CommandsState,
    render_state: &mut RenderState,
    profile_state: &ProfileState,
    panel_pos: Vec2f,
    panel_size: Vec2f,
    column_x: &Vec<u32>,
    row_y: &Vec<u32>,
)
    requires
        profile_state.wf(),
        column_x@.len() == COLUMNS,
        row_y@.len() == profile_state.current_snapshot().len(),
    ensures
        ({
            let n0 = old(commands_state).render_commands@.len() as int;
            let rows = profile_state.current_snapshot().len() as int;
            let t = 14 * rows;
            let cmds = final(commands_state).render_commands@;
            &&& cmds.len() == n0 + 6 + t + 4
            &&& cmds.subrange(0, n0) == old(commands_state).render_commands@
            &&& cmds.subrange(n0, n0 + 6) == seq![
                plain(RenderCommandType::PushColorShader),
                color_command(shade()),
                plain(RenderCommandType::SetColorUniform),
                vec2f_command(panel_pos),
                vec2f_command(panel_size),
                plain(RenderCommandType::DrawQuads),
            ]
            &&& is_profile_table(
                cmds.subrange(n0 + 6, n0 + 6 + t),
                profile_state.current_snapshot(),
                column_x@,
                row_y@,
            )
            &&& cmds.subrange(n0 + 6 + t, n0 + 6 + t + 4) == text_trailer(white())
        }),
        final(commands_state).exec_commands@ == old(commands_state).exec_commands@,
        final(commands_state).request_commands@ == old(commands_state).request_commands@,
        final(render_state).text_sizes@ == old(render_state).text_sizes@,
        final(render_state).offset == saturating_advance(
            old(render_state).offset as int,
            7 * profile_state.current_snapshot().len() as int,
        ),
{
    let ghost n0 = commands_state.render_commands@.len() as int;
    push_color_shader(commands_state);
    push_color(commands_state, Color::rgba(0, 0, 0, HALF_BITS));
    set_color_uniform(commands_state);
    push_vec2f(commands_state, panel_pos);
    push_vec2f(commands_state, panel_size);
    draw_quads(commands_state);
    let ghost header = commands_state.render_commands@;
    proof {
        assert(header.subrange(n0, n0 + 6) =~= seq![
            plain(RenderCommandType::PushColorShader),
            color_command(shade()),
            plain(RenderCommandType::SetColorUniform),
            vec2f_command(panel_pos),
            vec2f_command(panel_size),
            plain(RenderCommandType::DrawQuads),
        ]);
    }
    let snapshot = &profile_state.performance_counter_log[profile_state.snapshot_counter].records;
    let ghost snap = snapshot@;
    let ghost offset0 = render_state.offset as int;
    let ghost base = n0 + 6;
    let mut r: usize = 0;
    while r < snapshot.len()
        invariant
            snap == snapshot@,
            snap == profile_state.current_snapshot(),
            r <= snap.len(),
            column_x@.len() == COLUMNS,
            row_y@.len() == snap.len(),
            base == n0 + 6,
            commands_state.render_commands@.len() == base + 14 * r,
            commands_state.render_commands@.subrange(0, base) == header,
            header.len() == base,
            forall|k: int|
                #![trigger commands_state.render_commands@[base + 2 * k]]
                0 <= k < 7 * r ==> {
                    &&& commands_state.render_commands@[base + 2 * k] == vec2f_command(
                        Vec2f { x_bits: column_x@[k % 7], y_bits: row_y@[k / 7] },
                    )
                    &&& is_text_command(
                        commands_state.render_commands@[base + 2 * k + 1],
                        cell_text(snap[k / 7], k % 7),
                    )
                },
            commands_state.exec_commands@ == old(commands_state).exec_commands@,
            commands_state.request_commands@ == old(commands_state).request_commands@,
            render_state.text_sizes@ == old(render_state).text_sizes@,
            render_state.offset == saturating_advance(offset0, 7 * r),
        decreases snap.len() - r,
    {
        let mut c: usize = 0;
        while c < COLUMNS
            invariant
                snap == snapshot@,
                r < snap.len(),
                c <= COLUMNS,
                column_x@.len() == COLUMNS,
                row_y@.len() == snap.len(),
                commands_state.render_commands@.len() == base + 2 * (7 * r + c),
                commands_state.render_commands@.subrange(0, base) == header,
                header.len() == base,
                forall|k: int|
                    #![trigger commands_state.render_commands@[base + 2 * k]]
                    0 <= k < 7 * r + c ==> {
                        &&& commands_state.render_commands@[base + 2 * k] == vec2f_command(
                            Vec2f { x_bits: column_x@[k % 7], y_bits: row_y@[k / 7] },
                        )
                        &&& is_text_command(
                            commands_state.render_commands@[base + 2 * k + 1],
                            cell_text(snap[k / 7], k % 7),
                        )
                    },
                commands_state.exec_commands@ == old(commands_state).exec_commands@,
                commands_state.request_commands@ == old(commands_state).request_commands@,
                render_state.text_sizes@ == old(render_state).text_sizes@,
                render_state.offset == saturating_advance(offset0, 7 * r + c),
            decreases COLUMNS - c,
        {
            let text = cell(&snapshot[r], c);
            let ghost before = commands_state.render_commands@;
            let ghost k = (7 * r + c) as int;
            push_text_vec2f(commands_state, render_state, text, Vec2f::new(column_x[c], row_y[r]));
            proof {
                let cmds = commands_state.render_commands@;
                assert(k / 7 == r as int);
                assert(k % 7 == c as int);
                assert(cmds.subrange(0, base) =~= before.subrange(0, base));
                assert forall|j: int|
                    #![trigger cmds[base + 2 * j]]
                    0 <= j < k + 1 implies {
                        &&& cmds[base + 2 * j] == vec2f_command(
                            Vec2f { x_bits: column_x@[j % 7], y_bits: row_y@[j / 7] },
                        )
                        &&& is_text_command(
                            cmds[base + 2 * j + 1],
                            cell_text(snap[j / 7], j % 7),
                        )
                    } by {
                    if j < k {
                        assert(cmds[base + 2 * j] == before[base + 2 * j]);
                        assert(cmds[base + 2 * j + 1] == before[base + 2 * j + 1]);
                    }
                }
            }
            c = c + 1;
        }
        r = r + 1;
    }
    let ghost table_end = commands_state.render_commands@;
    push_text_shader(commands_state);
    push_color(commands_state, Color::rgb(ONE_BITS, ONE_BITS, ONE_BITS));
    set_color_uniform(commands_state);
    draw_text(commands_state);
    proof {
        let cmds = commands_state.render_commands@;
        let t = 14 * snap.len();
        assert(cmds.subrange(0, base + t) == table_end);
        assert(cmds.subrange(0, n0) =~= header.subrange(0, n0));
        assert(cmds.subrange(n0, n0 + 6) =~= header.subrange(n0, n0 + 6));
        assert(cmds.subrange(base + t, base + t + 4) =~= text_trailer(white()));
        let table = cmds.subrange(base, base + t);
        assert forall|k: int|
            #![trigger table[2 * k]]
            0 <= k < 7 * snap.len() implies {
                &&& table[2 * k] == vec2f_command(
                    Vec2f { x_bits: column_x@[k % 7], y_bits: row_y@[k / 7] },
                )
                &&& is_text_command(table[2 * k + 1], cell_text(snap[k / 7], k % 7))
            } by {
            assert(table[2 * k] == table_end[base + 2 * k]);
            assert(table[2 * k + 1] == table_end[base + 2 * k + 1]);
        }
    }
}

/// The commands of the bar of log slot `i`, at `(x, y)` of size `size`;
/// the bar of the newest slot `current` is white.
pub open spec fn bar_commands(i: int, current: int, x: u32, y: u32, size: Vec2f) -> Seq<RenderCommand> {
    seq![
        color_command(if i == current { white() } else { dark_grey() }),
        plain(RenderCommandType::SetColorUniform),
        vec2f_command(Vec2f { x_bits: x, y_bits: y }),
        vec2f_command(size),
        plain(RenderCommandType::DrawQuads),
    ]
}

/// Draws the strip of the snapshot log: a grey frame at `frame_pos` of size
/// `frame_size`, then one bar per log slot, slot `i` at `(bar_x[i], bar_y)`,
/// the newest slot highlighted.
pub fn render_frames_slider(
    commands_state: &mut CommandsState,
    profile_state: &ProfileState,
    frame_pos: Vec2f,
    frame_size: Vec2f,
    bar_x: &Vec<u32>,
    bar_y: u32,
    bar_size: Vec2f,
)
    requires
        bar_x@.len() == PERFORMANCE_COUNTER_LOG_SIZE,
    ensures
        ({
            let n0 = old(commands_state).render_commands@.len() as int;
            let cmds = final(commands_state).render_commands@;
            &&& cmds.len() == n0 + 6 + 5 * PERFORMANCE_COUNTER_LOG_SIZE
            &&& cmds.subrange(0, n0) == old(commands_state).render_commands@
            &&& cmds.subrange(n0, n0 + 6) == seq![
                plain(RenderCommandType::PushColorShader),
                vec2f_command(frame_pos),
                color_command(grey()),
                plain(RenderCommandType::SetColorUniform),
                vec2f_command(frame_size),
                plain(RenderCommandType::DrawQuads),
            ]
            &&& forall|i: int|
                0 <= i < PERFORMANCE_COUNTER_LOG_SIZE ==> #[trigger] cmds.subrange(
                    n0 + 6 + 5 * i,
                    n0 + 11 + 5 * i,
                ) == bar_commands(i, profile_state.snapshot_counter as int, bar_x@[i], bar_y, bar_size)
        }),
        final(commands_state).exec_commands@ == old(commands_state).exec_commands@,
        final(commands_state).request_commands@ == old(commands_state).request_commands@,
{
    let ghost n0 = commands_state.render_commands@.len() as int;
    push_color_shader(commands_state);
    push_vec2f(commands_state, frame_pos);
    push_color(commands_state, Color::rgb(HALF_BITS, HALF_BITS, HALF_BITS));
    set_color_uniform(commands_state);
    push_vec2f(commands_state, frame_size);
    draw_quads(commands_state);
    let ghost header = commands_state.render_commands@;
    proof {
        assert(header.subrange(n0, n0 + 6) =~= seq![
            plain(RenderCommandType::PushColorShader),
            vec2f_command(frame_pos),
            color_command(grey()),
            plain(RenderCommandType::SetColorUniform),
            vec2f_command(frame_size),
            plain(RenderCommandType::DrawQuads),
        ]);
    }
    let current = profile_state.snapshot_counter;
    let mut i: usize = 0;
    while i < PERFORMANCE_COUNTER_LOG_SIZE
        invariant
            i <= PERFORMANCE_COUNTER_LOG_SIZE,
            bar_x@.len() == PERFORMANCE_COUNTER_LOG_SIZE,
            current == profile_state.snapshot_counter,
            header.len() == n0 + 6,
            commands_state.render_commands@.len() == n0 + 6 + 5 * i,
            commands_state.render_commands@.subrange(0, n0 + 6) == header,
            forall|j: int|
                0 <= j < i ==> #[trigger] commands_state.render_commands@.subrange(
                    n0 + 6 + 5 * j,
                    n0 + 11 + 5 * j,
                ) == bar_commands(j, current as int, bar_x@[j], bar_y, bar_size),
            commands_state.exec_commands@ == old(commands_state).exec_commands@,
            commands_state.request_commands@ == old(commands_state).request_commands@,
        decreases PERFORMANCE_COUNTER_LOG_SIZE - i,
    {
        let ghost before = commands_state.render_commands@;
        if current == i {
            push_color(commands_state, Color::rgb(ONE_BITS, ONE_BITS, ONE_BITS));
        } else {
            push_color(commands_state, Color::rgb(FIFTH_BITS, FIFTH_BITS, FIFTH_BITS));
        }
        set_color_uniform(commands_state);
        push_vec2f(commands_state, Vec2f::new(bar_x[i], bar_y));
        push_vec2f(commands_state, bar_size);
        draw_quads(commands_state);
        proof {
            let cmds = commands_state.render_commands@;
            assert(cmds.subrange(0, before.len() as int) =~= before);
            assert(cmds.subrange(0, n0 + 6) =~= before.subrange(0, n0 + 6));
            assert(cmds.subrange(n0 + 6 + 5 * i, n0 + 11 + 5 * i) =~= bar_commands(
                i as int,
                current as int,
                bar_x@[i as int],
                bar_y,
                bar_size,
            ));
            assert forall|j: int| 0 <= j < i + 1 implies #[trigger] cmds.subrange(
                n0 + 6 + 5 * j,
                n0 + 11 + 5 * j,
            ) == bar_commands(j, current as int, bar_x@[j], bar_y, bar_size) by {
                if j < i {
                    assert(cmds.subrange(n0 + 6 + 5 * j, n0 + 11 + 5 * j) =~= before.subrange(
                        n0 + 6 + 5 * j,
                        n0 + 11 + 5 * j,
                    ));
                }
            }
        }
        i = i + 1;
    }
    proof {
        assert(commands_state.render_commands@.subrange(0, n0) =~= header.subrange(0, n0));
        assert(commands_state.render_commands@.subrange(n0, n0 + 6) =~= header.subrange(n0, n0 + 6));
    }
}

} // verus!
