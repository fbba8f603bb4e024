use canvas_core::commands::{CommandData, CommandsState, RenderCommandType, Vec2f, ONE_BITS};
use canvas_core::debug_services::profile::{
    frame_end, ClocsDebugRecord, PerformanceCounterState, ProfileState, PERFORMANCE_COUNTER_LOG_SIZE,
};
use canvas_core::debug_services::render::{
    render_frame_time, render_frames_slider, render_profile, COLUMNS, FIFTH_BITS, HALF_BITS,
};
use canvas_core::render_state::RenderState;

fn text_at(commands: &CommandsState, index: usize) -> String {
    match &commands.render_commands[index].data {
        CommandData::Bytes(b) => String::from_utf8(b.clone()).unwrap(),
        other => panic!("not a text: {:?}", other),
    }
}

fn profile_with_one_snapshot() -> ProfileState {
    let mut profile = ProfileState::new();
    profile.performance_counter_states[0] = PerformanceCounterState {
        records: vec![
            ClocsDebugRecord {
                name: "step".to_string(),
                file_name: "lib.rs".to_string(),
                line: 42,
                elapsed: 3000,
                hits: 2,
                thread_id: "ThreadId(1)".to_string(),
            },
            ClocsDebugRecord {
                name: "render".to_string(),
                file_name: "lib.rs".to_string(),
                line: 7,
                elapsed: 1000,
                hits: 1,
                thread_id: "ThreadId(2)".to_string(),
            },
        ],
    };
    for _ in 0..3 {
        frame_end(&mut profile, 0);
    }
    profile
}

#[test]
fn profile_table_rows_and_texts() {
    let profile = profile_with_one_snapshot();
    let mut commands = CommandsState::new();
    let mut render_state = RenderState::default();
    let column_x: Vec<u32> = (0..COLUMNS as u32).collect();
    let row_y = vec![100, 200];
    render_profile(&mut commands, &mut render_state, &profile, Vec2f::new(1, 2), Vec2f::new(3, 4), &column_x, &row_y);
    assert_eq!(commands.render_commands.len(), 6 + 2 * COLUMNS * 2 + 4);
    assert_eq!(commands.render_commands[0].command_type, RenderCommandType::PushColorShader);
    assert_eq!(commands.render_commands[3].data, CommandData::Vec2f(Vec2f::new(1, 2)));
    assert_eq!(commands.render_commands[4].data, CommandData::Vec2f(Vec2f::new(3, 4)));
    assert_eq!(commands.render_commands[5].command_type, RenderCommandType::DrawQuads);
    let texts: Vec<String> = (0..2 * COLUMNS).map(|k| text_at(&commands, 6 + 2 * k + 1)).collect();
    assert_eq!(
        texts,
        vec![
            "ThreadId(1)", "75.00%", "step", "lib.rs:42", "2h", "3000 ns", "1500 ns/h",
            "ThreadId(2)", "25.00%", "render", "lib.rs:7", "1h", "1000 ns", "1000 ns/h",
        ]
    );
    assert_eq!(commands.render_commands[6 + 2 * 8].data, CommandData::Vec2f(Vec2f::new(1, 200)));
    assert_eq!(commands.render_commands.last().unwrap().command_type, RenderCommandType::DrawText);
    assert_eq!(render_state.offset, 2 * COLUMNS);
}

#[test]
fn slider_highlights_the_newest_slot() {
    let profile = profile_with_one_snapshot();
    let mut commands = CommandsState::new();
    let bar_x: Vec<u32> = (0..PERFORMANCE_COUNTER_LOG_SIZE as u32).collect();
    render_frames_slider(&mut commands, &profile, Vec2f::zero(), Vec2f::new(9, 9), &bar_x, 5, Vec2f::new(3, 25));
    assert_eq!(commands.render_commands.len(), 6 + 5 * PERFORMANCE_COUNTER_LOG_SIZE);
    let highlighted: Vec<usize> = (0..PERFORMANCE_COUNTER_LOG_SIZE)
        .filter(|i| match &commands.render_commands[6 + 5 * i].data {
            CommandData::Color(c) => c.r_bits == ONE_BITS,
            _ => false,
        })
        .collect();
    assert_eq!(highlighted, vec![profile.snapshot_counter]);
    match &commands.render_commands[6 + 5 * 3].data {
        CommandData::Color(c) => assert_eq!(c.r_bits, FIFTH_BITS),
        other => panic!("not a color: {:?}", other),
    }
    assert_eq!(commands.render_commands[6 + 5 * 3 + 2].data, CommandData::Vec2f(Vec2f::new(3, 5)));
    assert_eq!(f32::from_bits(HALF_BITS), 0.5);
    assert_eq!(f32::from_bits(FIFTH_BITS), 0.2);
}

#[test]
fn frame_time_in_milliseconds() {
    let mut profile = ProfileState::new();
    canvas_core::debug_services::profile::frame_start(&mut profile, 1_000);
    frame_end(&mut profile, 16_671_000);
    let mut commands = CommandsState::new();
    let mut render_state = RenderState::default();
    render_frame_time(&mut commands, &mut render_state, &profile);
    assert_eq!(commands.render_commands.len(), 6);
    assert_eq!(text_at(&commands, 1), "16.67 ms");
    match &commands.render_commands[0].data {
        CommandData::Vec2f(v) => assert_eq!((f32::from_bits(v.x_bits), f32::from_bits(v.y_bits)), (5.0, 5.0)),
        other => panic!("not a position: {:?}", other),
    }
}
