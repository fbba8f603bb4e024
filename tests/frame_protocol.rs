use canvas_core::commands::{
    push_request_command, CommandData, CommandsState, Color, ExecutionCommandType, RenderCommand,
    RenderCommandType, RequestCommand, RequestCommandType, Vec2f, Vec2i, ONE_BITS,
};
use canvas_core::components::{LayersState, Touch, TouchState};
use canvas_core::gapi;
use canvas_core::memory::{CommandsDataMemory, MemoryState};
use canvas_core::render_state::RenderState;
use canvas_core::systems::{camera_drag_step, ui_node_step};
use canvas_core::{
    flush, frame_end, get_exec_commands, get_render_commands, handle_request_command, init_world,
    push_on_touch_end_request_command, push_on_touch_move_request_command,
    push_on_touch_start_request_command, push_set_view_port_size_request_command, push_text_size,
    render_state_flush, send_request_commands, step, RequestOutcome,
};

fn v2(x: f32, y: f32) -> Vec2f {
    Vec2f::new(x.to_bits(), y.to_bits())
}

fn request(command_type: RequestCommandType, data: CommandData) -> RequestCommand {
    RequestCommand { command_type, data }
}

#[test]
fn flush_empties_all_three_queues() {
    let mut core = init_world();
    gapi::push_color_shader(&mut core.commands);
    gapi::update_camera_position(&mut core.commands, 1, v2(1.0, 2.0));
    push_set_view_port_size_request_command(&mut core, Vec2i::new(10, 20));
    assert_eq!(get_render_commands(&core).len(), 1);
    assert_eq!(get_exec_commands(&core).len(), 3);
    assert_eq!(core.commands.request_commands.len(), 2);
    flush(&mut core);
    assert_eq!(get_render_commands(&core).len(), 0);
    assert_eq!(get_exec_commands(&core).len(), 0);
    assert_eq!(core.commands.request_commands.len(), 0);
}

#[test]
fn commands_keep_their_order_until_flush() {
    let mut core = init_world();
    gapi::push_color_shader(&mut core.commands);
    gapi::draw_lines(&mut core.commands);
    gapi::push_text_shader(&mut core.commands);
    let types: Vec<RenderCommandType> =
        get_render_commands(&core).iter().map(|c| c.command_type).collect();
    assert_eq!(
        types,
        vec![
            RenderCommandType::PushColorShader,
            RenderCommandType::DrawLines,
            RenderCommandType::PushTextShader
        ]
    );
    flush(&mut core);
    gapi::draw_text(&mut core.commands);
    assert_eq!(get_render_commands(&core).len(), 1);
    assert_eq!(get_render_commands(&core)[0].command_type, RenderCommandType::DrawText);
}

#[test]
fn color_uniform_quads_round_trip() {
    let mut commands = CommandsState::new();
    let color = Color::rgba(0.25f32.to_bits(), 0.5f32.to_bits(), 0.75f32.to_bits(), 0.125f32.to_bits());
    gapi::push_color(&mut commands, color);
    gapi::set_color_uniform(&mut commands);
    gapi::draw_quads(&mut commands);
    assert_eq!(commands.render_commands.len(), 3);
    assert_eq!(
        commands.render_commands[0],
        RenderCommand { command_type: RenderCommandType::PushColor, data: CommandData::Color(color) }
    );
    assert_eq!(commands.render_commands[1].command_type, RenderCommandType::SetColorUniform);
    assert_eq!(commands.render_commands[2].command_type, RenderCommandType::DrawQuads);
    match &commands.render_commands[0].data {
        CommandData::Color(c) => {
            assert_eq!(f32::from_bits(c.r_bits), 0.25);
            assert_eq!(f32::from_bits(c.g_bits), 0.5);
            assert_eq!(f32::from_bits(c.b_bits), 0.75);
            assert_eq!(f32::from_bits(c.a_bits), 0.125);
        }
        other => panic!("unexpected payload {:?}", other),
    }
}

#[test]
fn push_color_rgba_keeps_channel_order() {
    let mut commands = CommandsState::new();
    gapi::push_color_rgba(&mut commands, 1, 2, 3, 4);
    gapi::push_color_rgb(&mut commands, 5, 6, 7);
    assert_eq!(commands.render_commands[0].data, CommandData::Color(Color::rgba(1, 2, 3, 4)));
    assert_eq!(commands.render_commands[1].data, CommandData::Color(Color::rgba(5, 6, 7, ONE_BITS)));
    assert_eq!(f32::from_bits(ONE_BITS), 1.0);
}

#[test]
fn set_camera_pushes_id_then_command() {
    let mut commands = CommandsState::new();
    gapi::set_camera(&mut commands, gapi::CAMERA_ORTHO);
    assert_eq!(commands.render_commands.len(), 2);
    assert_eq!(commands.render_commands[0].command_type, RenderCommandType::PushInt32);
    assert_eq!(commands.render_commands[0].data, CommandData::Int32(1));
    assert_eq!(commands.render_commands[1].command_type, RenderCommandType::SetCamera);
    assert_eq!(commands.render_commands[1].data, CommandData::Empty);
}

#[test]
fn update_camera_position_emits_three_exec_commands() {
    let mut commands = CommandsState::new();
    let pos = v2(-320.0, -240.0);
    gapi::update_camera_position(&mut commands, 1, pos);
    let types: Vec<ExecutionCommandType> = commands.exec_commands.iter().map(|c| c.command_type).collect();
    assert_eq!(
        types,
        vec![
            ExecutionCommandType::PushInt32,
            ExecutionCommandType::PushVec2f,
            ExecutionCommandType::UpdateCameraPosition
        ]
    );
    assert_eq!(commands.exec_commands[0].data, CommandData::Int32(1));
    assert_eq!(commands.exec_commands[1].data, CommandData::Vec2f(pos));
    assert_eq!(commands.render_commands.len(), 0);
}

#[test]
fn quad_lines_visit_the_four_edges() {
    let mut commands = CommandsState::new();
    let (a, b, c, d) = (v2(0.0, 0.0), v2(4.0, 0.0), v2(4.0, 3.0), v2(0.0, 3.0));
    gapi::push_quad_lines(&mut commands, a, b, c, d);
    let points: Vec<Vec2f> = commands
        .render_commands
        .iter()
        .map(|cmd| match &cmd.data {
            CommandData::Vec2f(v) => *v,
            other => panic!("unexpected payload {:?}", other),
        })
        .collect();
    assert_eq!(points, vec![a, b, b, c, c, d, d, a]);
}

#[test]
fn push_string_carries_utf8_bytes_and_measured_size() {
    let mut commands = CommandsState::new();
    let mut render_state = RenderState::default();
    render_state.push(v2(30.0, 12.0));
    let size = gapi::push_string_xy(&mut commands, &mut render_state, "héllo", 5.0f32.to_bits(), 6.0f32.to_bits());
    assert_eq!(size, v2(30.0, 12.0));
    assert_eq!(commands.render_commands.len(), 2);
    assert_eq!(commands.render_commands[0].data, CommandData::Vec2f(v2(5.0, 6.0)));
    assert_eq!(commands.render_commands[1].command_type, RenderCommandType::PushString);
    assert_eq!(commands.render_commands[1].data, CommandData::Bytes("héllo".as_bytes().to_vec()));
    let second = gapi::push_string(&mut commands, &mut render_state, "");
    assert_eq!(second, Vec2f::zero());
    assert_eq!(commands.render_commands[2].data, CommandData::Bytes(Vec::new()));
}

#[test]
fn text_sizes_are_read_in_order_and_rewound_by_flush() {
    let mut core = init_world();
    push_text_size(&mut core, v2(1.0, 2.0));
    push_text_size(&mut core, v2(3.0, 4.0));
    assert_eq!(core.render_state.next_text_size(), v2(1.0, 2.0));
    assert_eq!(core.render_state.next_text_size(), v2(3.0, 4.0));
    assert_eq!(core.render_state.next_text_size(), Vec2f::zero());
    flush(&mut core);
    assert_eq!(core.render_state.offset, 0);
    assert_eq!(core.render_state.next_text_size(), v2(1.0, 2.0));
    render_state_flush(&mut core);
    assert_eq!(core.render_state.next_text_size(), Vec2f::zero());
}

#[test]
fn wire_codes() {
    assert_eq!(RenderCommandType::PushColor.code(), 0);
    assert_eq!(RenderCommandType::PushInt32.code(), 11);
    assert_eq!(RenderCommandType::SetCamera.code(), 10);
    assert_eq!(RenderCommandType::DrawText.code(), 7);
    assert_eq!(RequestCommandType::PushVec2i.code(), 5);
    assert_eq!(RequestCommandType::OnTouchMove.code(), 4);
    assert_eq!(ExecutionCommandType::PushInt32.code(), 2);
    assert_eq!(ExecutionCommandType::UpdateCameraPosition.code(), 1);
    assert_eq!(RequestCommandType::from_code(1), Some(RequestCommandType::SetViewportSize));
    assert_eq!(RequestCommandType::from_code(5), Some(RequestCommandType::PushVec2i));
    assert_eq!(RequestCommandType::from_code(6), None);
    assert_eq!(RequestCommandType::from_code(-1), None);
}

#[test]
fn viewport_resize_request() {
    let mut core = init_world();
    send_request_commands(
        &mut core,
        vec![
            request(RequestCommandType::PushVec2i, CommandData::vec2i(Vec2i::new(800, 600))),
            request(RequestCommandType::SetViewportSize, CommandData::Empty),
        ],
    );
    let outcomes = step(&mut core);
    assert_eq!(outcomes, vec![RequestOutcome::Stored, RequestOutcome::Applied]);
    assert_eq!(core.view_port.width, 800);
    assert_eq!(core.view_port.height, 600);
    assert_eq!(core.memory.commands_data.vec2i_data.len(), 0);
    assert_eq!(core.memory.commands_data.vec2f_data.len(), 0);
}

#[test]
fn viewport_resize_through_push_helper() {
    let mut core = init_world();
    push_set_view_port_size_request_command(&mut core, Vec2i::new(1024, 768));
    step(&mut core);
    assert_eq!((core.view_port.width, core.view_port.height), (1024, 768));
}

#[test]
fn unconsumed_argument_is_cleared_by_next_terminal() {
    let mut core = init_world();
    send_request_commands(
        &mut core,
        vec![
            request(RequestCommandType::PushVec2f, CommandData::vec2f(v2(1.0, 1.0))),
            request(RequestCommandType::SetViewportSize, CommandData::Empty),
        ],
    );
    let outcomes = step(&mut core);
    assert_eq!(outcomes, vec![RequestOutcome::Stored, RequestOutcome::MissingArgument]);
    assert_eq!(core.memory.commands_data.vec2f_data.len(), 0);
    assert_eq!(core.memory.commands_data.vec2i_data.len(), 0);
    assert_eq!((core.view_port.width, core.view_port.height), (0, 0));
}

#[test]
fn arguments_wait_for_a_terminal_command() {
    let mut memory = CommandsDataMemory::new();
    let mut view_port = init_world().view_port;
    let mut touch = TouchState::new();
    let push = request(RequestCommandType::PushVec2f, CommandData::vec2f(v2(2.0, 3.0)));
    assert_eq!(handle_request_command(&push, &mut memory, &mut view_port, &mut touch), RequestOutcome::Stored);
    assert_eq!(handle_request_command(&push, &mut memory, &mut view_port, &mut touch), RequestOutcome::Stored);
    assert_eq!(memory.vec2f_data.len(), 2);
    let start = request(RequestCommandType::OnTouchStart, CommandData::Empty);
    assert_eq!(handle_request_command(&start, &mut memory, &mut view_port, &mut touch), RequestOutcome::Applied);
    assert_eq!(memory.vec2f_data.len(), 0);
    assert_eq!(touch.touch, Touch::Start);
}

#[test]
fn malformed_argument_payload_is_not_pushed() {
    let mut memory = CommandsDataMemory::new();
    let mut view_port = init_world().view_port;
    let mut touch = TouchState::new();
    let bad = request(RequestCommandType::PushVec2i, CommandData::vec2f(v2(2.0, 3.0)));
    assert_eq!(
        handle_request_command(&bad, &mut memory, &mut view_port, &mut touch),
        RequestOutcome::MalformedPayload
    );
    assert_eq!(memory.vec2f_data.len() + memory.vec2i_data.len(), 0);
}

#[test]
fn touch_move_without_start_is_ignored() {
    let mut core = init_world();
    push_on_touch_move_request_command(&mut core, v2(15.0, 12.0));
    step(&mut core);
    assert_eq!(core.touch_state.touch, Touch::Idle);
    assert_eq!(core.touch_state.touch_current, Vec2f::zero());
    assert_eq!(core.touch_state.pos, v2(15.0, 12.0));
    flush(&mut core);
    push_on_touch_end_request_command(&mut core, v2(15.0, 12.0));
    step(&mut core);
    assert_eq!(core.touch_state.touch, Touch::Idle);
}

#[test]
fn touch_gesture_goes_through_start_move_end() {
    let mut core = init_world();
    push_on_touch_start_request_command(&mut core, v2(10.0, 10.0));
    step(&mut core);
    assert_eq!(core.touch_state.touch, Touch::Start);
    assert_eq!(core.touch_state.touch_start, v2(10.0, 10.0));
    flush(&mut core);
    push_on_touch_move_request_command(&mut core, v2(15.0, 12.0));
    step(&mut core);
    assert_eq!(core.touch_state.touch, Touch::Move);
    flush(&mut core);
    push_on_touch_end_request_command(&mut core, v2(15.0, 12.0));
    step(&mut core);
    assert_eq!(core.touch_state.touch, Touch::End);
    assert_eq!(core.touch_state.touch_current, v2(15.0, 12.0));
    assert_eq!(core.touch_state.touch_start, v2(10.0, 10.0));
}

#[test]
fn frame_end_resets_touch_and_hover() {
    let mut core = init_world();
    push_on_touch_start_request_command(&mut core, v2(1.0, 1.0));
    step(&mut core);
    core.layers_state.ui_layer_is_hot = true;
    frame_end(&mut core, 0);
    assert_eq!(core.touch_state.touch, Touch::Idle);
    assert!(!core.layers_state.ui_layer_is_hot);
}

#[test]
fn layers_reset_and_memory_flush() {
    let mut layers = LayersState { ui_layer_is_hot: true };
    layers.reset();
    assert!(!layers.ui_layer_is_hot);
    let mut memory = MemoryState::new();
    memory.commands_data.vec2i_data.push(Vec2i::new(1, 2));
    memory.commands_data.vec2f_data.push(Vec2f::zero());
    canvas_core::memory::flush(&mut memory);
    assert_eq!(memory.commands_data.vec2f_data.len() + memory.commands_data.vec2i_data.len(), 0);
    let mut commands = CommandsState::new();
    push_request_command(&mut commands, RequestCommandType::SetViewportSize);
    assert_eq!(commands.request_commands[0].data, CommandData::Empty);
    assert_eq!(Vec2i::zero(), Vec2i::new(0, 0));
}

#[test]
fn camera_drag_decisions() {
    let skip = camera_drag_step(true, false, Touch::Start);
    assert!(skip.skip && !skip.grab && !skip.follow && !skip.stop);
    assert!(skip.layers_hot && !skip.camera_hot);
    let grab = camera_drag_step(false, false, Touch::Start);
    assert!(grab.grab && grab.follow && !grab.stop && grab.layers_hot && grab.camera_hot);
    let drag = camera_drag_step(true, true, Touch::Move);
    assert!(!drag.grab && drag.follow && drag.layers_hot && drag.camera_hot);
    let end = camera_drag_step(true, true, Touch::End);
    assert!(end.stop && !end.follow && !end.layers_hot && !end.camera_hot);
    let idle = camera_drag_step(false, false, Touch::Idle);
    assert!(idle.stop && !idle.skip);
}

#[test]
fn overlay_node_decisions() {
    let over_start = ui_node_step(true, Touch::Start, false);
    assert!(over_start.is_hot && over_start.toggled && over_start.layers_hot);
    let over_move = ui_node_step(true, Touch::Move, false);
    assert!(over_move.is_hot && !over_move.toggled && over_move.layers_hot);
    let away = ui_node_step(false, Touch::Start, true);
    assert!(!away.is_hot && !away.toggled && away.layers_hot);
    let away_cold = ui_node_step(false, Touch::Idle, false);
    assert!(!away_cold.layers_hot);
}
