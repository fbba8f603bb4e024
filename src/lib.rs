//! The simulation core of an interactive 2D canvas: frame command queues
//! shared with a host renderer, the request-command dispatcher, the frame
//! lifecycle hooks, and the profiling engine with its console.
pub mod commands;
pub mod components;
pub mod debug_services;
pub mod gapi;
pub mod memory;
pub mod render_state;
pub mod systems;

use crate::commands::{
    push_request_command, push_request_command_data, request_command,
    CommandData, CommandsState, ExecutionCommand, RenderCommand, RequestCommand,
    RequestCommandType, Vec2f, Vec2i,
};
use crate::components::{LayersState, Touch, TouchState, ViewPortSize};
use crate::debug_services::api;
use crate::debug_services::commands::{full_name, is_registered, registered_index, Command, CommandExecutor};
use crate::debug_services::profile::{frame_ended, ProfileState, DEFAULT_SNAPSHOT_INTERVAL};
use crate::debug_services::state::DebugState;
use crate::memory::{CommandsDataMemory, MemoryState};
use crate::render_state::RenderState;
use vstd::prelude::*;

verus! {

/// The whole state of the core, owned by the host and passed to every call.
pub struct EngineCore {
    pub commands: CommandsState,
    pub memory: MemoryState,
    pub view_port: ViewPortSize,
    pub touch_state: TouchState,
    pub layers_state: LayersState,
    pub render_state: RenderState,
    pub debug_state: DebugState,
}

/// What the request dispatcher reads and writes: the viewport, the touch
/// state, and the two argument stacks.
pub type DispatchState = (ViewPortSize, TouchState, Seq<Vec2f>, Seq<Vec2i>);

/// How one request command was handled.
#[derive(Debug, Clone, Copy, PartialEq, Eq, Structural)]
pub enum RequestOutcome {
    /// An argument was pushed.
    Stored,
    /// A terminal command found its argument and was applied.
    Applied,
    /// A terminal command found no argument; nothing was applied.
    MissingArgument,
    /// An argument command carried the wrong payload; nothing was pushed.
    MalformedPayload,
}

/// The state after one request command: argument commands push their
/// payload; terminal commands apply the newest argument of their kind, if
/// any, and then clear both stacks.
pub open spec fn apply_request(s: DispatchState, c: RequestCommand) -> DispatchState {
    match c.command_type {
        RequestCommandType::PushVec2f => match c.data {
            CommandData::Vec2f(v) => (s.0, s.1, s.2.push(v), s.3),
            _ => s,
        },
        RequestCommandType::PushVec2i => match c.data {
            CommandData::Vec2i(v) => (s.0, s.1, s.2, s.3.push(v)),
            _ => s,
        },
        RequestCommandType::SetViewportSize => (
            if s.3.len() > 0 {
                ViewPortSize { width: s.3.last().x, height: s.3.last().y }
            } else {
                s.0
            },
            s.1,
            Seq::empty(),
            Seq::empty(),
        ),
        RequestCommandType::OnTouchStart => (
            s.0,
            if s.2.len() > 0 {
                s.1.spec_touch_start(s.2.last())
            } else {
                s.1
            },
            Seq::empty(),
            Seq::empty(),
        ),
        RequestCommandType::OnTouchMove => (
            s.0,
            if s.2.len() > 0 {
                s.1.spec_touch_move(s.2.last())
            } else {
                s.1
            },
            Seq::empty(),
            Seq::empty(),
        ),
        RequestCommandType::OnTouchEnd => (
            s.0,
            if s.2.len() > 0 {
                s.1.spec_touch_end(s.2.last())
            } else {
                s.1
            },
            Seq::empty(),
            Seq::empty(),
        ),
    }
}

pub open spec fn request_outcome(s: DispatchState, c: RequestCommand) -> RequestOutcome {
    match c.command_type {
        RequestCommandType::PushVec2f => if c.data is Vec2f {
            RequestOutcome::Stored
        } else {
            RequestOutcome::MalformedPayload
        },
        RequestCommandType::PushVec2i => if c.data is Vec2i {
            RequestOutcome::Stored
        } else {
            RequestOutcome::MalformedPayload
        },
        RequestCommandType::SetViewportSize => if s.3.len() > 0 {
            RequestOutcome::Applied
        } else {
            RequestOutcome::MissingArgument
        },
        _ => if s.2.len() > 0 {
            RequestOutcome::Applied
        } else {
            RequestOutcome::MissingArgument
        },
    }
}

/// The state after the request commands `cs`, in order.
pub open spec fn apply_requests(s: DispatchState, cs: Seq<RequestCommand>) -> DispatchState
    decreases cs.len(),
{
    if cs.len() == 0 {
        s
    } else {
        apply_request(apply_requests(s, cs.drop_last()), cs.last())
    }
}

impl EngineCore {
    pub open spec fn wf(&self) -> bool {
        self.debug_state.wf()
    }

    pub open spec fn dispatch_view(&self) -> DispatchState {
        (
            self.view_port,
            self.touch_state,
            self.memory.commands_data.vec2f_data@,
            self.memory.commands_data.vec2i_data@,
        )
    }
}

/// Builds the initial state: empty queues and argument stacks, a zero
/// viewport, no touch, and the console with its commands registered.
pub fn init_world() -> (core: EngineCore)
    ensures
        core.wf(),
        core.commands.is_empty(),
        core.memory.commands_data.is_empty(),
        core.view_port == (ViewPortSize { width: 0, height: 0 }),
        core.touch_state == TouchState::spec_new(),
        !core.layers_state.ui_layer_is_hot,
        core.render_state.offset == 0,
        core.render_state.text_sizes@.len() == 0,
        core.debug_state.commands.index@.len() == 1,
        core.debug_state.commands.index@[0].namespace@ == "profile"@,
        core.debug_state.commands.index@[0].name@ == "set_snapshot_interval"@,
        core.debug_state.commands.index@[0].executor == CommandExecutor::SetSnapshotInterval,
        core.debug_state.commands.registry@.len() == 1,
        core.debug_state.commands.registry@[0].namespace@ == "profile"@,
        core.debug_state.commands.registry@[0].name@ == "set_snapshot_interval"@,
        core.debug_state.commands.registry@[0].args@ == "<arguments: int>"@,
        core.debug_state.commands.registry@[0].desc@ == "Update snapshot interval"@,
        core.debug_state.profile.snapshot_interval == DEFAULT_SNAPSHOT_INTERVAL,
        core.debug_state.profile.frame_counter == 0,
{
    let mut debug_state = DebugState::new();
    let ghost empty = debug_state;
    api::init(&mut debug_state);
    proof {
        let c = choose|c: Command|
            #![trigger registered_index(empty.commands.index@, c)]
            {
                &&& c.namespace@ == "profile"@
                &&& c.name@ == "set_snapshot_interval"@
                &&& c.executor == CommandExecutor::SetSnapshotInterval
                &&& debug_state.commands.index@ == registered_index(empty.commands.index@, c)
            };
        assert(!is_registered(empty.commands.index@, full_name(c)));
        assert(debug_state.commands.index@ =~= seq![c]);
        assert(debug_state.commands.registry@.drop_last().len() == 0);
    }
    EngineCore {
        commands: CommandsState::new(),
        memory: MemoryState::new(),
        view_port: ViewPortSize { width: 0, height: 0 },
        touch_state: TouchState::new(),
        layers_state: LayersState { ui_layer_is_hot: false },
        render_state: RenderState::default(),
        debug_state,
    }
}

/// Starts a frame at clock reading `now_ns`.
pub fn frame_start(core: &mut EngineCore, now_ns: u64)
    requires
        old(core).wf(),
    ensures
        final(core).wf(),
        final(core).debug_state.profile == (ProfileState { frame_timer: now_ns, ..old(core).debug_state.profile }),
        final(core).debug_state.commands == old(core).debug_state.commands,
        final(core).commands == old(core).commands,
        final(core).dispatch_view() == old(core).dispatch_view(),
{
    api::debug_frame_start(&mut core.debug_state, now_ns);
}

/// Ends a frame at clock reading `now_ns`: the touch phase goes back to
/// idle, no UI layer is hot, and the profiler moves on by one frame.
pub fn frame_end(core: &mut EngineCore, now_ns: u64)
    requires
        old(core).wf(),
    ensures
        final(core).wf(),
        final(core).touch_state == (TouchState { touch: Touch::Idle, ..old(core).touch_state }),
        !final(core).layers_state.ui_layer_is_hot,
        frame_ended(final(core).debug_state.profile, old(core).debug_state.profile, now_ns),
        final(core).debug_state.commands == old(core).debug_state.commands,
        final(core).commands == old(core).commands,
        final(core).memory.commands_data.vec2f_data@ == old(core).memory.commands_data.vec2f_data@,
        final(core).memory.commands_data.vec2i_data@ == old(core).memory.commands_data.vec2i_data@,
        final(core).view_port == old(core).view_port,
        final(core).render_state == old(core).render_state,
{
    core.touch_state.touch = Touch::Idle;
    core.layers_state.reset();
    api::debug_frame_end(&mut core.debug_state, now_ns);
}

/// Clears the three queues and the argument stacks, and moves the text-size
/// cursor back to the start. The host calls it after reading the queues.
pub fn flush(core: &mut EngineCore)
    ensures
        final(core).commands.is_empty(),
        final(core).memory.commands_data.is_empty(),
        final(core).render_state.offset == 0,
        final(core).render_state.text_sizes@ == old(core).render_state.text_sizes@,
        final(core).view_port == old(core).view_port,
        final(core).touch_state == old(core).touch_state,
        final(core).debug_state == old(core).debug_state,
{
    memory::flush(&mut core.memory);
    core.commands.clear();
    core.render_state.bump_cursor();
}

/// Forgets all text sizes reported by the host.
pub fn render_state_flush(core: &mut EngineCore)
    ensures
        final(core).render_state.offset == 0,
        final(core).render_state.text_sizes@.len() == 0,
        final(core).commands == old(core).commands,
{
    core.render_state.clear();
}

/// Records the size the host measured for the next string.
pub fn push_text_size(core: &mut EngineCore, size: Vec2f)
    ensures
        final(core).render_state.text_sizes@ == old(core).render_state.text_sizes@.push(size),
        final(core).render_state.offset == old(core).render_state.offset,
        final(core).commands == old(core).commands,
{
    core.render_state.push(size);
}

/// The render commands of the current frame, in the order they were appended.
pub fn get_render_commands(core: &EngineCore) -> (r: &Vec<RenderCommand>)
    ensures
        r@ == core.commands.render_commands@,
{
    &core.commands.render_commands
}

/// The execution commands of the current frame, in the order they were appended.
pub fn get_exec_commands(core: &EngineCore) -> (r: &Vec<ExecutionCommand>)
    ensures
        r@ == core.commands.exec_commands@,
{
    &core.commands.exec_commands
}

/// Appends request commands from the host, to be handled by the next `step`.
pub fn send_request_commands(core: &mut EngineCore, requests: Vec<RequestCommand>)
    ensures
        final(core).commands.request_commands@ == old(core).commands.request_commands@ + requests@,
        final(core).commands.render_commands@ == old(core).commands.render_commands@,
        final(core).commands.exec_commands@ == old(core).commands.exec_commands@,
        final(core).dispatch_view() == old(core).dispatch_view(),
        final(core).debug_state == old(core).debug_state,
{
    let mut requests = requests;
    core.commands.request_commands.append(&mut requests);
}

/// Requests a viewport of `size`.
pub fn push_set_view_port_size_request_command(core: &mut EngineCore, size: Vec2i)
    ensures
        final(core).commands.request_commands@ == old(core).commands.request_commands@ + seq![
            request_command(RequestCommandType::PushVec2i, CommandData::Vec2i(size)),
            request_command(RequestCommandType::SetViewportSize, CommandData::Empty),
        ],
        final(core).commands.render_commands@ == old(core).commands.render_commands@,
        final(core).commands.exec_commands@ == old(core).commands.exec_commands@,
        final(core).dispatch_view() == old(core).dispatch_view(),
{
    push_request_command_data(&mut core.commands, RequestCommandType::PushVec2i, CommandData::vec2i(size));
    push_request_command(&mut core.commands, RequestCommandType::SetViewportSize);
    proof {
        assert(core.commands.request_commands@ =~= old(core).commands.request_commands@ + seq![
            request_command(RequestCommandType::PushVec2i, CommandData::Vec2i(size)),
            request_command(RequestCommandType::SetViewportSize, CommandData::Empty),
        ]);
    }
}

/// Requests a touch event of type `event` at `point`.
fn push_touch_request(core: &mut EngineCore, event: RequestCommandType, point: Vec2f)
    ensures
        final(core).commands.request_commands@ == old(core).commands.request_commands@ + seq![
            request_command(RequestCommandType::PushVec2f, CommandData::Vec2f(point)),
            request_command(event, CommandData::Empty),
        ],
        final(core).commands.render_commands@ == old(core).commands.render_commands@,
        final(core).commands.exec_commands@ == old(core).commands.exec_commands@,
        final(core).dispatch_view() == old(core).dispatch_view(),
{
    push_request_command_data(&mut core.commands, RequestCommandType::PushVec2f, CommandData::vec2f(point));
    push_request_command(&mut core.commands, event);
    proof {
        assert(core.commands.request_commands@ =~= old(core).commands.request_commands@ + seq![
            request_command(RequestCommandType::PushVec2f, CommandData::Vec2f(point)),
            request_command(event, CommandData::Empty),
        ]);
    }
}

/// Requests the start of a touch gesture at `point`.
pub fn push_on_touch_start_request_command(core: &mut EngineCore, point: Vec2f)
    ensures
        final(core).commands.request_commands@ == old(core).commands.request_commands@ + seq![
            request_command(RequestCommandType::PushVec2f, CommandData::Vec2f(point)),
            request_command(RequestCommandType::OnTouchStart, CommandData::Empty),
        ],
        final(core).commands.render_commands@ == old(core).commands.render_commands@,
        final(core).commands.exec_commands@ == old(core).commands.exec_commands@,
        final(core).dispatch_view() == old(core).dispatch_view(),
{
    push_touch_request(core, RequestCommandType::OnTouchStart, point);
}

/// Requests the end of a touch gesture at `point`.
pub fn push_on_touch_end_request_command(core: &mut EngineCore, point: Vec2f)
    ensures
        final(core).commands.request_commands@ == old(core).commands.request_commands@ + seq![
            request_command(RequestCommandType::PushVec2f, CommandData::Vec2f(point)),
            request_command(RequestCommandType::OnTouchEnd, CommandData::Empty),
        ],
        final(core).commands.render_commands@ == old(core).commands.render_commands@,
        final(core).commands.exec_commands@ == old(core).commands.exec_commands@,
        final(core).dispatch_view() == old(core).dispatch_view(),
{
    push_touch_request(core, RequestCommandType::OnTouchEnd, point);
}

/// Requests a touch move to `point`.
pub fn push_on_touch_move_request_command(core: &mut EngineCore, point: Vec2f)
    ensures
        final(core).commands.request_commands@ == old(core).commands.request_commands@ + seq![
            request_command(RequestCommandType::PushVec2f, CommandData::Vec2f(point)),
            request_command(RequestCommandType::OnTouchMove, CommandData::Empty),
        ],
        final(core).commands.render_commands@ == old(core).commands.render_commands@,
        final(core).commands.exec_commands@ == old(core).commands.exec_commands@,
        final(core).dispatch_view() == old(core).dispatch_view(),
{
    push_touch_request(core, RequestCommandType::OnTouchMove, point);
}

fn set_view_port_size(view_port: &mut ViewPortSize, width: i32, height: i32)
    ensures
        *final(view_port) == (ViewPortSize { width, height }),
{
    view_port.width = width;
    view_port.height = height;
}

/// Handles one request command against the argument stacks, the viewport
/// and the touch state.
pub fn handle_request_command(
    command: &RequestCommand,
    memory: &mut CommandsDataMemory,
    view_port: &mut ViewPortSize,
    touch_state: &mut TouchState,
) -> (r: RequestOutcome)
    ensures
        (*final(view_port), *final(touch_state), final(memory).vec2f_data@, final(memory).vec2i_data@)
            == apply_request(
            (*old(view_port), *old(touch_state), old(memory).vec2f_data@, old(memory).vec2i_data@),
            *command,
        ),
        r == request_outcome(
            (*old(view_port), *old(touch_state), old(memory).vec2f_data@, old(memory).vec2i_data@),
            *command,
        ),
{
    match command.command_type {
        RequestCommandType::PushVec2f => match &command.data {
            CommandData::Vec2f(v) => {
                memory.vec2f_data.push(*v);
                RequestOutcome::Stored
            },
            _ => RequestOutcome::MalformedPayload,
        },
        RequestCommandType::PushVec2i => match &command.data {
            CommandData::Vec2i(v) => {
                memory.vec2i_data.push(*v);
                RequestOutcome::Stored
            },
            _ => RequestOutcome::MalformedPayload,
        },
        RequestCommandType::SetViewportSize => {
            let outcome = match memory.vec2i_data.pop() {
                Some(size) => {
                    set_view_port_size(view_port, size.x, size.y);
                    RequestOutcome::Applied
                },
                None => RequestOutcome::MissingArgument,
            };
            memory.clear();
            outcome
        },
        RequestCommandType::OnTouchStart => {
            let outcome = match memory.vec2f_data.pop() {
                Some(point) => {
                    touch_state.on_touch_start(point);
                    RequestOutcome::Applied
                },
                None => RequestOutcome::MissingArgument,
            };
            memory.clear();
            outcome
        },
        RequestCommandType::OnTouchEnd => {
            let outcome = match memory.vec2f_data.pop() {
                Some(point) => {
                    touch_state.on_touch_end(point);
                    RequestOutcome::Applied
                },
                None => RequestOutcome::MissingArgument,
            };
            memory.clear();
            outcome
        },
        RequestCommandType::OnTouchMove => {
            let outcome = match memory.vec2f_data.pop() {
                Some(point) => {
                    touch_state.on_touch_move(point);
                    RequestOutcome::Applied
                },
                None => RequestOutcome::MissingArgument,
            };
            memory.clear();
            outcome
        },
    }
}

/// Handles the request queue once, in order; returns how each command was
/// handled. The queue itself is left for `flush`.
pub fn handle_request_commands(core: &mut EngineCore) -> (r: Vec<RequestOutcome>)
    ensures
        final(core).dispatch_view() == apply_requests(
            old(core).dispatch_view(),
            old(core).commands.request_commands@,
        ),
        r@.len() == old(core).commands.request_commands@.len(),
        forall|i: int|
            0 <= i < r@.len() ==> #[trigger] r@[i] == request_outcome(
                apply_requests(old(core).dispatch_view(), old(core).commands.request_commands@.take(i)),
                old(core).commands.request_commands@[i],
            ),
        final(core).commands == old(core).commands,
        final(core).layers_state == old(core).layers_state,
        final(core).render_state == old(core).render_state,
        final(core).debug_state == old(core).debug_state,
{
    let ghost q = core.commands.request_commands@;
    let ghost s0 = core.dispatch_view();
    let mut outcomes: Vec<RequestOutcome> = Vec::new();
    let n = core.commands.request_commands.len();
    let mut i: usize = 0;
    proof {
        assert(q.take(0) =~= Seq::<RequestCommand>::empty());
    }
    while i < n
        invariant
            n == q.len(),
            i <= n,
            core.commands == old(core).commands,
            core.commands.request_commands@ == q,
            core.layers_state == old(core).layers_state,
            core.render_state == old(core).render_state,
            core.debug_state == old(core).debug_state,
            core.dispatch_view() == apply_requests(s0, q.take(i as int)),
            outcomes@.len() == i,
            forall|j: int|
                0 <= j < i ==> #[trigger] outcomes@[j] == request_outcome(
                    apply_requests(s0, q.take(j)),
                    q[j],
                ),
        decreases n - i,
    {
        let outcome = handle_request_command(
            &core.commands.request_commands[i],
            &mut core.memory.commands_data,
            &mut core.view_port,
            &mut core.touch_state,
        );
        outcomes.push(outcome);
        proof {
            assert(q.take(i + 1).drop_last() =~= q.take(i as int));
        }
        i = i + 1;
    }
    proof {
        assert(q.take(n as int) =~= q);
    }
    outcomes
}

/// The logic step of a frame: handles the request queue.
pub fn step(core: &mut EngineCore) -> (r: Vec<RequestOutcome>)
    ensures
        final(core).dispatch_view() == apply_requests(
            old(core).dispatch_view(),
            old(core).commands.request_commands@,
        ),
        r@.len() == old(core).commands.request_commands@.len(),
        forall|i: int|
            0 <= i < r@.len() ==> #[trigger] r@[i] == request_outcome(
                apply_requests(old(core).dispatch_view(), old(core).commands.request_commands@.take(i)),
                old(core).commands.request_commands@[i],
            ),
        final(core).commands == old(core).commands,
        final(core).layers_state == old(core).layers_state,
        final(core).debug_state == old(core).debug_state,
{
    handle_request_commands(core)
}

// ---------------------------------------------------------------------------
// Laws of the request dispatcher.
/// The number of argument commands after the last terminal command of `cs`.
pub open spec fn trailing_arguments(cs: Seq<RequestCommand>) -> int
    decreases cs.len(),
{
    if cs.len() == 0 {
        0
    } else if cs.last().command_type.spec_is_terminal() {
        0
    } else {
        trailing_arguments(cs.drop_last()) + 1
    }
}

/// A terminal request command leaves both argument stacks empty, whether or
/// not it found its argument.
pub proof fn lemma_terminal_request_clears_arguments(s: DispatchState, c: RequestCommand)
    requires
        c.command_type.spec_is_terminal(),
    ensures
        apply_request(s, c).2.len() == 0,
        apply_request(s, c).3.len() == 0,
{
}

/// The argument stacks never grow across requests: starting empty, they
/// hold at most the arguments pushed since the last terminal command.
pub proof fn lemma_arguments_bounded(s: DispatchState, cs: Seq<RequestCommand>)
    requires
        s.2.len() == 0,
        s.3.len() == 0,
    ensures
        apply_requests(s, cs).2.len() + apply_requests(s, cs).3.len() <= trailing_arguments(cs),
    decreases cs.len(),
{
    if cs.len() > 0 {
        lemma_arguments_bounded(s, cs.drop_last());
    }
}

/// Every argument command of `cs` carries the payload of its own kind.
pub open spec fn well_formed_requests(cs: Seq<RequestCommand>) -> bool {
    forall|i: int|
        0 <= i < cs.len() ==> {
            &&& (#[trigger] cs[i]).command_type is PushVec2f ==> cs[i].data is Vec2f
            &&& cs[i].command_type is PushVec2i ==> cs[i].data is Vec2i
        }
}

/// With well-formed payloads and empty stacks to start with, the argument
/// stacks hold exactly the arguments pushed since the last terminal command.
pub proof fn lemma_arguments_exact(s: DispatchState, cs: Seq<RequestCommand>)
    requires
        s.2.len() == 0,
        s.3.len() == 0,
        well_formed_requests(cs),
    ensures
        apply_requests(s, cs).2.len() + apply_requests(s, cs).3.len() == trailing_arguments(cs),
    decreases cs.len(),
{
    if cs.len() > 0 {
        let rest = cs.drop_last();
        assert forall|i: int| 0 <= i < rest.len() implies {
            &&& (#[trigger] rest[i]).command_type is PushVec2f ==> rest[i].data is Vec2f
            &&& rest[i].command_type is PushVec2i ==> rest[i].data is Vec2i
        } by {
            assert(rest[i] == cs[i]);
        }
        lemma_arguments_exact(s, rest);
        assert(cs[cs.len() - 1] == cs.last());
    }
}

/// The two request commands that carry a touch event at `p`.
pub open spec fn touch_requests(event: RequestCommandType, p: Vec2f) -> Seq<RequestCommand> {
    seq![
        request_command(RequestCommandType::PushVec2f, CommandData::Vec2f(p)),
        request_command(event, CommandData::Empty),
    ]
}

proof fn lemma_apply_touch_requests(s: DispatchState, event: RequestCommandType, p: Vec2f)
    ensures
        apply_requests(s, touch_requests(event, p)) == apply_request(
            (s.0, s.1, s.2.push(p), s.3),
            request_command(event, CommandData::Empty),
        ),
{
    let cs = touch_requests(event, p);
    assert(cs.drop_last().drop_last() =~= Seq::<RequestCommand>::empty());
    let c0 = request_command(RequestCommandType::PushVec2f, CommandData::Vec2f(p));
    assert(cs.drop_last() =~= seq![c0]);
    assert(apply_requests(s, cs.drop_last().drop_last()) == s);
    assert(apply_requests(s, cs.drop_last()) == apply_request(s, c0));
    assert(apply_request(s, c0) == (s.0, s.1, s.2.push(p), s.3));
    assert(cs.last() == request_command(event, CommandData::Empty));
}

/// A touch move outside a gesture is discarded: the phase stays idle.
pub proof fn lemma_move_without_start_stays_idle(s: DispatchState, p: Vec2f)
    requires
        s.1.touch == Touch::Idle,
    ensures
        apply_requests(s, touch_requests(RequestCommandType::OnTouchMove, p)).1.touch == Touch::Idle,
{
    lemma_apply_touch_requests(s, RequestCommandType::OnTouchMove, p);
}

/// A gesture started at `a`, moved to `b` and ended at `c` goes through the
/// phases start, move and end, and rests at `c`.
pub proof fn lemma_touch_gesture(s: DispatchState, a: Vec2f, b: Vec2f, c: Vec2f)
    ensures
        ({
            let s1 = apply_requests(s, touch_requests(RequestCommandType::OnTouchStart, a));
            let s2 = apply_requests(s1, touch_requests(RequestCommandType::OnTouchMove, b));
            let s3 = apply_requests(s2, touch_requests(RequestCommandType::OnTouchEnd, c));
            &&& s1.1.touch == Touch::Start
            &&& s1.1.touch_start == a
            &&& s2.1.touch == Touch::Move
            &&& s2.1.touch_current == b
            &&& s3.1.touch == Touch::End
            &&& s3.1.touch_current == c
            &&& s3.2.len() == 0 && s3.3.len() == 0
        }),
{
    let s1 = apply_requests(s, touch_requests(RequestCommandType::OnTouchStart, a));
    let s2 = apply_requests(s1, touch_requests(RequestCommandType::OnTouchMove, b));
    lemma_apply_touch_requests(s, RequestCommandType::OnTouchStart, a);
    lemma_apply_touch_requests(s1, RequestCommandType::OnTouchMove, b);
    lemma_apply_touch_requests(s2, RequestCommandType::OnTouchEnd, c);
}

} // verus!
