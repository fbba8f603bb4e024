use canvas_core::debug_services::api::{debug_frame_end, debug_frame_start};
use canvas_core::debug_services::commands::{
    execute_command, parse_argument, parse_command, register_command, require, split_words, Command,
    CommandArgument, CommandError, CommandExecutor, COMMANDS_HISTORY_CAPACITY,
};
use canvas_core::debug_services::profile::{
    fold_frames, frame_end, record_timed_block, update_snapshot_interval, ClocsDebugRecord,
    PerformanceCounterState, ProfileState, TimedBlock, DEFAULT_SNAPSHOT_INTERVAL,
    MAX_SNAPSHOT_INTERVAL, PERFORMANCE_COUNTER_LOG_SIZE, PERFORMANCE_RECORDS_CAPACITY,
};
use canvas_core::init_world;

fn block(name: &str, line: u32, start: u64) -> TimedBlock {
    TimedBlock::new(name.to_string(), "main.rs".to_string(), line, "main".to_string(), start)
}

fn record(name: &str, line: u32, elapsed: u64, hits: u32) -> ClocsDebugRecord {
    ClocsDebugRecord {
        name: name.to_string(),
        file_name: "main.rs".to_string(),
        line,
        elapsed,
        hits,
        thread_id: "main".to_string(),
    }
}

#[test]
fn timed_blocks_merge_by_call_site() {
    let mut profile = ProfileState::new();
    record_timed_block(&mut profile, block("step", 10, 100), 150);
    record_timed_block(&mut profile, block("step", 10, 200), 230);
    record_timed_block(&mut profile, block("render", 20, 0), 5);
    let records = &profile.performance_counter_states[0].records;
    assert_eq!(records.len(), 2);
    assert_eq!(records[0].name, "step");
    assert_eq!(records[0].elapsed, 80);
    assert_eq!(records[0].hits, 2);
    assert_eq!(records[1].name, "render");
    assert_eq!(records[1].elapsed, 5);
    assert_eq!(records[1].hits, 1);
}

#[test]
fn same_name_on_another_line_is_another_call_site() {
    let mut profile = ProfileState::new();
    record_timed_block(&mut profile, block("step", 10, 0), 1);
    record_timed_block(&mut profile, block("step", 11, 0), 1);
    assert_eq!(profile.performance_counter_states[0].records.len(), 2);
}

#[test]
fn clock_going_backwards_counts_as_zero() {
    let mut profile = ProfileState::new();
    record_timed_block(&mut profile, block("step", 10, 500), 100);
    assert_eq!(profile.performance_counter_states[0].records[0].elapsed, 0);
}

#[test]
fn frame_set_grows_past_its_initial_capacity() {
    let mut profile = ProfileState::new();
    for line in 0..PERFORMANCE_RECORDS_CAPACITY as u32 {
        record_timed_block(&mut profile, block("site", line, 0), 1);
    }
    record_timed_block(&mut profile, block("site", 100_000, 0), 1);
    assert_eq!(profile.performance_counter_states[0].records.len(), PERFORMANCE_RECORDS_CAPACITY + 1);
    assert_eq!(profile.performance_counter_states[0].records[PERFORMANCE_RECORDS_CAPACITY].line, 100_000);
    record_timed_block(&mut profile, block("site", 3, 0), 4);
    assert_eq!(profile.performance_counter_states[0].records[3].elapsed, 5);
    assert_eq!(profile.performance_counter_states[0].records[3].hits, 2);
    let hits: u32 = profile.performance_counter_states[0].records.iter().map(|r| r.hits).sum();
    assert_eq!(hits, PERFORMANCE_RECORDS_CAPACITY as u32 + 2);
}

#[test]
fn fold_sums_ranks_and_shares() {
    let ring = vec![
        PerformanceCounterState { records: vec![record("a", 1, 100, 2), record("b", 2, 300, 1)] },
        PerformanceCounterState { records: vec![record("a", 1, 500, 3)] },
        PerformanceCounterState { records: vec![record("c", 3, 100, 1)] },
    ];
    let snapshot = fold_frames(&ring);
    assert_eq!(snapshot.len(), 3);
    assert_eq!(snapshot[0].name, "a");
    assert_eq!(snapshot[0].sum_elapsed, 600);
    assert_eq!(snapshot[0].sum_hits, 5);
    assert_eq!(snapshot[0].hits, 2);
    assert_eq!(snapshot[0].elapsed_per_hit, 120);
    assert_eq!(snapshot[0].percent, 6000);
    assert_eq!(snapshot[1].name, "b");
    assert_eq!(snapshot[1].percent, 3000);
    assert_eq!(snapshot[1].elapsed_per_hit, 300);
    assert_eq!(snapshot[2].name, "c");
    assert_eq!(snapshot[2].percent, 1000);
    let total: u32 = snapshot.iter().map(|r| r.percent).sum();
    assert_eq!(total, 10000);
}

#[test]
fn shares_sum_to_a_whole() {
    let ring = vec![PerformanceCounterState {
        records: vec![record("a", 1, 1, 1), record("b", 2, 1, 1), record("c", 3, 1, 1)],
    }];
    let snapshot = fold_frames(&ring);
    let total: u32 = snapshot.iter().map(|r| r.percent).sum();
    assert_eq!(total, 10000);
    assert_eq!(snapshot[0].percent, 3334);
    assert_eq!(snapshot[1].percent, 3333);
    assert_eq!(snapshot[2].percent, 3333);
    let seven: Vec<ClocsDebugRecord> = (0..7).map(|line| record("s", line, 10, 1)).collect();
    let snapshot = fold_frames(&vec![PerformanceCounterState { records: seven }]);
    let as_percent: f64 = snapshot.iter().map(|r| r.percent as f64 / 100.0).sum();
    assert!((as_percent - 100.0).abs() < 1e-9);
}

#[test]
fn single_hit_has_its_elapsed_per_hit() {
    let ring = vec![PerformanceCounterState { records: vec![record("once", 7, 12345, 1)] }];
    let snapshot = fold_frames(&ring);
    assert_eq!(snapshot.len(), 1);
    assert_eq!(snapshot[0].sum_hits, 1);
    assert_eq!(snapshot[0].elapsed_per_hit, 12345);
    assert_eq!(snapshot[0].percent, 10000);
}

#[test]
fn fold_of_nothing_is_empty() {
    let ring = vec![PerformanceCounterState::new(), PerformanceCounterState::new()];
    assert_eq!(fold_frames(&ring).len(), 0);
    let zero = vec![PerformanceCounterState { records: vec![record("idle", 1, 0, 1)] }];
    let snapshot = fold_frames(&zero);
    assert_eq!(snapshot.len(), 1);
    assert_eq!(snapshot[0].percent, 0);
}

#[test]
fn snapshot_is_taken_every_interval_frames() {
    let mut profile = ProfileState::new();
    assert_eq!(profile.snapshot_interval, DEFAULT_SNAPSHOT_INTERVAL);
    for frame in 0..DEFAULT_SNAPSHOT_INTERVAL as u64 {
        canvas_core::debug_services::profile::frame_start(&mut profile, frame * 1000);
        record_timed_block(&mut profile, block("step", 1, frame * 1000), frame * 1000 + 10);
        frame_end(&mut profile, frame * 1000 + 400);
    }
    assert_eq!(profile.frame_counter, 0);
    assert_eq!(profile.snapshot_counter, 1);
    assert_eq!(profile.frame_elapsed, 400);
    let snapshot = &profile.performance_counter_log[1].records;
    assert_eq!(snapshot.len(), 1);
    assert_eq!(snapshot[0].sum_elapsed, 30);
    assert_eq!(snapshot[0].hits, 3);
    assert!(profile.performance_counter_states.iter().all(|f| f.records.is_empty()));
}

#[test]
fn snapshot_log_wraps_around() {
    let mut profile = ProfileState::new();
    update_snapshot_interval(&mut profile, 1);
    for _ in 0..PERFORMANCE_COUNTER_LOG_SIZE {
        frame_end(&mut profile, 0);
    }
    assert_eq!(profile.snapshot_counter, 0);
}

#[test]
fn snapshot_interval_above_cap_is_refused() {
    let mut profile = ProfileState::new();
    update_snapshot_interval(&mut profile, 10_000);
    assert_eq!(profile.snapshot_interval, DEFAULT_SNAPSHOT_INTERVAL);
    assert_eq!(profile.performance_counter_states.len(), DEFAULT_SNAPSHOT_INTERVAL);
    update_snapshot_interval(&mut profile, 30);
    assert_eq!(profile.snapshot_interval, 30);
    assert_eq!(profile.performance_counter_states.len(), 30);
    update_snapshot_interval(&mut profile, MAX_SNAPSHOT_INTERVAL);
    assert_eq!(profile.performance_counter_states.len(), MAX_SNAPSHOT_INTERVAL);
    update_snapshot_interval(&mut profile, MAX_SNAPSHOT_INTERVAL + 1);
    assert_eq!(profile.snapshot_interval, MAX_SNAPSHOT_INTERVAL);
}

#[test]
fn resizing_the_ring_keeps_the_frame_counter_and_frames() {
    let mut profile = ProfileState::new();
    update_snapshot_interval(&mut profile, 10);
    for frame in 0..4u64 {
        record_timed_block(&mut profile, block("step", 1, 0), 5 + frame);
        frame_end(&mut profile, 0);
    }
    assert_eq!(profile.frame_counter, 4);
    let log_before = profile.snapshot_counter;
    update_snapshot_interval(&mut profile, 20);
    assert_eq!(profile.frame_counter, 4);
    assert_eq!(profile.snapshot_counter, log_before);
    assert_eq!(profile.performance_counter_states.len(), 20);
    assert_eq!(profile.performance_counter_states[2].records[0].elapsed, 7);
    assert!(profile.performance_counter_states[15].records.is_empty());
    update_snapshot_interval(&mut profile, 3);
    assert_eq!(profile.frame_counter, 4);
    assert_eq!(profile.performance_counter_states.len(), 3);
    record_timed_block(&mut profile, block("late", 2, 0), 1);
    assert_eq!(profile.performance_counter_states[1].records.last().unwrap().name, "late");
    frame_end(&mut profile, 0);
    assert_eq!(profile.frame_counter, 0);
    assert_eq!(profile.snapshot_counter, log_before + 1);
}

#[test]
fn console_sets_snapshot_interval() {
    let mut core = init_world();
    assert_eq!(execute_command(&mut core.debug_state, "profile::set_snapshot_interval 30"), Ok(()));
    assert_eq!(core.debug_state.profile.snapshot_interval, 30);
    assert_eq!(core.debug_state.profile.performance_counter_states.len(), 30);
    assert_eq!(execute_command(&mut core.debug_state, "  profile::set_snapshot_interval\t10000 "), Ok(()));
    assert_eq!(core.debug_state.profile.snapshot_interval, 30);
    assert_eq!(core.debug_state.commands.history.len(), 2);
    assert_eq!(core.debug_state.commands.history[0], "profile::set_snapshot_interval 30");
}

#[test]
fn console_errors() {
    let mut core = init_world();
    assert_eq!(execute_command(&mut core.debug_state, "   "), Err("Command can't be empty".to_string()));
    assert_eq!(execute_command(&mut core.debug_state, "profile::nothing 3"), Err("Command hasn't found".to_string()));
    assert_eq!(
        execute_command(&mut core.debug_state, "profile::set_snapshot_interval"),
        Err("bad arguments length".to_string())
    );
    assert_eq!(
        execute_command(&mut core.debug_state, "profile::set_snapshot_interval 1 2"),
        Err("bad arguments length".to_string())
    );
    assert_eq!(
        execute_command(&mut core.debug_state, "profile::set_snapshot_interval fast"),
        Err("Argument should be int".to_string())
    );
    assert_eq!(
        execute_command(&mut core.debug_state, "profile::set_snapshot_interval -5"),
        Err("Argument should be int".to_string())
    );
    assert_eq!(core.debug_state.profile.snapshot_interval, DEFAULT_SNAPSHOT_INTERVAL);
    assert_eq!(CommandError::NotFound.message(), "Command hasn't found");
}

#[test]
fn console_history_is_bounded() {
    let mut core = init_world();
    for i in 0..COMMANDS_HISTORY_CAPACITY + 5 {
        let _ = execute_command(&mut core.debug_state, &format!("cmd{}", i));
    }
    assert_eq!(core.debug_state.commands.history.len(), COMMANDS_HISTORY_CAPACITY);
    assert_eq!(core.debug_state.commands.history[0], "cmd5");
    assert_eq!(core.debug_state.commands.history[COMMANDS_HISTORY_CAPACITY - 1], "cmd104");
}

#[test]
fn words_and_arguments() {
    assert_eq!(split_words("  a bb\u{3000}ccc\n"), vec!["a", "bb", "ccc"]);
    assert_eq!(split_words(""), Vec::<String>::new());
    assert_eq!(parse_argument("42".to_string()), CommandArgument::Number(42));
    assert_eq!(parse_argument("18446744073709551615".to_string()), CommandArgument::Number(u64::MAX));
    assert_eq!(
        parse_argument("18446744073709551616".to_string()),
        CommandArgument::String("18446744073709551616".to_string())
    );
    assert_eq!(parse_argument("4x".to_string()), CommandArgument::String("4x".to_string()));
    let request = parse_command("ns::cmd 7 seven").ok().unwrap();
    assert_eq!(request.command, "ns::cmd");
    assert_eq!(request.arguments, vec![CommandArgument::Number(7), CommandArgument::String("seven".to_string())]);
    assert!(matches!(parse_command(" \t "), Err(CommandError::Empty)));
}

#[test]
fn require_gives_message_on_failure() {
    assert_eq!(require(true, "no"), Ok(()));
    assert_eq!(require(false, "no"), Err("no".to_string()));
}

#[test]
fn debug_frame_hooks_drive_the_profiler() {
    let mut core = init_world();
    debug_frame_start(&mut core.debug_state, 1_000);
    assert_eq!(core.debug_state.profile.frame_timer, 1_000);
    debug_frame_end(&mut core.debug_state, 1_750);
    assert_eq!(core.debug_state.profile.frame_elapsed, 750);
    assert_eq!(core.debug_state.profile.frame_counter, 1);
    assert_eq!(core.debug_state.commands.index.len(), 1);
    assert_eq!(core.debug_state.commands.registry[0].namespace, "profile");
    assert_eq!(core.debug_state.commands.registry[0].name, "set_snapshot_interval");
    assert_eq!(core.debug_state.commands.registry[0].desc, "Update snapshot interval");
    assert_eq!(core.debug_state.commands.registry[0].args, "<arguments: int>");
}

#[test]
fn registering_a_name_again_replaces_the_command() {
    let mut core = init_world();
    let again = Command {
        namespace: "profile".to_string(),
        name: "set_snapshot_interval".to_string(),
        executor: CommandExecutor::SetSnapshotInterval,
    };
    register_command(&mut core.debug_state, "again", again);
    assert_eq!(core.debug_state.commands.index.len(), 1);
    assert_eq!(core.debug_state.commands.registry.len(), 2);
    let other = Command {
        namespace: "profile".to_string(),
        name: "other".to_string(),
        executor: CommandExecutor::SetSnapshotInterval,
    };
    register_command(&mut core.debug_state, "other", other);
    assert_eq!(core.debug_state.commands.index.len(), 2);
    assert_eq!(execute_command(&mut core.debug_state, "profile::other 7"), Ok(()));
    assert_eq!(core.debug_state.profile.snapshot_interval, 7);
}
