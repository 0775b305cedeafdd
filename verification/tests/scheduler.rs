use apex_tux::Action;
use apex_tux::Command;
use apex_tux::Event;
use apex_tux::FrameBuffer;
use apex_tux::ProviderError;
use apex_tux::SchedulerCore;
use apex_tux::auto_advance_enabled;
use apex_tux::next_index;
use apex_tux::previous_index;
use apex_tux::refresh_threshold_ms;
use apex_tux::scheduler::ProviderEntry;
use apex_tux::scheduler::plan_rotation;

fn entry(name: &str, ok: bool, enabled: Option<bool>, priority: Option<i64>) -> ProviderEntry {
    ProviderEntry { name: name.to_string(), factory_ok: ok, enabled, priority }
}

#[test]
fn previous_from_zero_wraps_to_count_minus_one() {
    assert_eq!(previous_index(0, 5), 4);
    assert_eq!(previous_index(3, 5), 2);
}

#[test]
fn next_from_last_wraps_to_zero() {
    assert_eq!(next_index(4, 5), 0);
    assert_eq!(next_index(0, 5), 1);
}

#[test]
fn rotation_follows_priority_order() {
    // Priorities 2, 3, 1 registered in that order: the rotation is 1, 2, 3.
    let entries = vec![
        entry("stats", true, Some(true), Some(2)),
        entry("clock", true, Some(true), Some(3)),
        entry("music", true, Some(true), Some(1)),
    ];
    assert_eq!(plan_rotation(&entries), vec![2, 0, 1]);
}

#[test]
fn three_next_commands_cycle_back_to_the_start() {
    let mut core = SchedulerCore::new(3, 0, false, 30_000);
    assert_eq!(core.current_index(), 0);
    for step in 1..=3u64 {
        core.step(Event::Command { cmd: Command::NextSource, now_ms: step });
    }
    assert_eq!(core.current_index(), 0);
}

#[test]
fn failed_factory_is_absent_and_count_drops_by_one() {
    let entries = vec![
        entry("clock", true, None, Some(1)),
        entry("broken", false, None, Some(2)),
        entry("music", true, None, Some(3)),
    ];
    let rotation = plan_rotation(&entries);
    assert_eq!(rotation.len(), 2);
    assert!(!rotation.contains(&1));
    assert_eq!(rotation, vec![0, 2]);
}

#[test]
fn disabled_provider_is_excluded() {
    let entries = vec![
        entry("clock", true, Some(false), Some(1)),
        entry("music", true, None, Some(2)),
    ];
    assert_eq!(plan_rotation(&entries), vec![1]);
}

#[test]
fn equal_priorities_keep_registration_order() {
    let entries = vec![
        entry("a", true, None, Some(5)),
        entry("b", true, None, Some(5)),
        entry("c", true, None, Some(1)),
    ];
    assert_eq!(plan_rotation(&entries), vec![2, 0, 1]);
}

#[test]
fn missing_priority_defaults_to_lowest() {
    let entries = vec![
        entry("late", true, None, None),
        entry("early", true, None, Some(1)),
    ];
    assert_eq!(plan_rotation(&entries), vec![1, 0]);
}

fn marked_frame(x: i32, y: i32) -> FrameBuffer {
    let mut f = FrameBuffer::new();
    f.draw_pixel(x, y, true);
    f
}

#[test]
fn notification_drain_is_atomic_and_resumes_multiplexing() {
    let mut core = SchedulerCore::new(2, 0, false, 30_000);
    let frames: Vec<FrameBuffer> = (0..5).map(|i| marked_frame(i, 0)).collect();
    let expected: Vec<Vec<u8>> = frames.iter().map(|f| f.as_bytes().clone()).collect();
    let actions = core.step(Event::Notification { frames });
    // Exactly 5 draws, in order, nothing interleaved.
    assert_eq!(actions.len(), 5);
    for (i, action) in actions.iter().enumerate() {
        match action {
            Action::Draw(f) => assert_eq!(f.as_bytes(), &expected[i]),
            _ => panic!("notification drain demanded something besides a draw"),
        }
    }
    // The selection is untouched and normal content flows again.
    assert_eq!(core.current_index(), 0);
    let resumed = core.step(Event::Content { item: Some(Ok(marked_frame(7, 7))) });
    assert_eq!(resumed.len(), 1);
    assert!(matches!(resumed[0], Action::Draw(_)));
}

#[test]
fn shutdown_clears_once_then_tears_down_and_never_draws() {
    let mut core = SchedulerCore::new(2, 0, false, 30_000);
    let actions = core.step(Event::Command { cmd: Command::Shutdown, now_ms: 10 });
    assert_eq!(actions.len(), 2);
    assert!(matches!(actions[0], Action::Clear));
    assert!(matches!(actions[1], Action::ShutdownSink));
    assert!(!core.is_running());
}

#[test]
fn switch_commands_clear_the_screen_and_move_the_index() {
    let mut core = SchedulerCore::new(3, 0, false, 30_000);
    let actions = core.step(Event::Command { cmd: Command::NextSource, now_ms: 5 });
    assert_eq!(actions.len(), 1);
    assert!(matches!(actions[0], Action::Clear));
    assert_eq!(core.current_index(), 1);
    let actions = core.step(Event::Command { cmd: Command::PreviousSource, now_ms: 6 });
    assert!(matches!(actions[0], Action::Clear));
    assert_eq!(core.current_index(), 0);
}

#[test]
fn provider_errors_and_stream_end_draw_nothing() {
    let mut core = SchedulerCore::new(1, 0, false, 30_000);
    let err = ProviderError { message: "fetch failed".to_string() };
    assert_eq!(core.step(Event::Content { item: Some(Err(err)) }).len(), 0);
    assert_eq!(core.step(Event::Content { item: None }).len(), 0);
}

#[test]
fn auto_advance_fires_only_past_the_threshold() {
    let mut core = SchedulerCore::new(2, 1_000, true, 30_000);
    assert_eq!(core.step(Event::AutoTick { now_ms: 31_000 }).len(), 0);
    let actions = core.step(Event::AutoTick { now_ms: 31_001 });
    assert_eq!(actions.len(), 1);
    assert!(matches!(actions[0], Action::Emit(Command::NextSource)));
    // The synthesized command is handled like an external one.
    core.step(Event::Command { cmd: Command::NextSource, now_ms: 31_001 });
    assert_eq!(core.current_index(), 1);
}

#[test]
fn auto_advance_disabled_never_fires() {
    let mut core = SchedulerCore::new(2, 0, false, 1);
    assert_eq!(core.step(Event::AutoTick { now_ms: u64::MAX }).len(), 0);
}

#[test]
fn auto_advance_config_defaults() {
    assert!(auto_advance_enabled(None));
    assert!(!auto_advance_enabled(Some(0)));
    assert!(auto_advance_enabled(Some(7)));
    assert_eq!(refresh_threshold_ms(None), 30_000);
    assert_eq!(refresh_threshold_ms(Some(5)), 5_000);
    assert_eq!(refresh_threshold_ms(Some(0)), 0);
    // A negative value reads as its unsigned reinterpretation, saturating.
    assert_eq!(refresh_threshold_ms(Some(-1)), u64::MAX);
}

#[test]
fn commands_record_the_switch_time() {
    let mut core = SchedulerCore::new(2, 0, true, 30_000);
    core.step(Event::Command { cmd: Command::NextSource, now_ms: 100_000 });
    // 30 s after the switch: not yet past the threshold.
    assert_eq!(core.step(Event::AutoTick { now_ms: 130_000 }).len(), 0);
    assert_eq!(core.step(Event::AutoTick { now_ms: 130_001 }).len(), 1);
}
