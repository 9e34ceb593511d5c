use dropair::shake_shelf::{
    cooldown_elapsed, window_expired, DragClock, MonitorStatus, ShakeDiagnostics,
    ShakeMonitor as MacMonitor,
};
use dropair::windows_shelf::{DragState, MouseStep, MouseWatcher, ShakeMonitor};

const MS: u64 = 1_000_000;

#[test]
fn detects_shake_from_many_small_trackpad_movements() {
    let mut state = DragState::default();
    let samples = [0, 6, 12, 18, 25, 19, 13, 7, 1, 7, 13, 19, 25, 19, 13, 7, 1];

    let detected = samples.into_iter().any(|x| state.track_horizontal_motion(x, 24, 3));

    assert!(detected);
    assert_eq!(state.direction_changes, 3);
}

#[test]
fn ignores_short_horizontal_jitter() {
    let mut state = DragState::default();
    let detected = [0, 8, -5, 10, -7, 4].into_iter().any(|x| state.track_horizontal_motion(x, 24, 3));

    assert!(!detected);
    assert_eq!(state.direction_changes, 0);
}

#[test]
fn first_sample_only_sets_the_starting_point() {
    let mut state = DragState::default();
    state.direction_changes = 5;
    assert!(!state.track_horizontal_motion(100, 24, 3));
    assert_eq!(state.horizontal_extreme_x, Some(100));
    assert!(state.track_horizontal_motion(100, 24, 3));
}

#[test]
fn direction_follows_the_larger_travel() {
    let mut state = DragState::default();
    state.track_horizontal_motion(0, 24, 3);
    state.track_horizontal_motion(-30, 24, 3);
    assert_eq!(state.direction, -1);
    state.track_horizontal_motion(-50, 24, 3);
    assert_eq!(state.horizontal_extreme_x, Some(-50));
    state.track_horizontal_motion(-30, 24, 3);
    assert_eq!(state.direction, -1);
    assert_eq!(state.horizontal_extreme_x, Some(-50));
    state.track_horizontal_motion(-26, 24, 3);
    assert_eq!(state.direction, 1);
    assert_eq!(state.direction_changes, 1);
}

#[test]
fn can_track_flags_overflowing_samples() {
    let mut state = DragState::default();
    state.horizontal_extreme_x = Some(i32::MIN);
    assert!(!state.can_track(i32::MAX, 24));
    assert!(state.can_track(-1, 24));
    state.direction = 1;
    state.direction_changes = 255;
    state.horizontal_extreme_x = Some(100);
    assert!(!state.can_track(0, 24));
    assert!(state.can_track(90, 24));
}

#[test]
fn thresholds_tighten_with_sensitivity() {
    let mut m = ShakeMonitor::new(true, 0);
    assert_eq!(m.shake_thresholds(), (34, 4));
    m.set_sensitivity(2);
    assert_eq!(m.shake_thresholds(), (29, 3));
    m.set_sensitivity(3);
    assert_eq!(m.shake_thresholds(), (24, 3));
    m.set_sensitivity(4);
    assert_eq!(m.shake_thresholds(), (19, 3));
    m.set_sensitivity(5);
    assert_eq!(m.shake_thresholds(), (14, 2));
    m.set_sensitivity(200);
    assert_eq!(m.sensitivity, 5);
}

#[test]
fn windows_monitor_status_text() {
    let mut m = ShakeMonitor::new(true, 3);
    assert_eq!(m.monitor_status(), "starting");
    m.set_monitor_status(MonitorStatus::Listening);
    assert_eq!(m.monitor_status(), "listening");
    m.set_enabled(false);
    assert_eq!(m.monitor_status(), "disabled");
}

#[test]
fn mac_monitor_status_text_and_counters() {
    let mut m = MacMonitor::new();
    assert_eq!(m.monitor_status(), "starting");
    m.set_monitor_status(MonitorStatus::PermissionRequired);
    assert_eq!(m.monitor_status(), "permissionRequired");
    m.set_monitor_status(MonitorStatus::Listening);
    assert_eq!(m.monitor_status(), "listening");
    m.counters.record_mouse_down();
    m.counters.record_motion_sample();
    m.counters.record_motion_sample();
    m.counters.record_direction_changes(2);
    m.counters.record_direction_changes(1);
    m.counters.record_trigger();
    assert_eq!(
        m.diagnostics(),
        ShakeDiagnostics { mouse_downs: 1, motion_samples: 2, max_direction_changes: 2, triggers: 1 }
    );
    let mut d = ShakeDiagnostics::new();
    d.triggers = u64::MAX;
    d.record_trigger();
    assert_eq!(d.triggers, 0);
}

#[test]
fn windows_and_cooldowns_use_whole_milliseconds() {
    assert!(window_expired(None, 0));
    assert!(!window_expired(Some(0), 1500 * MS));
    assert!(!window_expired(Some(0), 1501 * MS - 1));
    assert!(window_expired(Some(0), 1501 * MS));
    assert!(!window_expired(Some(10 * MS), 0));
    assert!(cooldown_elapsed(None, 0));
    assert!(!cooldown_elapsed(Some(0), 2000 * MS - 1));
    assert!(cooldown_elapsed(Some(0), 2000 * MS));
}

fn shake(monitor: &mut ShakeMonitor, state: &mut DragState, start: u64) -> bool {
    let xs = [0, 30, 0, 30, 0];
    let mut shown = false;
    for (i, x) in xs.into_iter().enumerate() {
        shown |= monitor.process_drag_position(state, x, start + (i as u64) * 16 * MS);
    }
    shown
}

#[test]
fn a_shake_shows_the_shelf_then_cools_down() {
    let mut m = ShakeMonitor::new(true, 3);
    let mut state = DragState::default();
    assert!(shake(&mut m, &mut state, 0));
    assert_eq!(state.last_trigger, Some(64 * MS));
    assert_eq!(m.diagnostics().triggers, 1);
    assert_eq!(m.diagnostics().motion_samples, 5);
    assert_eq!(m.diagnostics().max_direction_changes, 3);
    assert_eq!(state.direction_changes, 0);

    assert!(!shake(&mut m, &mut state, 100 * MS));
    assert_eq!(m.diagnostics().triggers, 1);

    assert!(shake(&mut m, &mut state, 3000 * MS));
    assert_eq!(m.diagnostics().triggers, 2);
}

#[test]
fn an_expired_window_starts_the_shake_over() {
    let mut m = ShakeMonitor::new(true, 3);
    let mut state = DragState::default();
    m.process_drag_position(&mut state, 0, 0);
    m.process_drag_position(&mut state, 30, 10 * MS);
    m.process_drag_position(&mut state, 0, 20 * MS);
    assert_eq!(state.direction_changes, 1);
    assert!(!m.process_drag_position(&mut state, 30, 2000 * MS));
    assert_eq!(state.direction_changes, 0);
    assert_eq!(state.window_started, Some(2000 * MS));
}

#[test]
fn a_disabled_monitor_ignores_motion() {
    let mut m = ShakeMonitor::new(false, 3);
    let mut state = DragState::default();
    state.is_dragging = true;
    assert!(!m.process_drag_position(&mut state, 10, 0));
    assert!(!state.is_dragging);
    assert_eq!(state.window_started, None);
    assert_eq!(m.diagnostics().motion_samples, 0);
}

#[test]
fn watching_the_mouse_counts_presses_and_sleeps() {
    let mut m = ShakeMonitor::new(true, 5);
    let mut w = MouseWatcher { state: DragState::default(), button_was_down: false };
    let step = m.watch_mouse_step(&mut w, true, Some(0), 0);
    assert_eq!(step, MouseStep { show_shelf: false, sleep_ms: 16 });
    m.watch_mouse_step(&mut w, true, None, 16 * MS);
    assert_eq!(m.diagnostics().mouse_downs, 1);
    m.watch_mouse_step(&mut w, true, Some(20), 32 * MS);
    let step = m.watch_mouse_step(&mut w, true, Some(0), 48 * MS);
    assert!(!step.show_shelf);
    let step = m.watch_mouse_step(&mut w, true, Some(20), 56 * MS);
    assert!(step.show_shelf);
    m.watch_mouse_step(&mut w, false, None, 64 * MS);
    assert!(!w.state.is_dragging);
    assert!(!w.button_was_down);
    m.watch_mouse_step(&mut w, true, Some(0), 80 * MS);
    assert_eq!(m.diagnostics().mouse_downs, 2);

    m.set_enabled(false);
    let step = m.watch_mouse_step(&mut w, true, Some(0), 96 * MS);
    assert_eq!(step, MouseStep { show_shelf: false, sleep_ms: 50 });
    assert_eq!(w.state, DragState::default());
}

#[test]
fn mirrored_motion_is_detected_alike() {
    let samples = [0, 6, 12, 18, 25, 19, 13, 7, 1, 7, 13, 19, 25, 19, 13, 7, 1];
    let mut right = DragState::default();
    let mut left = DragState::default();
    for x in samples {
        let a = right.track_horizontal_motion(x, 24, 3);
        let b = left.track_horizontal_motion(-x, 24, 3);
        assert_eq!(a, b);
        assert_eq!(right.direction_changes, left.direction_changes);
        assert_eq!(right.direction, -left.direction);
    }
}

#[test]
fn mac_clock_restarts_windows_and_spaces_triggers() {
    let mut m = MacMonitor::new();
    let mut clock = DragClock::new();
    assert!(m.begin_sample(&mut clock, 0));
    assert!(clock.is_dragging);
    assert_eq!(clock.window_started, Some(0));
    assert!(!m.begin_sample(&mut clock, 100 * MS));
    assert!(m.finish_sample(&mut clock, true, 3, 100 * MS));
    assert_eq!(clock.last_trigger, Some(100 * MS));
    assert_eq!(clock.window_started, Some(100 * MS));
    assert!(!m.begin_sample(&mut clock, 200 * MS));
    assert!(!m.finish_sample(&mut clock, true, 3, 200 * MS));
    assert!(m.begin_sample(&mut clock, 1700 * MS));
    assert!(!m.finish_sample(&mut clock, false, 1, 1700 * MS));
    assert!(m.finish_sample(&mut clock, true, 4, 2100 * MS));
    clock.mouse_up();
    assert!(!clock.is_dragging);
    m.mouse_down(&mut clock, 3000 * MS);
    assert_eq!(clock.window_started, Some(3000 * MS));
    assert_eq!(clock.last_trigger, Some(2100 * MS));
    assert_eq!(
        m.diagnostics(),
        ShakeDiagnostics { mouse_downs: 1, motion_samples: 4, max_direction_changes: 4, triggers: 2 }
    );
}
