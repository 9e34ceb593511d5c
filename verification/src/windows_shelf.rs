//! Horizontal-shake detection on Windows: the per-drag state machine, the
//! sensitivity thresholds, and one step of the mouse-watching loop. Pointer
//! positions are whole screen pixels; times are nanoseconds on a monotonic
//! clock.

use vstd::prelude::*;
use crate::shake_shelf::{
    cooldown_elapsed, spec_cooldown_elapsed, spec_window_expired, window_expired, MonitorStatus,
    TRIGGER_COOLDOWN_NS,
};
pub use crate::shake_shelf::ShakeDiagnostics;
use crate::settings::{clamp_sensitivity, spec_clamp_sensitivity, MAX_SENSITIVITY, MIN_SENSITIVITY};

verus! {

/// What is tracked while the left button is held.
#[derive(Clone, Copy, Debug, PartialEq, Eq, Structural)]
pub struct DragState {
    pub is_dragging: bool,
    /// The farthest point reached in the current direction.
    pub horizontal_extreme_x: Option<i32>,
    /// 1 while moving right, -1 while moving left, 0 before any movement.
    pub direction: i8,
    pub direction_changes: u8,
    pub window_started: Option<u64>,
    pub last_trigger: Option<u64>,
}

impl DragState {
    pub open spec fn initial() -> DragState {
        DragState {
            is_dragging: false,
            horizontal_extreme_x: None,
            direction: 0,
            direction_changes: 0,
            window_started: None,
            last_trigger: None,
        }
    }

    /// The shape every reachable state has: a direction of -1, 0 or 1, no
    /// changes before a direction is taken, no direction before a starting
    /// point.
    pub open spec fn inv(self) -> bool {
        &&& self.direction == -1 || self.direction == 0 || self.direction == 1
        &&& self.direction == 0 ==> self.direction_changes == 0
        &&& self.horizontal_extreme_x is None ==> self.direction == 0
    }

    /// The state with left and right swapped.
    pub open spec fn mirrored(self) -> DragState {
        DragState {
            horizontal_extreme_x: match self.horizontal_extreme_x {
                Some(e) => Some((-e) as i32),
                None => None,
            },
            direction: (-self.direction) as i8,
            ..self
        }
    }

    pub open spec fn spec_reset_motion(self, x: Option<i32>) -> DragState {
        DragState { horizontal_extreme_x: x, direction: 0, direction_changes: 0, ..self }
    }

    /// Whether a sample at `x` reverses the current direction.
    pub open spec fn reverses(self, x: i32, min_travel: i32) -> bool {
        match self.horizontal_extreme_x {
            None => false,
            Some(e) => {
                ||| (self.direction == 1 && !(x > e) && e - x >= min_travel)
                ||| (self.direction == -1 && !(x < e) && x - e >= min_travel)
            },
        }
    }

    /// The inputs on which a sample can be tracked without an arithmetic
    /// overflow: the distances it computes fit in `i32`, and a reversal
    /// finds room in the change counter.
    pub open spec fn can_track_spec(self, x: i32, min_travel: i32) -> bool {
        &&& match self.horizontal_extreme_x {
            None => true,
            Some(e) => if self.direction == 0 {
                i32::MIN < x - e <= i32::MAX
            } else if self.direction == 1 {
                x > e || e - x <= i32::MAX
            } else if self.direction == -1 {
                x < e || x - e <= i32::MAX
            } else {
                true
            },
        }
        &&& self.reverses(x, min_travel) ==> self.direction_changes < u8::MAX
    }

    /// The state after one sample at `x`.
    pub open spec fn track_step(self, x: i32, min_travel: i32) -> DragState {
        match self.horizontal_extreme_x {
            None => DragState { horizontal_extreme_x: Some(x), ..self },
            Some(e) => if self.direction == 0 {
                let travel = x - e;
                let distance = if travel < 0 {
                    -travel
                } else {
                    travel
                };
                if distance >= min_travel {
                    DragState {
                        direction: if travel > 0 {
                            1i8
                        } else {
                            -1i8
                        },
                        horizontal_extreme_x: Some(x),
                        ..self
                    }
                } else {
                    self
                }
            } else if self.direction == 1 {
                if x > e {
                    DragState { horizontal_extreme_x: Some(x), ..self }
                } else if e - x >= min_travel {
                    DragState {
                        direction: -1i8,
                        direction_changes: (self.direction_changes + 1) as u8,
                        horizontal_extreme_x: Some(x),
                        ..self
                    }
                } else {
                    self
                }
            } else if self.direction == -1 {
                if x < e {
                    DragState { horizontal_extreme_x: Some(x), ..self }
                } else if x - e >= min_travel {
                    DragState {
                        direction: 1i8,
                        direction_changes: (self.direction_changes + 1) as u8,
                        horizontal_extreme_x: Some(x),
                        ..self
                    }
                } else {
                    self
                }
            } else {
                self
            },
        }
    }

    /// Whether a sample at `x` completes a shake: the first sample of a
    /// motion never does; after it, enough direction changes do.
    pub open spec fn track_detects(self, x: i32, min_travel: i32, required: u8) -> bool {
        self.horizontal_extreme_x is Some && self.track_step(x, min_travel).direction_changes
            >= required
    }

    pub fn reset_motion(&mut self, x: Option<i32>)
        ensures
            *final(self) == old(self).spec_reset_motion(x),
            final(self).inv(),
    {
        self.horizontal_extreme_x = x;
        self.direction = 0;
        self.direction_changes = 0;
    }

    /// Whether `track_horizontal_motion(x, min_travel, ..)` can run on this
    /// state (see `can_track_spec`).
    pub fn can_track(&self, x: i32, min_travel: i32) -> (b: bool)
        ensures
            b == self.can_track_spec(x, min_travel),
    {
        let fits = match self.horizontal_extreme_x {
            None => true,
            Some(e) => {
                let d = x as i64 - e as i64;
                if self.direction == 0 {
                    -2147483647 <= d && d <= 2147483647
                } else if self.direction == 1 {
                    x > e || -d <= 2147483647
                } else if self.direction == -1 {
                    x < e || d <= 2147483647
                } else {
                    true
                }
            },
        };
        let reverses = match self.horizontal_extreme_x {
            None => false,
            Some(e) => {
                let d = x as i64 - e as i64;
                (self.direction == 1 && !(x > e) && -d >= min_travel as i64) || (self.direction
                    == -1 && !(x < e) && d >= min_travel as i64)
            },
        };
        fits && (!reverses || self.direction_changes < 255)
    }

    /// Feeds one horizontal pointer position into the shake detector and
    /// says whether the shake is complete.
    pub fn track_horizontal_motion(&mut self, x: i32, min_horizontal_travel: i32, required_direction_changes: u8) -> (detected: bool)
        requires
            old(self).can_track_spec(x, min_horizontal_travel),
        ensures
            *final(self) == old(self).track_step(x, min_horizontal_travel),
            detected == old(self).track_detects(x, min_horizontal_travel, required_direction_changes),
            final(self).horizontal_extreme_x is Some,
            final(self).direction_changes == old(self).direction_changes
                || final(self).direction_changes == old(self).direction_changes + 1,
            (old(self).direction == -1 || old(self).direction == 0 || old(self).direction == 1)
                ==> (final(self).direction == -1 || final(self).direction == 0
                || final(self).direction == 1),
            old(self).inv() ==> final(self).inv(),
    {
        let extreme_x = match self.horizontal_extreme_x {
            None => {
                self.horizontal_extreme_x = Some(x);
                return false;
            },
            Some(e) => e,
        };
        if self.direction == 0 {
            let travel = x - extreme_x;
            let distance = if travel < 0 {
                -travel
            } else {
                travel
            };
            if distance >= min_horizontal_travel {
                self.direction = if travel > 0 {
                    1
                } else {
                    -1
                };
                self.horizontal_extreme_x = Some(x);
            }
        } else if self.direction == 1 {
            if x > extreme_x {
                self.horizontal_extreme_x = Some(x);
            } else if extreme_x - x >= min_horizontal_travel {
                self.direction = -1;
                self.direction_changes = self.direction_changes + 1;
                self.horizontal_extreme_x = Some(x);
            }
        } else if self.direction == -1 {
            if x < extreme_x {
                self.horizontal_extreme_x = Some(x);
            } else if x - extreme_x >= min_horizontal_travel {
                self.direction = 1;
                self.direction_changes = self.direction_changes + 1;
                self.horizontal_extreme_x = Some(x);
            }
        }
        self.direction_changes >= required_direction_changes
    }
}

impl Default for DragState {
    fn default() -> (s: DragState)
        ensures
            s == DragState::initial(),
            s.inv(),
    {
        DragState {
            is_dragging: false,
            horizontal_extreme_x: None,
            direction: 0,
            direction_changes: 0,
            window_started: None,
            last_trigger: None,
        }
    }
}

} // verus!

verus! {

/// The travel in pixels that counts as a movement, and the number of
/// direction changes that make a shake, for a sensitivity (clamped to 1..=5).
pub open spec fn spec_thresholds(sensitivity: u8) -> (i32, u8) {
    let s = spec_clamp_sensitivity(sensitivity);
    if s == 1 {
        (34, 4)
    } else if s == 2 {
        (29, 3)
    } else if s == 3 {
        (24, 3)
    } else if s == 4 {
        (19, 3)
    } else {
        (14, 2)
    }
}

/// A higher sensitivity asks for less travel and no more direction changes.
pub proof fn lemma_thresholds_monotonic(a: u8, b: u8)
    requires
        MIN_SENSITIVITY <= a < b <= MAX_SENSITIVITY,
    ensures
        spec_thresholds(b).0 < spec_thresholds(a).0,
        spec_thresholds(b).1 <= spec_thresholds(a).1,
{
}

/// The state after the clock rules of a sample at `x` at time `now`: a new
/// drag starts a window, and an expired window starts over at `x`.
pub open spec fn prepare_spec(s: DragState, x: i32, now: u64) -> DragState {
    let s1 = if !s.is_dragging {
        DragState { is_dragging: true, window_started: Some(now), ..s.spec_reset_motion(Some(x)) }
    } else {
        s
    };
    if spec_window_expired(s1.window_started, now) {
        DragState { window_started: Some(now), ..s1.spec_reset_motion(Some(x)) }
    } else {
        s1
    }
}

/// The Windows monitor: status, preferences and counters.
pub struct ShakeMonitor {
    pub status: MonitorStatus,
    pub enabled: bool,
    pub sensitivity: u8,
    pub counters: ShakeDiagnostics,
}

/// What one turn of the mouse-watching loop asks of its caller.
#[derive(Clone, Copy, Debug, PartialEq, Eq, Structural)]
pub struct MouseStep {
    pub show_shelf: bool,
    pub sleep_ms: u64,
}

/// The state that the mouse-watching loop keeps between turns.
#[derive(Clone, Copy, Debug, PartialEq, Eq, Structural)]
pub struct MouseWatcher {
    pub state: DragState,
    pub button_was_down: bool,
}

/// The text that the front end shows for a Windows monitor.
pub open spec fn windows_status_text(enabled: bool, status: MonitorStatus) -> Seq<char> {
    if !enabled {
        "disabled"@
    } else if status == MonitorStatus::Listening {
        "listening"@
    } else {
        "starting"@
    }
}

impl ShakeMonitor {
    /// A monitor that starts with the stored preferences.
    pub fn new(enabled: bool, sensitivity: u8) -> (m: ShakeMonitor)
        ensures
            m.status == MonitorStatus::Starting,
            m.enabled == enabled,
            m.sensitivity == spec_clamp_sensitivity(sensitivity),
            m.counters == ShakeDiagnostics::zero(),
    {
        ShakeMonitor {
            status: MonitorStatus::Starting,
            enabled,
            sensitivity: clamp_sensitivity(sensitivity),
            counters: ShakeDiagnostics::new(),
        }
    }

    pub fn set_monitor_status(&mut self, status: MonitorStatus)
        ensures
            *final(self) == (ShakeMonitor { status, ..*old(self) }),
    {
        self.status = status;
    }

    pub fn monitor_status(&self) -> (s: &'static str)
        ensures
            s@ == windows_status_text(self.enabled, self.status),
    {
        if !self.enabled {
            return "disabled";
        }
        match self.status {
            MonitorStatus::Listening => "listening",
            _ => "starting",
        }
    }

    pub fn set_enabled(&mut self, enabled: bool)
        ensures
            *final(self) == (ShakeMonitor { enabled, ..*old(self) }),
    {
        self.enabled = enabled;
    }

    pub fn set_sensitivity(&mut self, sensitivity: u8)
        ensures
            *final(self) == (ShakeMonitor {
                sensitivity: spec_clamp_sensitivity(sensitivity),
                ..*old(self)
            }),
    {
        self.sensitivity = clamp_sensitivity(sensitivity);
    }

    pub fn diagnostics(&self) -> (d: ShakeDiagnostics)
        ensures
            d == self.counters,
    {
        self.counters
    }

    pub fn shake_thresholds(&self) -> (t: (i32, u8))
        ensures
            t == spec_thresholds(self.sensitivity),
    {
        let s = clamp_sensitivity(self.sensitivity);
        if s == 1 {
            (34, 4)
        } else if s == 2 {
            (29, 3)
        } else if s == 3 {
            (24, 3)
        } else if s == 4 {
            (19, 3)
        } else {
            (14, 2)
        }
    }

    /// The inputs on which `process_drag_position` runs without an
    /// arithmetic overflow.
    pub open spec fn can_process_spec(&self, state: DragState, x: i32, now: u64) -> bool {
        self.enabled ==> prepare_spec(state, x, now).can_track_spec(
            x,
            spec_thresholds(self.sensitivity).0,
        )
    }

    /// Whether a shake fires for a sample at `x` at time `now`.
    pub open spec fn fires(&self, state: DragState, x: i32, now: u64) -> bool {
        let p = prepare_spec(state, x, now);
        let (min_travel, required) = spec_thresholds(self.sensitivity);
        &&& self.enabled
        &&& p.track_detects(x, min_travel, required)
        &&& spec_cooldown_elapsed(p.last_trigger, now)
    }

    /// The drag state after a sample at `x` at time `now`.
    pub open spec fn next_drag_state(&self, state: DragState, x: i32, now: u64) -> DragState {
        if !self.enabled {
            DragState { is_dragging: false, window_started: None, ..state.spec_reset_motion(None) }
        } else {
            let p = prepare_spec(state, x, now);
            let t = p.track_step(x, spec_thresholds(self.sensitivity).0);
            if self.fires(state, x, now) {
                DragState {
                    last_trigger: Some(now),
                    window_started: Some(now),
                    ..t.spec_reset_motion(Some(x))
                }
            } else {
                t
            }
        }
    }

    /// The counters after a sample at `x` at time `now`.
    pub open spec fn next_counters(&self, state: DragState, x: i32, now: u64) -> ShakeDiagnostics {
        if !self.enabled {
            self.counters
        } else {
            let p = prepare_spec(state, x, now);
            let t = p.track_step(x, spec_thresholds(self.sensitivity).0);
            let c = self.counters;
            ShakeDiagnostics {
                motion_samples: c.motion_samples.wrapping_add(1),
                max_direction_changes: if t.direction_changes > c.max_direction_changes {
                    t.direction_changes
                } else {
                    c.max_direction_changes
                },
                triggers: if self.fires(state, x, now) {
                    c.triggers.wrapping_add(1)
                } else {
                    c.triggers
                },
                ..c
            }
        }
    }

    pub fn can_process(&self, state: &DragState, x: i32, now: u64) -> (b: bool)
        ensures
            b == self.can_process_spec(*state, x, now),
    {
        if !self.enabled {
            return true;
        }
        let mut p = *state;
        prepare(&mut p, x, now);
        let (min_travel, _) = self.shake_thresholds();
        p.can_track(x, min_travel)
    }

    /// Feeds a pointer position taken while the left button is held; says
    /// whether the shelf is to be shown.
    pub fn process_drag_position(&mut self, state: &mut DragState, x: i32, now: u64) -> (show: bool)
        requires
            old(self).can_process_spec(*old(state), x, now),
        ensures
            show == old(self).fires(*old(state), x, now),
            *final(state) == old(self).next_drag_state(*old(state), x, now),
            final(self).counters == old(self).next_counters(*old(state), x, now),
            final(self).status == old(self).status,
            final(self).enabled == old(self).enabled,
            final(self).sensitivity == old(self).sensitivity,
            (*final(self), *final(state)) == process_step(*old(self), *old(state), x, now),
            show ==> spec_cooldown_elapsed(old(state).last_trigger, now),
            show ==> final(state).last_trigger == Some(now),
            !show ==> final(state).last_trigger == old(state).last_trigger,
            old(state).inv() ==> final(state).inv(),
    {
        if !self.enabled {
            state.is_dragging = false;
            state.reset_motion(None);
            state.window_started = None;
            return false;
        }
        self.counters.record_motion_sample();
        prepare(state, x, now);
        let (min_travel, required) = self.shake_thresholds();
        let detected = state.track_horizontal_motion(x, min_travel, required);
        self.counters.record_direction_changes(state.direction_changes);
        if detected && cooldown_elapsed(state.last_trigger, now) {
            self.counters.record_trigger();
            state.last_trigger = Some(now);
            state.reset_motion(Some(x));
            state.window_started = Some(now);
            return true;
        }
        false
    }

    /// The monitor, the watcher and the request after one turn of the
    /// mouse-watching loop. A disabled monitor forgets the drag and sleeps
    /// longer; a released button ends the drag; a press is counted once, and
    /// while the button is held each cursor reading is processed.
    pub open spec fn watch_next(self, watcher: MouseWatcher, button_is_down: bool, cursor_x: Option<i32>, now: u64) -> (ShakeMonitor, MouseWatcher, MouseStep) {
        if !self.enabled {
            (
                self,
                MouseWatcher { state: DragState::initial(), button_was_down: false },
                MouseStep { show_shelf: false, sleep_ms: 50 },
            )
        } else if !button_is_down {
            (
                self,
                MouseWatcher {
                    state: DragState { is_dragging: false, ..watcher.state.spec_reset_motion(None) },
                    button_was_down: false,
                },
                MouseStep { show_shelf: false, sleep_ms: 16 },
            )
        } else {
            let counted = if watcher.button_was_down {
                self.counters
            } else {
                ShakeDiagnostics {
                    mouse_downs: self.counters.mouse_downs.wrapping_add(1),
                    ..self.counters
                }
            };
            let m = ShakeMonitor { counters: counted, ..self };
            match cursor_x {
                None => (
                    m,
                    MouseWatcher { state: watcher.state, button_was_down: true },
                    MouseStep { show_shelf: false, sleep_ms: 16 },
                ),
                Some(x) => (
                    process_step(m, watcher.state, x, now).0,
                    MouseWatcher { state: m.next_drag_state(watcher.state, x, now), button_was_down: true },
                    MouseStep { show_shelf: m.fires(watcher.state, x, now), sleep_ms: 16 },
                ),
            }
        }
    }

    /// The inputs on which `watch_mouse_step` runs without an arithmetic
    /// overflow.
    pub open spec fn can_watch_spec(&self, watcher: MouseWatcher, button_is_down: bool, cursor_x: Option<i32>, now: u64) -> bool {
        self.enabled && button_is_down && cursor_x is Some ==> self.can_process_spec(
            watcher.state,
            cursor_x.unwrap(),
            now,
        )
    }

    pub fn can_watch(&self, watcher: &MouseWatcher, button_is_down: bool, cursor_x: Option<i32>, now: u64) -> (b: bool)
        ensures
            b == self.can_watch_spec(*watcher, button_is_down, cursor_x, now),
    {
        match cursor_x {
            Some(x) if self.enabled && button_is_down => self.can_process(&watcher.state, x, now),
            _ => true,
        }
    }

    /// One turn of the mouse-watching loop: the button's state, the cursor's
    /// x position when it could be read, and the time.
    pub fn watch_mouse_step(&mut self, watcher: &mut MouseWatcher, button_is_down: bool, cursor_x: Option<i32>, now: u64) -> (step: MouseStep)
        requires
            old(self).can_watch_spec(*old(watcher), button_is_down, cursor_x, now),
        ensures
            (*final(self), *final(watcher), step) == old(self).watch_next(
                *old(watcher),
                button_is_down,
                cursor_x,
                now,
            ),
            old(watcher).state.inv() ==> final(watcher).state.inv(),
    {
        if !self.enabled {
            watcher.state = DragState::default();
            watcher.button_was_down = false;
            return MouseStep { show_shelf: false, sleep_ms: 50 };
        }
        let mut show_shelf = false;
        if button_is_down {
            if !watcher.button_was_down {
                self.counters.record_mouse_down();
            }
            if let Some(x) = cursor_x {
                show_shelf = self.process_drag_position(&mut watcher.state, x, now);
            }
        } else {
            watcher.state.is_dragging = false;
            watcher.state.reset_motion(None);
        }
        watcher.button_was_down = button_is_down;
        MouseStep { show_shelf, sleep_ms: 16 }
    }
}

/// The monitor and drag state after a sample at `x` at time `now`.
pub open spec fn process_step(m: ShakeMonitor, s: DragState, x: i32, now: u64) -> (ShakeMonitor, DragState) {
    (ShakeMonitor { counters: m.next_counters(s, x, now), ..m }, m.next_drag_state(s, x, now))
}

/// Applies the clock rules of a sample (see `prepare_spec`).
fn prepare(state: &mut DragState, x: i32, now: u64)
    ensures
        *final(state) == prepare_spec(*old(state), x, now),
        old(state).inv() ==> final(state).inv(),
{
    if !state.is_dragging {
        state.is_dragging = true;
        state.reset_motion(Some(x));
        state.window_started = Some(now);
    }
    if window_expired(state.window_started, now) {
        state.reset_motion(Some(x));
        state.window_started = Some(now);
    }
}

} // verus!

verus! {

/// The state after feeding the samples `xs`, in order.
pub open spec fn track_all(s: DragState, xs: Seq<i32>, min_travel: i32) -> DragState
    decreases xs.len(),
{
    if xs.len() == 0 {
        s
    } else {
        track_all(s, xs.drop_last(), min_travel).track_step(xs.last(), min_travel)
    }
}

/// Jitter never counts as a shake: when no two samples lie `min_travel` or
/// more apart, a motion that starts afresh never takes a direction, so it
/// never changes direction; every sample on the way can be tracked.
pub proof fn lemma_jitter_never_turns(s: DragState, xs: Seq<i32>, min_travel: i32)
    requires
        s.horizontal_extreme_x is None,
        s.direction == 0,
        min_travel > 0,
        forall|i: int, j: int|
            0 <= i < xs.len() && 0 <= j < xs.len() ==> #[trigger] xs[i] - #[trigger] xs[j]
                < min_travel,
    ensures
        track_all(s, xs, min_travel).direction == 0,
        track_all(s, xs, min_travel).direction_changes == s.direction_changes,
        xs.len() > 0 ==> track_all(s, xs, min_travel).horizontal_extreme_x == Some(xs[0]),
        forall|k: int|
            0 <= k < xs.len() ==> #[trigger] track_all(s, xs.take(k), min_travel).can_track_spec(
                xs[k],
                min_travel,
            ),
    decreases xs.len(),
{
    if xs.len() > 0 {
        let init = xs.drop_last();
        assert forall|i: int, j: int|
            0 <= i < init.len() && 0 <= j < init.len() implies #[trigger] init[i]
            - #[trigger] init[j] < min_travel by {
            assert(init[i] == xs[i] && init[j] == xs[j]);
        }
        lemma_jitter_never_turns(s, init, min_travel);
        let last = xs.len() - 1;
        if init.len() > 0 {
            assert(init[0] == xs[0]);
            assert(xs[last] - xs[0] < min_travel);
            assert(xs[0] - xs[last] < min_travel);
        }
        assert forall|k: int| 0 <= k < xs.len() implies #[trigger] track_all(
            s,
            xs.take(k),
            min_travel,
        ).can_track_spec(xs[k], min_travel) by {
            if k < last {
                assert(xs.take(k) =~= init.take(k));
                assert(xs[k] == init[k]);
            } else {
                assert(xs.take(k) =~= init);
                if init.len() > 0 {
                    assert(xs[k] - xs[0] < min_travel);
                    assert(xs[0] - xs[k] < min_travel);
                }
            }
        }
    }
}

} // verus!

verus! {

/// A tracking step keeps the shape of a reachable state.
pub proof fn lemma_track_step_keeps_inv(s: DragState, x: i32, min_travel: i32)
    requires
        s.inv(),
    ensures
        s.track_step(x, min_travel).inv(),
{
}

/// Mirroring a motion left for right changes neither what is detected nor
/// the number of direction changes: tracking `-x` from the mirrored state
/// gives the mirror of tracking `x`. (`i32::MIN` has no mirror in `i32`,
/// and a travel threshold of 0 or less counts a standstill as a move to the
/// left, so those are left out.)
pub proof fn lemma_mirror(s: DragState, x: i32, min_travel: i32, required: u8)
    requires
        s.inv(),
        min_travel > 0,
        x != i32::MIN,
        s.horizontal_extreme_x != Some(i32::MIN),
    ensures
        s.mirrored().track_step((-x) as i32, min_travel) == s.track_step(x, min_travel).mirrored(),
        s.mirrored().track_detects((-x) as i32, min_travel, required) == s.track_detects(
            x,
            min_travel,
            required,
        ),
{
}

/// The monitor and drag state after the samples `xs` (position, time), in
/// order.
pub open spec fn process_run(m: ShakeMonitor, s: DragState, xs: Seq<(i32, u64)>) -> (ShakeMonitor, DragState)
    decreases xs.len(),
{
    if xs.len() == 0 {
        (m, s)
    } else {
        let p = process_run(m, s, xs.drop_last());
        process_step(p.0, p.1, xs.last().0, xs.last().1)
    }
}

/// Whether the `k`-th sample of a run shows the shelf.
pub open spec fn fires_at(m: ShakeMonitor, s: DragState, xs: Seq<(i32, u64)>, k: int) -> bool {
    let p = process_run(m, s, xs.take(k));
    p.0.fires(p.1, xs[k].0, xs[k].1)
}

pub open spec fn times_rise(xs: Seq<(i32, u64)>) -> bool {
    forall|i: int, j: int| 0 <= i <= j < xs.len() ==> #[trigger] xs[i].1 <= #[trigger] xs[j].1
}

proof fn lemma_run_step(m: ShakeMonitor, s: DragState, xs: Seq<(i32, u64)>, k: int)
    requires
        0 <= k < xs.len(),
    ensures
        process_run(m, s, xs.take(k + 1)) == process_step(
            process_run(m, s, xs.take(k)).0,
            process_run(m, s, xs.take(k)).1,
            xs[k].0,
            xs[k].1,
        ),
        process_run(m, s, xs.take(k)).0.enabled == m.enabled,
        process_run(m, s, xs.take(k)).0.sensitivity == m.sensitivity,
    decreases k,
{
    assert(xs.take(k + 1).drop_last() =~= xs.take(k));
    if k > 0 {
        lemma_run_step(m, s, xs, k - 1);
    } else {
        assert(xs.take(0) =~= Seq::<(i32, u64)>::empty());
    }
}

proof fn lemma_last_trigger(m: ShakeMonitor, s: DragState, xs: Seq<(i32, u64)>, k: int)
    requires
        times_rise(xs),
        0 < k <= xs.len(),
    ensures
        forall|j: int|
            0 <= j < k && #[trigger] fires_at(m, s, xs, j) ==> {
                let t = process_run(m, s, xs.take(k)).1.last_trigger;
                t is Some && xs[j].1 <= t.unwrap() && t.unwrap() <= xs[k - 1].1
            },
    decreases k,
{
    lemma_run_step(m, s, xs, k - 1);
    if k > 1 {
        lemma_last_trigger(m, s, xs, k - 1);
    }
    let p = process_run(m, s, xs.take(k - 1));
    let q = process_run(m, s, xs.take(k));
    assert forall|j: int| 0 <= j < k && #[trigger] fires_at(m, s, xs, j) implies ({
        let t = q.1.last_trigger;
        t is Some && xs[j].1 <= t.unwrap() && t.unwrap() <= xs[k - 1].1
    }) by {
        if fires_at(m, s, xs, k - 1) {
            assert(xs[j].1 <= xs[k - 1].1);
        } else {
            assert(j < k - 1);
            assert(xs[k - 2].1 <= xs[k - 1].1);
        }
    }
}

/// Shaking shows the shelf at most once per cooldown: in a run whose times
/// never go back, any two samples that show the shelf lie at least
/// `TRIGGER_COOLDOWN_NS` apart.
pub proof fn lemma_triggers_spaced(m: ShakeMonitor, s: DragState, xs: Seq<(i32, u64)>)
    requires
        times_rise(xs),
    ensures
        forall|j: int, k: int|
            0 <= j < k < xs.len() && #[trigger] fires_at(m, s, xs, j) && #[trigger] fires_at(m, s, xs, k)
                ==> xs[k].1 - xs[j].1 >= TRIGGER_COOLDOWN_NS,
{
    assert forall|j: int, k: int|
        0 <= j < k < xs.len() && #[trigger] fires_at(m, s, xs, j) && #[trigger] fires_at(m, s, xs, k)
        implies xs[k].1 - xs[j].1 >= TRIGGER_COOLDOWN_NS by {
        lemma_last_trigger(m, s, xs, k);
        let p = process_run(m, s, xs.take(k));
        assert(xs[k - 1].1 <= xs[k].1);
        assert(prepare_spec(p.1, xs[k].0, xs[k].1).last_trigger == p.1.last_trigger);
    }
}

/// The counters only grow along a run: presses stay as they are, samples
/// and triggers grow by at most one per sample, and the largest change
/// count never falls (as long as no counter reaches the end of `u64`).
pub proof fn lemma_run_counters(m: ShakeMonitor, s: DragState, xs: Seq<(i32, u64)>)
    requires
        m.counters.motion_samples + xs.len() <= u64::MAX,
        m.counters.triggers + xs.len() <= u64::MAX,
    ensures
        ({
            let c = process_run(m, s, xs).0.counters;
            &&& c.mouse_downs == m.counters.mouse_downs
            &&& m.counters.motion_samples <= c.motion_samples <= m.counters.motion_samples + xs.len()
            &&& m.counters.triggers <= c.triggers <= m.counters.triggers + xs.len()
            &&& m.counters.max_direction_changes <= c.max_direction_changes
        }),
    decreases xs.len(),
{
    if xs.len() > 0 {
        lemma_run_counters(m, s, xs.drop_last());
        let p = process_run(m, s, xs.drop_last());
        assert(p.0.enabled == m.enabled) by {
            lemma_run_enabled(m, s, xs.drop_last());
        }
    }
}

proof fn lemma_run_enabled(m: ShakeMonitor, s: DragState, xs: Seq<(i32, u64)>)
    ensures
        process_run(m, s, xs).0.enabled == m.enabled,
        process_run(m, s, xs).0.sensitivity == m.sensitivity,
    decreases xs.len(),
{
    if xs.len() > 0 {
        lemma_run_enabled(m, s, xs.drop_last());
    }
}

/// One turn of the watcher: whether shake is enabled, whether the button
/// is down, the cursor's x position if it could be read, and the time.
pub struct WatchSample {
    pub enabled: bool,
    pub down: bool,
    pub cursor_x: Option<i32>,
    pub now: u64,
}

/// The monitor and watcher after the turns `ss`; before each turn the
/// monitor is switched on or off as the turn says.
pub open spec fn watch_run(m: ShakeMonitor, w: MouseWatcher, ss: Seq<WatchSample>) -> (ShakeMonitor, MouseWatcher)
    decreases ss.len(),
{
    if ss.len() == 0 {
        (m, w)
    } else {
        let p = watch_run(m, w, ss.drop_last());
        let e = ss.last();
        let r = (ShakeMonitor { enabled: e.enabled, ..p.0 }).watch_next(p.1, e.down, e.cursor_x, e.now);
        (r.0, r.1)
    }
}

pub open spec fn held(e: WatchSample) -> bool {
    e.enabled && e.down
}

/// The number of turns that begin a press: enabled with the button down,
/// where the turn before was not.
pub open spec fn press_count(ss: Seq<WatchSample>) -> nat
    decreases ss.len(),
{
    if ss.len() == 0 {
        0
    } else {
        press_count(ss.drop_last()) + if held(ss.last()) && !(ss.len() > 1 && held(
            ss[ss.len() - 2],
        )) {
            1nat
        } else {
            0nat
        }
    }
}

/// The number of turns whose cursor reading is processed.
pub open spec fn processed_count(ss: Seq<WatchSample>) -> nat
    decreases ss.len(),
{
    if ss.len() == 0 {
        0
    } else {
        processed_count(ss.drop_last()) + if held(ss.last()) && ss.last().cursor_x is Some {
            1nat
        } else {
            0nat
        }
    }
}

/// Over a run of the watcher that starts with the button up, the press
/// counter grows by exactly the number of turns that begin a press, and the
/// sample counter by the number of turns whose cursor reading is processed;
/// a disabled turn changes no counter.
pub proof fn lemma_watch_run_counts(m: ShakeMonitor, w: MouseWatcher, ss: Seq<WatchSample>)
    requires
        !w.button_was_down,
        m.counters.mouse_downs + ss.len() <= u64::MAX,
        m.counters.motion_samples + ss.len() <= u64::MAX,
    ensures
        watch_run(m, w, ss).0.counters.mouse_downs == m.counters.mouse_downs + press_count(ss),
        watch_run(m, w, ss).0.counters.motion_samples == m.counters.motion_samples
            + processed_count(ss),
        watch_run(m, w, ss).1.button_was_down == (ss.len() > 0 && held(ss.last())),
        press_count(ss) <= ss.len(),
        processed_count(ss) <= ss.len(),
    decreases ss.len(),
{
    if ss.len() > 0 {
        let init = ss.drop_last();
        lemma_watch_run_counts(m, w, init);
        if ss.len() > 1 {
            assert(init.last() == ss[ss.len() - 2]);
        }
    }
}

} // verus!
