//! The shake monitor's bookkeeping on macOS: its status, its counters, and
//! the time rules (the shake window and the trigger cooldown) that both
//! platforms apply. Times are nanoseconds on a monotonic clock.

use vstd::prelude::*;

verus! {

/// A shake must complete within this many milliseconds of its first sample.
pub const SHAKE_WINDOW_MS: u64 = 1500;

/// After a trigger, no new trigger fires for this many nanoseconds (2 s).
pub const TRIGGER_COOLDOWN_NS: u64 = 2_000_000_000;

/// What the monitor is doing.
#[derive(Clone, Copy, Debug, PartialEq, Eq, Structural)]
pub enum MonitorStatus {
    Starting,
    Listening,
    PermissionRequired,
}

/// Counters that describe what the monitor has seen so far.
#[derive(Clone, Copy, Debug, PartialEq, Eq, Structural)]
pub struct ShakeDiagnostics {
    pub mouse_downs: u64,
    pub motion_samples: u64,
    pub max_direction_changes: u8,
    pub triggers: u64,
}

/// Nanoseconds from `since` to `now`; zero when `now` is earlier
/// (`Instant::duration_since` saturates).
pub open spec fn elapsed_ns(since: u64, now: u64) -> int {
    if now >= since {
        now - since
    } else {
        0
    }
}

pub open spec fn spec_window_expired(started: Option<u64>, now: u64) -> bool {
    match started {
        None => true,
        Some(t) => elapsed_ns(t, now) / 1_000_000 > SHAKE_WINDOW_MS as int,
    }
}

pub open spec fn spec_cooldown_elapsed(last: Option<u64>, now: u64) -> bool {
    match last {
        None => true,
        Some(t) => elapsed_ns(t, now) >= TRIGGER_COOLDOWN_NS as int,
    }
}

/// Whether the shake window that began at `started` has run out by `now`
/// (whole milliseconds elapsed exceed the window; no window counts as run out).
pub fn window_expired(started: Option<u64>, now: u64) -> (b: bool)
    ensures
        b == spec_window_expired(started, now),
{
    match started {
        None => true,
        Some(t) => now.saturating_sub(t) / 1_000_000 > SHAKE_WINDOW_MS,
    }
}

/// Whether the cooldown after the trigger at `last` is over by `now`.
pub fn cooldown_elapsed(last: Option<u64>, now: u64) -> (b: bool)
    ensures
        b == spec_cooldown_elapsed(last, now),
{
    match last {
        None => true,
        Some(t) => now.saturating_sub(t) >= TRIGGER_COOLDOWN_NS,
    }
}

impl ShakeDiagnostics {
    pub open spec fn zero() -> ShakeDiagnostics {
        ShakeDiagnostics { mouse_downs: 0, motion_samples: 0, max_direction_changes: 0, triggers: 0 }
    }

    pub fn new() -> (d: ShakeDiagnostics)
        ensures
            d == ShakeDiagnostics::zero(),
    {
        ShakeDiagnostics { mouse_downs: 0, motion_samples: 0, max_direction_changes: 0, triggers: 0 }
    }

    /// Counts a left-button press (the counter wraps, as an atomic add does).
    pub fn record_mouse_down(&mut self)
        ensures
            *final(self) == (ShakeDiagnostics {
                mouse_downs: old(self).mouse_downs.wrapping_add(1),
                ..*old(self)
            }),
    {
        self.mouse_downs = self.mouse_downs.wrapping_add(1);
    }

    /// Counts a pointer sample taken while dragging.
    pub fn record_motion_sample(&mut self)
        ensures
            *final(self) == (ShakeDiagnostics {
                motion_samples: old(self).motion_samples.wrapping_add(1),
                ..*old(self)
            }),
    {
        self.motion_samples = self.motion_samples.wrapping_add(1);
    }

    /// Keeps the largest number of direction changes seen in one window.
    pub fn record_direction_changes(&mut self, changes: u8)
        ensures
            *final(self) == (ShakeDiagnostics {
                max_direction_changes: if changes > old(self).max_direction_changes {
                    changes
                } else {
                    old(self).max_direction_changes
                },
                ..*old(self)
            }),
    {
        if changes > self.max_direction_changes {
            self.max_direction_changes = changes;
        }
    }

    /// Counts a shake that showed the shelf.
    pub fn record_trigger(&mut self)
        ensures
            *final(self) == (ShakeDiagnostics {
                triggers: old(self).triggers.wrapping_add(1),
                ..*old(self)
            }),
    {
        self.triggers = self.triggers.wrapping_add(1);
    }
}

/// The macOS monitor: its status and its counters.
pub struct ShakeMonitor {
    pub status: MonitorStatus,
    pub counters: ShakeDiagnostics,
}

/// The text that the front end shows for a macOS monitor status.
pub open spec fn status_text(status: MonitorStatus) -> Seq<char> {
    match status {
        MonitorStatus::Listening => "listening"@,
        MonitorStatus::PermissionRequired => "permissionRequired"@,
        MonitorStatus::Starting => "starting"@,
    }
}

impl ShakeMonitor {
    pub fn new() -> (m: ShakeMonitor)
        ensures
            m.status == MonitorStatus::Starting,
            m.counters == ShakeDiagnostics::zero(),
    {
        ShakeMonitor { status: MonitorStatus::Starting, counters: ShakeDiagnostics::new() }
    }

    pub fn set_monitor_status(&mut self, status: MonitorStatus)
        ensures
            final(self).status == status,
            final(self).counters == old(self).counters,
    {
        self.status = status;
    }

    pub fn monitor_status(&self) -> (s: &'static str)
        ensures
            s@ == status_text(self.status),
    {
        match self.status {
            MonitorStatus::Listening => "listening",
            MonitorStatus::PermissionRequired => "permissionRequired",
            MonitorStatus::Starting => "starting",
        }
    }

    pub fn diagnostics(&self) -> (d: ShakeDiagnostics)
        ensures
            d == self.counters,
    {
        self.counters
    }
}


/// The clock side of a macOS drag: whether a drag is under way, when its
/// shake window began, and when the shelf was last shown. The pointer
/// positions and their tracker, which are `f64`, are kept by the caller.
#[derive(Clone, Copy, Debug, PartialEq, Eq, Structural)]
pub struct DragClock {
    pub is_dragging: bool,
    pub window_started: Option<u64>,
    pub last_trigger: Option<u64>,
}

impl DragClock {
    pub open spec fn initial() -> DragClock {
        DragClock { is_dragging: false, window_started: None, last_trigger: None }
    }

    pub fn new() -> (c: DragClock)
        ensures
            c == DragClock::initial(),
    {
        DragClock { is_dragging: false, window_started: None, last_trigger: None }
    }

    /// Whether a sample at `now` starts the shake over: a new drag, or an
    /// expired window.
    pub open spec fn restarts(self, now: u64) -> bool {
        !self.is_dragging || spec_window_expired(self.window_started, now)
    }

    /// The clock after the start of a sample at `now`.
    pub open spec fn begun(self, now: u64) -> DragClock {
        DragClock {
            is_dragging: true,
            window_started: if self.restarts(now) {
                Some(now)
            } else {
                self.window_started
            },
            last_trigger: self.last_trigger,
        }
    }

    /// Whether a sample in which a shake was `detected` shows the shelf.
    pub open spec fn fires(self, detected: bool, now: u64) -> bool {
        detected && spec_cooldown_elapsed(self.last_trigger, now)
    }

    /// The clock after the end of a sample.
    pub open spec fn finished(self, detected: bool, now: u64) -> DragClock {
        if self.fires(detected, now) {
            DragClock { last_trigger: Some(now), window_started: Some(now), ..self }
        } else {
            self
        }
    }

    /// The left button was released: the drag is over.
    pub fn mouse_up(&mut self)
        ensures
            *final(self) == (DragClock { is_dragging: false, ..*old(self) }),
    {
        self.is_dragging = false;
    }
}

impl ShakeMonitor {
    /// The left button went down at `now`: the press is counted and a drag
    /// starts with a new window (the caller forgets the tracked motion).
    pub fn mouse_down(&mut self, clock: &mut DragClock, now: u64)
        ensures
            *final(clock) == (DragClock { is_dragging: true, window_started: Some(now), ..*old(clock) }),
            final(self).status == old(self).status,
            final(self).counters == (ShakeDiagnostics {
                mouse_downs: old(self).counters.mouse_downs.wrapping_add(1),
                ..old(self).counters
            }),
    {
        self.counters.record_mouse_down();
        clock.is_dragging = true;
        clock.window_started = Some(now);
    }

    /// Starts a pointer sample at `now`; says whether the shake starts over,
    /// in which case the caller restarts its tracker at this sample.
    pub fn begin_sample(&mut self, clock: &mut DragClock, now: u64) -> (restart: bool)
        ensures
            restart == old(clock).restarts(now),
            *final(clock) == old(clock).begun(now),
            final(self).status == old(self).status,
            final(self).counters == (ShakeDiagnostics {
                motion_samples: old(self).counters.motion_samples.wrapping_add(1),
                ..old(self).counters
            }),
    {
        self.counters.record_motion_sample();
        let restart = !clock.is_dragging || window_expired(clock.window_started, now);
        clock.is_dragging = true;
        if restart {
            clock.window_started = Some(now);
        }
        restart
    }

    /// Ends a pointer sample at `now` in which the tracker saw `changes`
    /// direction changes and `detected` a shake or not; says whether the
    /// shelf is to be shown, in which case the caller restarts its tracker.
    pub fn finish_sample(&mut self, clock: &mut DragClock, detected: bool, changes: u8, now: u64) -> (fire: bool)
        ensures
            fire == old(clock).fires(detected, now),
            *final(clock) == old(clock).finished(detected, now),
            fire ==> final(clock).last_trigger == Some(now) && final(clock).window_started == Some(now),
            !fire ==> *final(clock) == *old(clock),
            final(self).status == old(self).status,
            final(self).counters == (ShakeDiagnostics {
                max_direction_changes: if changes > old(self).counters.max_direction_changes {
                    changes
                } else {
                    old(self).counters.max_direction_changes
                },
                triggers: if fire {
                    old(self).counters.triggers.wrapping_add(1)
                } else {
                    old(self).counters.triggers
                },
                ..old(self).counters
            }),
    {
        self.counters.record_direction_changes(changes);
        if detected && cooldown_elapsed(clock.last_trigger, now) {
            self.counters.record_trigger();
            clock.last_trigger = Some(now);
            clock.window_started = Some(now);
            true
        } else {
            false
        }
    }
}

/// The clock after the samples `xs` (whether a shake was detected, time),
/// each begun and finished in order.
pub open spec fn clock_run(c: DragClock, xs: Seq<(bool, u64)>) -> DragClock
    decreases xs.len(),
{
    if xs.len() == 0 {
        c
    } else {
        let p = clock_run(c, xs.drop_last());
        p.begun(xs.last().1).finished(xs.last().0, xs.last().1)
    }
}

/// Whether the `k`-th sample of a run shows the shelf.
pub open spec fn clock_fires_at(c: DragClock, xs: Seq<(bool, u64)>, k: int) -> bool {
    clock_run(c, xs.take(k)).begun(xs[k].1).fires(xs[k].0, xs[k].1)
}

proof fn lemma_clock_last_trigger(c: DragClock, xs: Seq<(bool, u64)>, k: int)
    requires
        forall|i: int, j: int| 0 <= i <= j < xs.len() ==> #[trigger] xs[i].1 <= #[trigger] xs[j].1,
        0 < k <= xs.len(),
    ensures
        forall|j: int|
            0 <= j < k && #[trigger] clock_fires_at(c, xs, j) ==> {
                let t = clock_run(c, xs.take(k)).last_trigger;
                t is Some && xs[j].1 <= t.unwrap() && t.unwrap() <= xs[k - 1].1
            },
    decreases k,
{
    assert(xs.take(k).drop_last() =~= xs.take(k - 1));
    if k > 1 {
        lemma_clock_last_trigger(c, xs, k - 1);
    }
    let q = clock_run(c, xs.take(k));
    assert forall|j: int| 0 <= j < k && #[trigger] clock_fires_at(c, xs, j) implies ({
        let t = q.last_trigger;
        t is Some && xs[j].1 <= t.unwrap() && t.unwrap() <= xs[k - 1].1
    }) by {
        if clock_fires_at(c, xs, k - 1) {
            assert(xs[j].1 <= xs[k - 1].1);
        } else {
            assert(j < k - 1);
            assert(xs[k - 2].1 <= xs[k - 1].1);
        }
    }
}

/// Shaking shows the shelf at most once per cooldown: in a run of samples
/// whose times never go back, any two samples that show the shelf lie at
/// least `TRIGGER_COOLDOWN_NS` apart, whatever the tracker detected.
pub proof fn lemma_clock_triggers_spaced(c: DragClock, xs: Seq<(bool, u64)>)
    requires
        forall|i: int, j: int| 0 <= i <= j < xs.len() ==> #[trigger] xs[i].1 <= #[trigger] xs[j].1,
    ensures
        forall|j: int, k: int|
            0 <= j < k < xs.len() && #[trigger] clock_fires_at(c, xs, j) && #[trigger] clock_fires_at(c, xs, k)
                ==> xs[k].1 - xs[j].1 >= TRIGGER_COOLDOWN_NS,
{
    assert forall|j: int, k: int|
        0 <= j < k < xs.len() && #[trigger] clock_fires_at(c, xs, j) && #[trigger] clock_fires_at(c, xs, k)
        implies xs[k].1 - xs[j].1 >= TRIGGER_COOLDOWN_NS by {
        lemma_clock_last_trigger(c, xs, k);
        assert(xs[k - 1].1 <= xs[k].1);
    }
}

} // verus!
