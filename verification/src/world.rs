use vstd::prelude::*;

verus! {

/// One second, in nanoseconds: the library measures time in nanoseconds.
pub const NANOS_PER_SECOND: u64 = 1_000_000_000;
/// How long the day lasts.
pub const DAY_LENGTH: u64 = 600 * NANOS_PER_SECOND;
/// How long dusk lasts.
pub const DUSK_LENGTH: u64 = 60 * NANOS_PER_SECOND;
/// How long the night lasts.
pub const NIGHT_LENGTH: u64 = 60 * NANOS_PER_SECOND;
/// The light turns from day to dusk over the last minute of the day.
pub const DAY_TO_DUSK_WINDOW: u64 = 60 * NANOS_PER_SECOND;
/// The light turns from dusk to night over the last half minute of dusk.
pub const DUSK_TO_NIGHT_WINDOW: u64 = 30 * NANOS_PER_SECOND;
/// The screen fades out over the last ten seconds of the night.
pub const NIGHT_TO_RESULTS_WINDOW: u64 = 10 * NANOS_PER_SECOND;

/// The phases of a mission, in the order they follow each other.
#[derive(Clone, Copy, Debug, PartialEq, Eq, Structural)]
pub enum MissionPhase {
    Day,
    Dusk,
    Night,
    Results,
}

impl MissionPhase {
    /// The place of the phase in the mission: 0 for the day, 3 for the results.
    pub open spec fn rank(self) -> int {
        match self {
            MissionPhase::Day => 0,
            MissionPhase::Dusk => 1,
            MissionPhase::Night => 2,
            MissionPhase::Results => 3,
        }
    }

    /// The phase's name as the HUD shows it.
    pub fn name(self) -> (r: &'static str)
        ensures
            self == MissionPhase::Day ==> r@ == "Day"@,
            self == MissionPhase::Dusk ==> r@ == "Dusk"@,
            self == MissionPhase::Night ==> r@ == "Night"@,
            self == MissionPhase::Results ==> r@ == "Results"@,
    {
        match self {
            MissionPhase::Day => "Day",
            MissionPhase::Dusk => "Dusk",
            MissionPhase::Night => "Night",
            MissionPhase::Results => "Results",
        }
    }

    /// Where the restart key leads: from the results screen back to a new
    /// day; during a mission it does nothing.
    pub fn restart_target(self) -> (r: Option<MissionPhase>)
        ensures
            r == (if self == MissionPhase::Results { Some(MissionPhase::Day) } else { None::<MissionPhase> }),
    {
        match self {
            MissionPhase::Results => Some(MissionPhase::Day),
            _ => None,
        }
    }
}

/// The phase the mission is in once `elapsed` nanoseconds have passed.
pub open spec fn phase_at(elapsed: u64) -> MissionPhase {
    if elapsed < DAY_LENGTH {
        MissionPhase::Day
    } else if elapsed < DAY_LENGTH + DUSK_LENGTH {
        MissionPhase::Dusk
    } else if elapsed < DAY_LENGTH + DUSK_LENGTH + NIGHT_LENGTH {
        MissionPhase::Night
    } else {
        MissionPhase::Results
    }
}

/// When `phase` ends, in nanoseconds since the start of the mission.
pub open spec fn phase_end(phase: MissionPhase) -> u64 {
    match phase {
        MissionPhase::Day => DAY_LENGTH,
        MissionPhase::Dusk => (DAY_LENGTH + DUSK_LENGTH) as u64,
        MissionPhase::Night => (DAY_LENGTH + DUSK_LENGTH + NIGHT_LENGTH) as u64,
        MissionPhase::Results => 0,
    }
}

/// The phases follow each other in order: later never means an earlier phase.
pub proof fn phases_advance(e1: u64, e2: u64)
    requires
        e1 <= e2,
    ensures
        phase_at(e1).rank() <= phase_at(e2).rank(),
{
}

/// A fraction `done / span` that lies between 0 and 1.
#[derive(Clone, Copy, Debug, PartialEq, Eq, Structural)]
pub struct Progress {
    pub done: u64,
    pub span: u64,
}

impl Progress {
    pub open spec fn wf(self) -> bool {
        0 < self.span && self.done <= self.span
    }
}

/// How far `elapsed` has advanced into the window of length `window` that
/// closes at `boundary`: nothing before the window opens, everything once it
/// has closed.
pub open spec fn window_progress(elapsed: u64, boundary: u64, window: u64) -> Progress {
    let start = if window <= boundary { (boundary - window) as u64 } else { 0u64 };
    if elapsed <= start {
        Progress { done: 0, span: window }
    } else if elapsed - start >= window {
        Progress { done: window, span: window }
    } else {
        Progress { done: (elapsed - start) as u64, span: window }
    }
}

fn progress_in_window(elapsed: u64, boundary: u64, window: u64) -> (r: Progress)
    requires
        window > 0,
    ensures
        r == window_progress(elapsed, boundary, window),
        r.wf(),
{
    let start: u64 = boundary.saturating_sub(window);
    if elapsed <= start {
        Progress { done: 0, span: window }
    } else if elapsed - start >= window {
        Progress { done: window, span: window }
    } else {
        Progress { done: elapsed - start, span: window }
    }
}

/// The three tones of the sky and the sunlight.
#[derive(Clone, Copy, Debug, PartialEq, Eq, Structural)]
pub enum Daylight {
    Day,
    Dusk,
    Night,
}

/// The sky and sunlight blend from `from` toward `to` by `progress`.
#[derive(Clone, Copy, Debug, PartialEq, Eq, Structural)]
pub struct SunTransition {
    pub from: Daylight,
    pub to: Daylight,
    pub progress: Progress,
}

/// The blend of sky and sunlight at `elapsed`: day toward dusk over the last
/// minute of the day, dusk toward night over the last half minute of dusk,
/// and night from then on.
pub open spec fn sun_at(elapsed: u64) -> SunTransition {
    if elapsed < DAY_LENGTH {
        SunTransition {
            from: Daylight::Day,
            to: Daylight::Dusk,
            progress: window_progress(elapsed, DAY_LENGTH, DAY_TO_DUSK_WINDOW),
        }
    } else if elapsed < DAY_LENGTH + DUSK_LENGTH {
        SunTransition {
            from: Daylight::Dusk,
            to: Daylight::Night,
            progress: window_progress(elapsed, (DAY_LENGTH + DUSK_LENGTH) as u64, DUSK_TO_NIGHT_WINDOW),
        }
    } else {
        SunTransition {
            from: Daylight::Night,
            to: Daylight::Night,
            progress: window_progress(elapsed, (DAY_LENGTH + DUSK_LENGTH) as u64, DUSK_TO_NIGHT_WINDOW),
        }
    }
}

/// The mission clock: the time elapsed since the mission began.
#[derive(Clone, Copy, Debug, PartialEq, Eq, Structural)]
pub struct WorldTimer {
    /// Nanoseconds since the mission began.
    pub elapsed: u64,
}

impl WorldTimer {
    /// A clock that has not run yet.
    pub fn new() -> (r: WorldTimer)
        ensures
            r.elapsed == 0,
    {
        WorldTimer { elapsed: 0 }
    }

    /// Advances the clock by `delta` nanoseconds, stopping at the largest
    /// time the clock can hold.
    pub fn tick(&mut self, delta: u64)
        ensures
            final(self).elapsed == (if old(self).elapsed + delta <= u64::MAX {
                (old(self).elapsed + delta) as u64
            } else {
                u64::MAX
            }),
    {
        self.elapsed = self.elapsed.saturating_add(delta);
    }

    /// Sets the clock back to the start of a mission.
    pub fn reset(&mut self)
        ensures
            final(self).elapsed == 0,
    {
        self.elapsed = 0;
    }

    /// Nanoseconds left in `phase`: none once the phase is over, and none
    /// for the results screen, which has no end.
    pub fn remaining_in(&self, phase: MissionPhase) -> (r: u64)
        ensures
            r == (if phase == MissionPhase::Results || self.elapsed >= phase_end(phase) {
                0
            } else {
                phase_end(phase) - self.elapsed
            }),
    {
        let end: u64 = match phase {
            MissionPhase::Day => DAY_LENGTH,
            MissionPhase::Dusk => DAY_LENGTH + DUSK_LENGTH,
            MissionPhase::Night => DAY_LENGTH + DUSK_LENGTH + NIGHT_LENGTH,
            MissionPhase::Results => {
                return 0;
            },
        };
        end.saturating_sub(self.elapsed)
    }

    /// How far the screen has faded to black: over the last ten seconds of
    /// the night, from nothing to fully dark.
    pub fn night_fade(&self) -> (r: Progress)
        ensures
            r == window_progress(
                self.elapsed,
                (DAY_LENGTH + DUSK_LENGTH + NIGHT_LENGTH) as u64,
                NIGHT_TO_RESULTS_WINDOW,
            ),
            r.wf(),
    {
        progress_in_window(self.elapsed, DAY_LENGTH + DUSK_LENGTH + NIGHT_LENGTH, NIGHT_TO_RESULTS_WINDOW)
    }

    /// The blend of sky and sunlight at the clock's time.
    pub fn sun(&self) -> (r: SunTransition)
        ensures
            r == sun_at(self.elapsed),
            r.progress.wf(),
    {
        let elapsed: u64 = self.elapsed;
        if elapsed < DAY_LENGTH {
            SunTransition {
                from: Daylight::Day,
                to: Daylight::Dusk,
                progress: progress_in_window(elapsed, DAY_LENGTH, DAY_TO_DUSK_WINDOW),
            }
        } else if elapsed < DAY_LENGTH + DUSK_LENGTH {
            SunTransition {
                from: Daylight::Dusk,
                to: Daylight::Night,
                progress: progress_in_window(elapsed, DAY_LENGTH + DUSK_LENGTH, DUSK_TO_NIGHT_WINDOW),
            }
        } else {
            SunTransition {
                from: Daylight::Night,
                to: Daylight::Night,
                progress: progress_in_window(elapsed, DAY_LENGTH + DUSK_LENGTH, DUSK_TO_NIGHT_WINDOW),
            }
        }
    }

    /// Whole minutes and the remaining whole seconds of the elapsed time, as
    /// the results screen shows them.
    pub fn minutes_and_seconds(&self) -> (r: (u64, u64))
        ensures
            r.0 == self.elapsed / NANOS_PER_SECOND / 60,
            r.1 == self.elapsed / NANOS_PER_SECOND % 60,
            r.1 < 60,
            r.0 * 60 + r.1 == self.elapsed / NANOS_PER_SECOND,
    {
        let secs: u64 = self.elapsed / NANOS_PER_SECOND;
        (secs / 60, secs % 60)
    }
}

/// The phase the mission is in at the clock's time.
pub fn current_phase(timer: &WorldTimer) -> (r: MissionPhase)
    ensures
        r == phase_at(timer.elapsed),
{
    let elapsed: u64 = timer.elapsed;
    if elapsed < DAY_LENGTH {
        MissionPhase::Day
    } else if elapsed < DAY_LENGTH + DUSK_LENGTH {
        MissionPhase::Dusk
    } else if elapsed < DAY_LENGTH + DUSK_LENGTH + NIGHT_LENGTH {
        MissionPhase::Night
    } else {
        MissionPhase::Results
    }
}

/// One frame of the mission clock. On the results screen the clock stands
/// still and nothing changes. Otherwise the clock advances by `delta`
/// nanoseconds, and the answer is the phase to switch to when the new time
/// falls in another phase than `phase`.
pub fn pass_time(phase: MissionPhase, timer: &mut WorldTimer, delta: u64) -> (switch_to: Option<MissionPhase>)
    ensures
        phase == MissionPhase::Results ==> *final(timer) == *old(timer) && switch_to is None,
        phase != MissionPhase::Results ==> {
            &&& final(timer).elapsed == (if old(timer).elapsed + delta <= u64::MAX {
                (old(timer).elapsed + delta) as u64
            } else {
                u64::MAX
            })
            &&& switch_to == (if phase_at(final(timer).elapsed) == phase {
                None::<MissionPhase>
            } else {
                Some(phase_at(final(timer).elapsed))
            })
        },
{
    if phase == MissionPhase::Results {
        return None;
    }
    timer.tick(delta);
    let new_phase = current_phase(timer);
    if new_phase != phase {
        Some(new_phase)
    } else {
        None
    }
}

/// Within a phase, the time left and the time elapsed add up to the phase's
/// end.
pub proof fn remaining_completes_phase(elapsed: u64)
    requires
        phase_at(elapsed) != MissionPhase::Results,
    ensures
        elapsed < phase_end(phase_at(elapsed)),
        elapsed + (phase_end(phase_at(elapsed)) - elapsed) == phase_end(phase_at(elapsed)),
{
}

/// The screen stays clear until ten seconds before the results and is fully
/// dark from the results on.
pub proof fn fade_bounds(elapsed: u64)
    ensures
        elapsed <= (DAY_LENGTH + DUSK_LENGTH + NIGHT_LENGTH - NIGHT_TO_RESULTS_WINDOW) ==> window_progress(
            elapsed,
            (DAY_LENGTH + DUSK_LENGTH + NIGHT_LENGTH) as u64,
            NIGHT_TO_RESULTS_WINDOW,
        ).done == 0,
        phase_at(elapsed) == MissionPhase::Results ==> window_progress(
            elapsed,
            (DAY_LENGTH + DUSK_LENGTH + NIGHT_LENGTH) as u64,
            NIGHT_TO_RESULTS_WINDOW,
        ).done == NIGHT_TO_RESULTS_WINDOW,
{
}

/// The number of items the flock has brought home.
#[derive(Clone, Copy, Debug, PartialEq, Eq, Structural)]
pub struct Score(pub u32);

/// The number of times crows were injured.
#[derive(Clone, Copy, Debug, PartialEq, Eq, Structural)]
pub struct Injured(pub u32);

/// A mission starts in the day.
impl Default for MissionPhase {
    fn default() -> (r: MissionPhase)
        ensures
            r == MissionPhase::Day,
    {
        MissionPhase::Day
    }
}

impl Default for Score {
    fn default() -> (r: Score)
        ensures
            r.0 == 0,
    {
        Score(0)
    }
}

impl Default for Injured {
    fn default() -> (r: Injured)
        ensures
            r.0 == 0,
    {
        Injured(0)
    }
}

impl Score {
    /// One more item brought home.
    pub fn record_deposit(&mut self)
        requires
            old(self).0 < u32::MAX,
        ensures
            final(self).0 == old(self).0 + 1,
    {
        self.0 = self.0 + 1;
    }
}

impl Injured {
    /// `count` more injuries.
    pub fn record(&mut self, count: u32)
        requires
            old(self).0 + count <= u32::MAX,
        ensures
            final(self).0 == old(self).0 + count,
    {
        self.0 = self.0 + count;
    }
}

/// The day lasts ten minutes, dusk and night one minute each, and the
/// results come after twelve minutes.
pub proof fn phase_boundaries(elapsed: u64)
    ensures
        phase_at(elapsed) == MissionPhase::Day <==> elapsed < 600_000_000_000,
        phase_at(elapsed) == MissionPhase::Dusk <==> 600_000_000_000 <= elapsed < 660_000_000_000,
        phase_at(elapsed) == MissionPhase::Night <==> 660_000_000_000 <= elapsed < 720_000_000_000,
        phase_at(elapsed) == MissionPhase::Results <==> 720_000_000_000 <= elapsed,
{
}

} // verus!
