//! The tick scheduler: what one iteration of the fixed-rate loop does to the
//! channel, the smoothing engine and the emission sink, and what it asks the
//! caller to write. The caller owns the clock and the output device: it
//! calls `tick` once per iteration, writes what the outcome names, and
//! sleeps for what `remaining_budget` leaves of the period.

use vstd::prelude::*;
use crate::config::{lemma_deflection_clamped, Config};
use crate::filter_laws::lemma_idle_decay;
use crate::mouse::MouseState;
use crate::smoothing::{
    idle_ticks, lemma_advance_wf, lemma_cleared_rests, FilterModel, SmoothingEngine,
};
use crate::telemetry::{Telemetry, TelemetryReport, TelemetryTotals};
use crate::virtual_pad::{clamp_to_stick, stick_axes, StickAxis, StickReport, VirtualPad};

verus! {

/// Length of one tick in nanoseconds.
pub const TICK_NANOS: u64 = 1_000_000;

/// Lifecycle of the tick loop.
#[derive(Clone, Copy, Debug, PartialEq, Eq, Structural)]
pub enum SchedulerState {
    /// The loop is ticking.
    Running,
    /// The loop has ended; the stick is centered.
    Stopped,
}

/// What the caller writes to the output device after a tick.
#[derive(Clone, Copy, Debug, PartialEq, Eq, Structural)]
pub enum TickAction {
    /// Nothing to write.
    Nothing,
    /// Write the report; a failure to write is reported and otherwise
    /// ignored.
    Emit(StickReport),
    /// Write the report, which centers the stick, and leave the loop.
    Shutdown(StickReport),
}

/// What one tick asks of the caller.
#[derive(Clone, Copy, Debug, PartialEq, Eq, Structural)]
pub struct TickOutcome {
    /// What to write to the output device.
    pub action: TickAction,
    /// The telemetry report to print, when a period was completed.
    pub telemetry: Option<TelemetryReport>,
}

/// Everything the tick loop remembers between ticks.
pub struct TickModel {
    /// Lifecycle state.
    pub state: SchedulerState,
    /// The configuration the loop was started with.
    pub config: Config,
    /// What the horizontal filter remembers.
    pub horizontal: FilterModel,
    /// What the vertical filter remembers.
    pub vertical: FilterModel,
    /// The axes that carry the stick.
    pub axes: (StickAxis, StickAxis),
    /// The stick position last reported.
    pub position: (int, int),
    /// Totals of the running telemetry period.
    pub totals: TelemetryTotals,
}

/// A tick's result: the loop and the channel after it, and what it asks of
/// the caller.
pub struct TickStep {
    /// The loop after the tick.
    pub next: TickModel,
    /// The channel after the tick.
    pub shared: MouseState,
    /// What the tick asks of the caller.
    pub outcome: TickOutcome,
}

impl TickModel {
    /// The loop at its start: running, filters at rest, stick centered.
    pub open spec fn initial(config: Config) -> TickModel {
        TickModel {
            state: SchedulerState::Running,
            config,
            horizontal: FilterModel::initial(config.smoothing),
            vertical: FilterModel::initial(config.smoothing),
            axes: stick_axes(config.left_stick),
            position: (0, 0),
            totals: TelemetryTotals::start(),
        }
    }

    /// Both filters are well formed.
    pub open spec fn wf(self) -> bool {
        self.horizontal.wf() && self.vertical.wf()
    }

    /// The report that carries `position` on this loop's axes.
    pub open spec fn report(self, position: (int, int)) -> StickReport {
        StickReport {
            axis_x: self.axes.0,
            x: clamp_to_stick(position.0) as i32,
            axis_y: self.axes.1,
            y: clamp_to_stick(position.1) as i32,
        }
    }

    /// True when an idle tick has something to clean up: a filter remembers
    /// motion or the stick is not centered.
    pub open spec fn deflected(self) -> bool {
        !self.horizontal.at_rest() || !self.vertical.at_rest() || self.position != (0int, 0int)
    }

    /// A tick of a loop that has stopped: nothing happens.
    pub open spec fn stay(self, shared: MouseState) -> TickStep {
        TickStep {
            next: self,
            shared,
            outcome: TickOutcome { action: TickAction::Nothing, telemetry: None },
        }
    }

    /// The tick that sees a quit request: the stick is centered once more,
    /// the capture loop is told to quit, and the loop stops.
    pub open spec fn stop(self, shared: MouseState) -> TickStep {
        TickStep {
            next: TickModel { state: SchedulerState::Stopped, position: (0, 0), ..self },
            shared: MouseState { quit: true, ..shared },
            outcome: TickOutcome {
                action: TickAction::Shutdown(self.report((0, 0))),
                telemetry: None,
            },
        }
    }

    /// A tick while capture is active: the channel is drained, both filters
    /// advance by the drained delta, and the new stick position is reported
    /// if it differs from the one last reported.
    pub open spec fn active_tick(self, shared: MouseState) -> TickStep {
        let horizontal = self.horizontal.advance(shared.dx as int);
        let vertical = self.vertical.advance(shared.dy as int);
        let filtered = (horizontal.output(), vertical.output());
        let target = self.config.stick_position(filtered);
        let totals = self.totals.with_tick(shared.dx as int, shared.dy as int);
        TickStep {
            next: TickModel {
                horizontal,
                vertical,
                position: target,
                totals: if self.config.debug {
                    totals.carried()
                } else {
                    self.totals
                },
                ..self
            },
            shared: shared.drained(),
            outcome: TickOutcome {
                action: if target != self.position {
                    TickAction::Emit(self.report(target))
                } else {
                    TickAction::Nothing
                },
                telemetry: if self.config.debug {
                    totals.reported(
                        (filtered.0 as i64, filtered.1 as i64),
                        (target.0 as i32, target.1 as i32),
                    )
                } else {
                    None
                },
            },
        }
    }

    /// A tick while capture is idle: if anything is left of the last
    /// deflection, the filters are cleared and the stick is centered;
    /// otherwise nothing happens.
    pub open spec fn idle_tick(self, shared: MouseState) -> TickStep {
        if self.deflected() {
            TickStep {
                next: TickModel {
                    horizontal: self.horizontal.cleared(),
                    vertical: self.vertical.cleared(),
                    position: (0, 0),
                    ..self
                },
                shared,
                outcome: TickOutcome {
                    action: TickAction::Emit(self.report((0, 0))),
                    telemetry: None,
                },
            }
        } else {
            self.stay(shared)
        }
    }

    /// The loop after `ticks` ticks in a row that found the channel as
    /// `shared` shows it.
    pub open spec fn repeat(self, shared: MouseState, ticks: nat) -> TickModel
        decreases ticks,
    {
        if ticks == 0 {
            self
        } else {
            self.repeat(shared, (ticks - 1) as nat).step(false, shared).next
        }
    }

    /// One tick. `quit_signal` is the process-wide quit flag; the channel
    /// carries the capture loop's own.
    pub open spec fn step(self, quit_signal: bool, shared: MouseState) -> TickStep {
        if self.state == SchedulerState::Stopped {
            self.stay(shared)
        } else if quit_signal || shared.quit {
            self.stop(shared)
        } else if shared.active {
            self.active_tick(shared)
        } else {
            self.idle_tick(shared)
        }
    }
}

/// What is left of a tick's period after `elapsed_nanos` of work: the time to
/// sleep, or nothing when the tick used up its period or overran it.
pub open spec fn budget_left(elapsed_nanos: u64) -> Option<u64> {
    if elapsed_nanos < TICK_NANOS {
        Some((TICK_NANOS - elapsed_nanos) as u64)
    } else {
        None
    }
}

/// Computes `budget_left`. An overrun is not made up for: the next tick
/// starts at once and has a full period of its own.
pub fn remaining_budget(elapsed_nanos: u64) -> (r: Option<u64>)
    ensures
        r == budget_left(elapsed_nanos),
{
    if elapsed_nanos < TICK_NANOS {
        Some(TICK_NANOS - elapsed_nanos)
    } else {
        None
    }
}

/// The tick loop's state: the smoothing engine, the emission sink and the
/// telemetry totals.
pub struct TickScheduler {
    state: SchedulerState,
    config: Config,
    engine: SmoothingEngine,
    pad: VirtualPad,
    telemetry: Telemetry,
}

impl View for TickScheduler {
    type V = TickModel;

    closed spec fn view(&self) -> TickModel {
        TickModel {
            state: self.state,
            config: self.config,
            horizontal: self.engine.horizontal(),
            vertical: self.engine.vertical(),
            axes: self.pad.axes(),
            position: self.pad.position(),
            totals: self.telemetry@,
        }
    }
}

impl TickScheduler {
    /// The engine and the telemetry totals are well formed.
    pub closed spec fn wf(&self) -> bool {
        self.engine.wf() && self.telemetry.wf()
    }

    /// A well-formed scheduler remembers what a well-formed loop does.
    pub proof fn lemma_view_wf(&self)
        requires
            self.wf(),
        ensures
            self@.wf(),
    {
        self.engine.lemma_models_wf();
    }

    /// A scheduler at the start of the loop.
    pub fn new(config: Config) -> (s: TickScheduler)
        ensures
            s.wf(),
            s@ == TickModel::initial(config),
    {
        TickScheduler {
            state: SchedulerState::Running,
            config,
            engine: SmoothingEngine::new(config.smoothing),
            pad: VirtualPad::new(config.left_stick),
            telemetry: Telemetry::new(),
        }
    }

    /// True until a tick has seen a quit request.
    pub fn is_running(&self) -> (r: bool)
        ensures
            r == (self@.state == SchedulerState::Running),
    {
        self.state == SchedulerState::Running
    }

    /// The stick position last reported.
    pub fn position(&self) -> (r: (i32, i32))
        ensures
            (r.0 as int, r.1 as int) == self@.position,
    {
        self.pad.last_position()
    }

    /// Runs one tick and returns what the caller has to write.
    pub fn tick(&mut self, quit_signal: bool, shared: &mut MouseState) -> (outcome: TickOutcome)
        requires
            old(self).wf(),
        ensures
            final(self).wf(),
            final(self)@ == old(self)@.step(quit_signal, *old(shared)).next,
            *final(shared) == old(self)@.step(quit_signal, *old(shared)).shared,
            outcome == old(self)@.step(quit_signal, *old(shared)).outcome,
    {
        if self.state == SchedulerState::Stopped {
            return TickOutcome { action: TickAction::Nothing, telemetry: None };
        }
        if quit_signal || shared.quit {
            let report = self.pad.emit_stick(0, 0);
            shared.quit = true;
            self.state = SchedulerState::Stopped;
            return TickOutcome { action: TickAction::Shutdown(report), telemetry: None };
        }
        if shared.active {
            let (dx, dy) = shared.drain();
            let filtered = self.engine.advance(dx, dy);
            let target = self.config.stick_for(filtered);
            let last = self.pad.last_position();
            let action = if target.0 != last.0 || target.1 != last.1 {
                TickAction::Emit(self.pad.emit_stick(target.0, target.1))
            } else {
                TickAction::Nothing
            };
            let telemetry = if self.config.debug {
                self.telemetry.record(dx, dy, filtered, target)
            } else {
                None
            };
            return TickOutcome { action, telemetry };
        }
        let last = self.pad.last_position();
        if !self.engine.at_rest() || last.0 != 0 || last.1 != 0 {
            self.engine.reset();
            let report = self.pad.emit_stick(0, 0);
            return TickOutcome { action: TickAction::Emit(report), telemetry: None };
        }
        TickOutcome { action: TickAction::Nothing, telemetry: None }
    }
}

/// The first idle tick of a loop that still holds a deflection (a filter
/// remembers motion, or the stick is off center) reports the center, whatever
/// the filters held, and leaves nothing to clean up; the idle tick after it,
/// and so every later one, reports nothing and changes nothing. The center
/// is thus reported exactly once.
pub proof fn lemma_center_on_deactivate(m: TickModel, first: MouseState, second: MouseState)
    requires
        m.state == SchedulerState::Running,
        m.deflected(),
        !first.quit && !first.active,
        !second.quit && !second.active,
    ensures
        m.step(false, first).outcome.action == TickAction::Emit(m.report((0, 0))),
        m.report((0, 0)).x == 0 && m.report((0, 0)).y == 0,
        m.step(false, first).shared == first,
        m.step(false, first).next.position == (0int, 0int),
        m.step(false, first).next.horizontal.output() == 0,
        m.step(false, first).next.vertical.output() == 0,
        !m.step(false, first).next.deflected(),
        m.step(false, first).next.step(false, second) == m.step(false, first).next.stay(second),
{
    lemma_cleared_rests(m.horizontal);
    lemma_cleared_rests(m.vertical);
}

/// An idle tick of a loop that holds no deflection is a no-op: it reports
/// nothing and changes nothing.
pub proof fn lemma_idle_tick_is_noop(m: TickModel, shared: MouseState)
    requires
        m.state == SchedulerState::Running,
        !m.deflected(),
        !shared.quit && !shared.active,
    ensures
        m.step(false, shared) == m.stay(shared),
{
}

/// A running loop that sees a quit request, from the signal flag or from the
/// channel, centers the stick, tells the capture loop to quit and stops; a
/// stopped loop never does anything again.
pub proof fn lemma_quit_stops(m: TickModel, quit_signal: bool, shared: MouseState, later: MouseState)
    requires
        m.state == SchedulerState::Running,
        quit_signal || shared.quit,
    ensures
        m.step(quit_signal, shared).outcome.action == TickAction::Shutdown(m.report((0, 0))),
        m.report((0, 0)).x == 0 && m.report((0, 0)).y == 0,
        m.step(quit_signal, shared).next.state == SchedulerState::Stopped,
        m.step(quit_signal, shared).next.position == (0int, 0int),
        m.step(quit_signal, shared).shared.quit,
        forall|q: bool| #[trigger]
            m.step(quit_signal, shared).next.step(q, later) == m.step(
                quit_signal,
                shared,
            ).next.stay(later),
{
}

/// An active tick takes everything that is pending out of the channel,
/// leaves the stick at the clamped position of the new filtered value, and
/// reports that position exactly when it differs from the one before.
pub proof fn lemma_active_tick(m: TickModel, shared: MouseState)
    requires
        m.state == SchedulerState::Running,
        !shared.quit && shared.active,
    ensures
        m.step(false, shared).shared.dx == 0 && m.step(false, shared).shared.dy == 0,
        m.step(false, shared).next.horizontal == m.horizontal.advance(shared.dx as int),
        m.step(false, shared).next.vertical == m.vertical.advance(shared.dy as int),
        m.step(false, shared).next.position == m.config.stick_position(
            (
                m.step(false, shared).next.horizontal.output(),
                m.step(false, shared).next.vertical.output(),
            ),
        ),
        clamp_to_stick(m.step(false, shared).next.position.0) == m.step(
            false,
            shared,
        ).next.position.0,
        clamp_to_stick(m.step(false, shared).next.position.1) == m.step(
            false,
            shared,
        ).next.position.1,
        m.step(false, shared).outcome.action == if m.step(false, shared).next.position
            == m.position {
            TickAction::Nothing
        } else {
            TickAction::Emit(m.report(m.step(false, shared).next.position))
        },
{
    let next = m.step(false, shared).next;
    lemma_deflection_clamped(next.horizontal.output(), m.config.sensitivity_permille as int, false);
    lemma_deflection_clamped(
        next.vertical.output(),
        m.config.sensitivity_permille as int,
        m.config.invert_y,
    );
}

/// A tick keeps a well-formed loop well formed.
pub proof fn lemma_step_wf(m: TickModel, quit_signal: bool, shared: MouseState)
    requires
        m.wf(),
    ensures
        m.step(quit_signal, shared).next.wf(),
{
    lemma_advance_wf(m.horizontal, shared.dx as int);
    lemma_advance_wf(m.vertical, shared.dy as int);
    lemma_cleared_rests(m.horizontal);
    lemma_cleared_rests(m.vertical);
}

/// While capture stays active and nothing moves, each filter sees a run of
/// zero deltas, and from the first tick on the stick stands at the clamped
/// position of the filtered value.
pub proof fn lemma_repeat_without_motion(m: TickModel, shared: MouseState, ticks: nat)
    requires
        m.state == SchedulerState::Running,
        !shared.quit && shared.active,
        shared.dx == 0 && shared.dy == 0,
    ensures
        m.repeat(shared, ticks).state == SchedulerState::Running,
        m.repeat(shared, ticks).config == m.config,
        m.repeat(shared, ticks).horizontal == m.horizontal.run(idle_ticks(ticks)),
        m.repeat(shared, ticks).vertical == m.vertical.run(idle_ticks(ticks)),
        ticks > 0 ==> m.repeat(shared, ticks).position == m.config.stick_position(
            (
                m.horizontal.run(idle_ticks(ticks)).output(),
                m.vertical.run(idle_ticks(ticks)).output(),
            ),
        ),
    decreases ticks,
{
    if ticks > 0 {
        lemma_repeat_without_motion(m, shared, (ticks - 1) as nat);
        assert(idle_ticks(ticks).drop_last() =~= idle_ticks((ticks - 1) as nat));
    }
}

/// While capture stays active and nothing moves, the stick is back at the
/// center, with both filters at rest, once the slower filter's
/// `settle_bound` has passed, and it stays there.
pub proof fn lemma_stick_returns_to_center(m: TickModel, shared: MouseState, ticks: nat)
    requires
        m.wf(),
        m.state == SchedulerState::Running,
        !shared.quit && shared.active,
        shared.dx == 0 && shared.dy == 0,
        ticks >= 1,
        ticks >= m.horizontal.settle_bound(),
        ticks >= m.vertical.settle_bound(),
    ensures
        m.repeat(shared, ticks).position == (0int, 0int),
        !m.repeat(shared, ticks).deflected(),
{
    lemma_repeat_without_motion(m, shared, ticks);
    lemma_idle_decay(m.horizontal, ticks);
    lemma_idle_decay(m.vertical, ticks);
    lemma_deflection_clamped(0, m.config.sensitivity_permille as int, false);
    lemma_deflection_clamped(0, m.config.sensitivity_permille as int, m.config.invert_y);
}

} // verus!
