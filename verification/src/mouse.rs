//! The shared motion channel and the decisions of the capture loop.
//!
//! The capture loop adds every relative-motion sample into the channel; the
//! tick loop drains it once per tick. Every operation on the channel takes
//! it by unique reference, so each is one indivisible step and any
//! interleaving of the two loops is a sequence of such steps.

use vstd::prelude::*;
use vstd::seq_lib::lemma_fold_left_permutation;

verus! {

/// Event type of relative-axis motion in the kernel's input protocol.
pub const EV_RELATIVE: u16 = 2;

/// Code of the horizontal relative axis.
pub const REL_X: u16 = 0;

/// Code of the vertical relative axis.
pub const REL_Y: u16 = 1;

/// Pause after a failed device read before the next attempt, in milliseconds.
pub const READ_BACKOFF_MILLIS: u64 = 10;

/// The 32-bit two's complement value that an integer wraps to.
pub open spec fn wrap_i32(v: int) -> int {
    (v + 0x8000_0000) % 0x1_0000_0000 - 0x8000_0000
}

/// Wrapping leaves values in range alone, lands in range, and can be applied
/// before or after an addition.
pub proof fn lemma_wrap_i32(a: int, b: int)
    ensures
        i32::MIN as int <= wrap_i32(a) <= i32::MAX as int,
        i32::MIN as int <= a <= i32::MAX as int ==> wrap_i32(a) == a,
        wrap_i32(wrap_i32(a) + b) == wrap_i32(a + b),
{
    let m = 0x1_0000_0000int;
    let x = a + 0x8000_0000;
    assert((x % m + b) % m == (x + b) % m) by {
        vstd::arithmetic::div_mod::lemma_add_mod_noop(x, b, m);
        vstd::arithmetic::div_mod::lemma_add_mod_noop(x % m, b, m);
        vstd::arithmetic::div_mod::lemma_mod_twice(x, m);
    }
}

/// Pending motion and lifecycle flags, shared by the capture loop and the
/// tick loop.
#[derive(Debug)]
pub struct MouseState {
    /// Horizontal motion accumulated since the last drain.
    pub dx: i32,
    /// Vertical motion accumulated since the last drain.
    pub dy: i32,
    /// True while the device is captured and motion drives the stick.
    pub active: bool,
    /// True once shutdown has been requested; never cleared.
    pub quit: bool,
}

impl MouseState {
    /// The channel after `(dx, dy)` has been added to the pending totals.
    pub open spec fn accumulated(self, dx: i32, dy: i32) -> MouseState {
        MouseState {
            dx: wrap_i32(self.dx + dx) as i32,
            dy: wrap_i32(self.dy + dy) as i32,
            active: self.active,
            quit: self.quit,
        }
    }

    /// The channel after each delta of `deltas` has been added, in order.
    pub open spec fn accumulated_all(self, deltas: Seq<(i32, i32)>) -> MouseState {
        deltas.fold_left(self, |s: MouseState, d: (i32, i32)| s.accumulated(d.0, d.1))
    }

    /// The totals that are pending: what the next drain returns.
    pub open spec fn pending(self) -> (i32, i32) {
        (self.dx, self.dy)
    }

    /// The channel after a drain: the flags as before, nothing pending.
    pub open spec fn drained(self) -> MouseState {
        MouseState { dx: 0, dy: 0, active: self.active, quit: self.quit }
    }

    /// An empty channel with both flags clear.
    pub fn new() -> (s: MouseState)
        ensures
            s == (MouseState { dx: 0, dy: 0, active: false, quit: false }),
    {
        MouseState { dx: 0, dy: 0, active: false, quit: false }
    }

    /// Adds the deltas to the pending totals. Totals beyond 32 bits wrap.
    pub fn accumulate(&mut self, dx: i32, dy: i32)
        ensures
            *final(self) == old(self).accumulated(dx, dy),
    {
        proof {
            lemma_wrap_i32(self.dx + dx, 0);
            lemma_wrap_i32(self.dy + dy, 0);
        }
        self.dx = self.dx.wrapping_add(dx);
        self.dy = self.dy.wrapping_add(dy);
    }

    /// Takes the pending totals and resets them to zero in one step.
    pub fn drain(&mut self) -> (r: (i32, i32))
        ensures
            r == old(self).pending(),
            *final(self) == old(self).drained(),
    {
        let taken = (self.dx, self.dy);
        self.dx = 0;
        self.dy = 0;
        taken
    }
}

/// Sum of the horizontal components of a sequence of deltas.
pub open spec fn total_dx(deltas: Seq<(i32, i32)>) -> int {
    deltas.fold_left(0int, |t: int, d: (i32, i32)| t + d.0)
}

/// Sum of the vertical components of a sequence of deltas.
pub open spec fn total_dy(deltas: Seq<(i32, i32)>) -> int {
    deltas.fold_left(0int, |t: int, d: (i32, i32)| t + d.1)
}

/// The pending totals after a sequence of accumulations are the totals
/// before plus the vector sum of the deltas, wrapped to 32 bits; the flags
/// are untouched.
pub proof fn lemma_accumulated_all(s: MouseState, deltas: Seq<(i32, i32)>)
    ensures
        s.accumulated_all(deltas).dx == wrap_i32(s.dx + total_dx(deltas)),
        s.accumulated_all(deltas).dy == wrap_i32(s.dy + total_dy(deltas)),
        s.accumulated_all(deltas).active == s.active,
        s.accumulated_all(deltas).quit == s.quit,
    decreases deltas.len(),
{
    if deltas.len() == 0 {
        lemma_wrap_i32(s.dx as int, 0);
        lemma_wrap_i32(s.dy as int, 0);
    } else {
        let shorter = deltas.drop_last();
        let d = deltas.last();
        lemma_accumulated_all(s, shorter);
        lemma_wrap_i32(s.dx + total_dx(shorter), d.0 as int);
        lemma_wrap_i32(s.dy + total_dy(shorter), d.1 as int);
    }
}

/// After any sequence of accumulations on an empty channel, one drain
/// returns the vector sum of the deltas (exactly, where each total fits 32
/// bits) and leaves nothing behind, so a second drain right after it returns
/// `(0, 0)`.
pub proof fn lemma_drain_returns_sum(s: MouseState, deltas: Seq<(i32, i32)>)
    requires
        s.dx == 0,
        s.dy == 0,
    ensures
        s.accumulated_all(deltas).pending().0 == wrap_i32(total_dx(deltas)),
        s.accumulated_all(deltas).pending().1 == wrap_i32(total_dy(deltas)),
        i32::MIN as int <= total_dx(deltas) <= i32::MAX as int ==> s.accumulated_all(
            deltas,
        ).pending().0 == total_dx(deltas),
        i32::MIN as int <= total_dy(deltas) <= i32::MAX as int ==> s.accumulated_all(
            deltas,
        ).pending().1 == total_dy(deltas),
        s.accumulated_all(deltas).drained().pending() == (0i32, 0i32),
        s.accumulated_all(deltas).drained().drained() == s.accumulated_all(deltas).drained(),
{
    lemma_accumulated_all(s, deltas);
    lemma_wrap_i32(total_dx(deltas), 0);
    lemma_wrap_i32(total_dy(deltas), 0);
}

/// The order in which accumulations reach the channel does not matter: two
/// sequences that hold the same deltas, each as often as the other, leave
/// the same totals. Every interleaving of a set of accumulations is one
/// such sequence.
pub proof fn lemma_accumulation_order_irrelevant(
    s: MouseState,
    first: Seq<(i32, i32)>,
    second: Seq<(i32, i32)>,
)
    requires
        first.to_multiset() == second.to_multiset(),
    ensures
        total_dx(first) == total_dx(second),
        total_dy(first) == total_dy(second),
        s.accumulated_all(first) == s.accumulated_all(second),
{
    let fx = |t: int, d: (i32, i32)| t + d.0;
    let fy = |t: int, d: (i32, i32)| t + d.1;
    lemma_fold_left_permutation(first, second, fx, 0int);
    lemma_fold_left_permutation(first, second, fy, 0int);
    lemma_accumulated_all(s, first);
    lemma_accumulated_all(s, second);
}

/// Lifecycle of the capture loop.
#[derive(Clone, Copy, Debug, PartialEq, Eq, Structural)]
pub enum CaptureState {
    /// The device is open but not captured; motion is discarded.
    Idle,
    /// The device is captured; motion flows into the channel.
    Active,
    /// Shutdown was requested; the loop is leaving.
    Terminating,
}

/// What the capture loop does next.
#[derive(Clone, Copy, Debug, PartialEq, Eq, Structural)]
pub enum CaptureAction {
    /// Nothing changed: read the next batch of events.
    Read,
    /// Capture the device, then read.
    Grab,
    /// Release the device, then read.
    Ungrab,
    /// Release the device and leave the loop.
    Exit,
}

/// How the capture loop goes on after a device read has failed.
#[derive(Clone, Copy, Debug, PartialEq, Eq, Structural)]
pub enum ReadRecovery {
    /// Shutdown was requested: release the device and leave the loop.
    Exit,
    /// A control signal interrupted the read: look at the flags and read
    /// again, without reporting anything.
    Retry,
    /// A real failure: report it and read again after the given pause.
    Backoff { millis: u64 },
}

/// One input event as the device reports it.
#[derive(Clone, Copy, Debug, PartialEq, Eq, Structural)]
pub struct RawEvent {
    /// Event type of the input protocol.
    pub event_type: u16,
    /// Event code within the type.
    pub code: u16,
    /// Signed magnitude.
    pub value: i32,
}

/// The delta that one event contributes to the channel: its value on the
/// axis it moves, nothing for any other event.
pub open spec fn motion_of(e: RawEvent) -> (i32, i32) {
    if e.event_type == EV_RELATIVE && e.code == REL_X {
        (e.value, 0i32)
    } else if e.event_type == EV_RELATIVE && e.code == REL_Y {
        (0i32, e.value)
    } else {
        (0i32, 0i32)
    }
}

/// The deltas that a batch of events contributes, in order.
pub open spec fn motions_of(events: Seq<RawEvent>) -> Seq<(i32, i32)> {
    events.map_values(|e: RawEvent| motion_of(e))
}

/// The state of the capture loop after it has looked at the flags.
pub open spec fn next_capture_state(state: CaptureState, quit: bool, toggle: bool) -> CaptureState {
    if quit || state == CaptureState::Terminating {
        CaptureState::Terminating
    } else if toggle && state == CaptureState::Idle {
        CaptureState::Active
    } else if toggle {
        CaptureState::Idle
    } else {
        state
    }
}

/// What the capture loop does after it has looked at the flags.
pub open spec fn capture_action(state: CaptureState, quit: bool, toggle: bool) -> CaptureAction {
    if quit || state == CaptureState::Terminating {
        CaptureAction::Exit
    } else if toggle && state == CaptureState::Idle {
        CaptureAction::Grab
    } else if toggle {
        CaptureAction::Ungrab
    } else {
        CaptureAction::Read
    }
}

/// Relative-axis code and value of an event, as `evdev::InputEvent::kind`
/// and `evdev::InputEvent::value` report them for the event that
/// `evdev::InputEvent::new` builds from the three fields. The contract claims
/// that `kind` answers `RelAxis` exactly for events of type `EV_RELATIVE`,
/// with the event's code as the axis, and that `value` hands the value back.
#[verifier::external_body]
fn relative_motion(event_type: u16, code: u16, value: i32) -> (r: Option<(u16, i32)>)
    ensures
        r == (if event_type == EV_RELATIVE {
            Some((code, value))
        } else {
            None::<(u16, i32)>
        }),
{
    let event = evdev::InputEvent::new(evdev::EventType(event_type), code, value);
    match event.kind() {
        evdev::InputEventKind::RelAxis(axis) => Some((axis.0, event.value())),
        _ => None,
    }
}

/// The decisions of the capture loop. The loop itself owns the device: it
/// carries out each action and hands back what the device answered.
#[derive(Debug)]
pub struct MouseReader {
    state: CaptureState,
}

impl View for MouseReader {
    type V = CaptureState;

    closed spec fn view(&self) -> CaptureState {
        self.state
    }
}

impl MouseReader {
    /// A reader whose device is open and not captured.
    pub fn new() -> (r: MouseReader)
        ensures
            r@ == CaptureState::Idle,
    {
        MouseReader { state: CaptureState::Idle }
    }

    /// The lifecycle state.
    pub fn state(&self) -> (s: CaptureState)
        ensures
            s == self@,
    {
        self.state
    }

    /// First step of every iteration: looks at the flags. `toggle_requested`
    /// is the toggle flag as the caller has just consumed it. A quit request
    /// ends the loop; a toggle flips between idle and active and publishes
    /// the new state in the channel's `active` flag.
    pub fn begin_iteration(&mut self, shared: &mut MouseState, toggle_requested: bool) -> (action:
        CaptureAction)
        ensures
            final(self)@ == next_capture_state(old(self)@, old(shared).quit, toggle_requested),
            action == capture_action(old(self)@, old(shared).quit, toggle_requested),
            final(shared).dx == old(shared).dx,
            final(shared).dy == old(shared).dy,
            final(shared).quit == old(shared).quit,
            final(shared).active == match action {
                CaptureAction::Grab => true,
                CaptureAction::Ungrab => false,
                _ => old(shared).active,
            },
    {
        if shared.quit || self.state == CaptureState::Terminating {
            self.state = CaptureState::Terminating;
            CaptureAction::Exit
        } else if toggle_requested && self.state == CaptureState::Idle {
            self.state = CaptureState::Active;
            shared.active = true;
            CaptureAction::Grab
        } else if toggle_requested {
            self.state = CaptureState::Idle;
            shared.active = false;
            CaptureAction::Ungrab
        } else {
            CaptureAction::Read
        }
    }

    /// Routes a batch of events: while active, every horizontal or vertical
    /// relative-motion sample is added into the channel; in any other state
    /// the batch is discarded.
    pub fn on_events(&self, shared: &mut MouseState, events: &[RawEvent])
        ensures
            self@ == CaptureState::Active ==> *final(shared) == old(shared).accumulated_all(
                motions_of(events@),
            ),
            self@ != CaptureState::Active ==> *final(shared) == *old(shared),
    {
        if self.state != CaptureState::Active {
            return ;
        }
        let n: usize = events.len();
        let mut i: usize = 0;
        while i < n
            invariant
                i <= n,
                n == events@.len(),
                *shared == old(shared).accumulated_all(motions_of(events@.take(i as int))),
            decreases n - i,
        {
            let e = events[i];
            proof {
                let done = motions_of(events@.take(i as int));
                let more = motions_of(events@.take(i + 1));
                assert(more.drop_last() =~= done);
                lemma_wrap_i32(shared.dx as int, 0);
                lemma_wrap_i32(shared.dy as int, 0);
            }
            match relative_motion(e.event_type, e.code, e.value) {
                Some((axis, value)) => {
                    if axis == REL_X {
                        shared.accumulate(value, 0);
                    } else if axis == REL_Y {
                        shared.accumulate(0, value);
                    }
                },
                None => {},
            }
            i = i + 1;
        }
        proof {
            assert(events@.take(n as int) =~= events@);
        }
    }

    /// Decides how to go on after a device read has failed. `interrupted`
    /// says whether the failure was an interruption by a signal.
    pub fn on_read_error(&mut self, shared: &MouseState, interrupted: bool) -> (r: ReadRecovery)
        ensures
            final(self)@ == next_capture_state(old(self)@, shared.quit, false),
            r == if shared.quit || old(self)@ == CaptureState::Terminating {
                ReadRecovery::Exit
            } else if interrupted {
                ReadRecovery::Retry
            } else {
                ReadRecovery::Backoff { millis: READ_BACKOFF_MILLIS }
            },
    {
        if shared.quit || self.state == CaptureState::Terminating {
            self.state = CaptureState::Terminating;
            ReadRecovery::Exit
        } else if interrupted {
            ReadRecovery::Retry
        } else {
            ReadRecovery::Backoff { millis: READ_BACKOFF_MILLIS }
        }
    }
}

/// Two toggles in a row, with no device read between them, leave the capture
/// state where it was.
pub proof fn lemma_double_toggle(state: CaptureState)
    ensures
        next_capture_state(next_capture_state(state, false, true), false, true) == state,
{
}

/// A quit request ends the capture loop from any state, and the loop never
/// leaves the terminating state again.
pub proof fn lemma_quit_is_final(state: CaptureState, quit: bool, toggle: bool)
    ensures
        next_capture_state(state, true, toggle) == CaptureState::Terminating,
        next_capture_state(CaptureState::Terminating, quit, toggle) == CaptureState::Terminating,
        capture_action(state, true, toggle) == CaptureAction::Exit,
{
}

} // verus!
