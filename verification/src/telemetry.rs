//! Debug telemetry: totals of what the tick loop saw, reported once every
//! hundred active ticks. It has no effect on what the loop does.

use vstd::prelude::*;

verus! {

/// Number of active ticks that one report covers.
pub const TELEMETRY_PERIOD: u32 = 100;

/// What the tick loop saw during one telemetry period.
#[derive(Clone, Copy, Debug, PartialEq, Eq, Structural)]
pub struct TelemetryReport {
    /// Sum of the raw horizontal deltas of the period.
    pub raw_dx: i64,
    /// Sum of the raw vertical deltas of the period.
    pub raw_dy: i64,
    /// Number of ticks of the period that drained any motion.
    pub samples: u32,
    /// Filtered horizontal value at the end of the period, in millionths of
    /// a count.
    pub filtered_x: i64,
    /// Filtered vertical value at the end of the period, in millionths of a
    /// count.
    pub filtered_y: i64,
    /// Horizontal stick position at the end of the period.
    pub out_x: i32,
    /// Vertical stick position at the end of the period.
    pub out_y: i32,
}

/// The totals of the running telemetry period.
#[derive(Debug)]
pub struct Telemetry {
    ticks: u32,
    raw_dx: i64,
    raw_dy: i64,
    samples: u32,
}

/// The totals of a telemetry period as plain numbers.
pub struct TelemetryTotals {
    /// Active ticks seen so far in the period.
    pub ticks: int,
    /// Sum of the raw horizontal deltas so far.
    pub raw_dx: int,
    /// Sum of the raw vertical deltas so far.
    pub raw_dy: int,
    /// Ticks so far that drained any motion.
    pub samples: int,
}

impl TelemetryTotals {
    /// The totals with one more tick that drained `(dx, dy)`.
    pub open spec fn with_tick(self, dx: int, dy: int) -> TelemetryTotals {
        TelemetryTotals {
            ticks: self.ticks + 1,
            raw_dx: self.raw_dx + dx,
            raw_dy: self.raw_dy + dy,
            samples: self.samples + if dx != 0 || dy != 0 {
                1int
            } else {
                0int
            },
        }
    }

    /// The totals at the start of a period.
    pub open spec fn start() -> TelemetryTotals {
        TelemetryTotals { ticks: 0, raw_dx: 0, raw_dy: 0, samples: 0 }
    }

    /// True when the period is over.
    pub open spec fn complete(self) -> bool {
        self.ticks >= TELEMETRY_PERIOD as int
    }

    /// The totals that are kept after a tick: a complete period starts over.
    pub open spec fn carried(self) -> TelemetryTotals {
        if self.complete() {
            TelemetryTotals::start()
        } else {
            self
        }
    }

    /// What is reported after a tick: nothing until the period is complete,
    /// and nothing for a period in which nothing moved and nothing is left in
    /// the filter.
    pub open spec fn reported(self, filtered: (i64, i64), out: (i32, i32)) -> Option<
        TelemetryReport,
    > {
        if self.complete() && (self.raw_dx != 0 || self.raw_dy != 0 || filtered.0 != 0 || filtered.1
            != 0) {
            Some(
                TelemetryReport {
                    raw_dx: self.raw_dx as i64,
                    raw_dy: self.raw_dy as i64,
                    samples: self.samples as u32,
                    filtered_x: filtered.0,
                    filtered_y: filtered.1,
                    out_x: out.0,
                    out_y: out.1,
                },
            )
        } else {
            None
        }
    }
}

impl View for Telemetry {
    type V = TelemetryTotals;

    closed spec fn view(&self) -> TelemetryTotals {
        TelemetryTotals {
            ticks: self.ticks as int,
            raw_dx: self.raw_dx as int,
            raw_dy: self.raw_dy as int,
            samples: self.samples as int,
        }
    }
}

impl Telemetry {
    /// The period is running and its totals are what that many ticks can
    /// add up to.
    pub open spec fn wf(&self) -> bool {
        &&& 0 <= self@.ticks < TELEMETRY_PERIOD as int
        &&& 0 <= self@.samples <= self@.ticks
        &&& -(self@.ticks * 0x8000_0000) <= self@.raw_dx <= self@.ticks * 0x8000_0000
        &&& -(self@.ticks * 0x8000_0000) <= self@.raw_dy <= self@.ticks * 0x8000_0000
    }

    /// Telemetry at the start of a period.
    pub fn new() -> (t: Telemetry)
        ensures
            t.wf(),
            t@ == TelemetryTotals::start(),
    {
        Telemetry { ticks: 0, raw_dx: 0, raw_dy: 0, samples: 0 }
    }

    /// Records one active tick: the delta it drained, and the filtered value
    /// and stick position it ended with. Returns the report of the period
    /// when this tick completes it.
    pub fn record(&mut self, dx: i32, dy: i32, filtered: (i64, i64), out: (i32, i32)) -> (r: Option<
        TelemetryReport,
    >)
        requires
            old(self).wf(),
        ensures
            final(self).wf(),
            final(self)@ == old(self)@.with_tick(dx as int, dy as int).carried(),
            r == old(self)@.with_tick(dx as int, dy as int).reported(filtered, out),
    {
        self.raw_dx = self.raw_dx + dx as i64;
        self.raw_dy = self.raw_dy + dy as i64;
        if dx != 0 || dy != 0 {
            self.samples = self.samples + 1;
        }
        self.ticks = self.ticks + 1;
        if self.ticks < TELEMETRY_PERIOD {
            return None;
        }
        let report = if self.raw_dx != 0 || self.raw_dy != 0 || filtered.0 != 0 || filtered.1 != 0 {
            Some(
                TelemetryReport {
                    raw_dx: self.raw_dx,
                    raw_dy: self.raw_dy,
                    samples: self.samples,
                    filtered_x: filtered.0,
                    filtered_y: filtered.1,
                    out_x: out.0,
                    out_y: out.1,
                },
            )
        } else {
            None
        };
        self.ticks = 0;
        self.raw_dx = 0;
        self.raw_dy = 0;
        self.samples = 0;
        report
    }
}

} // verus!
