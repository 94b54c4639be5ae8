//! The emission sink: clamps a stick position to the declared axis range,
//! remembers the last position it reported, and says which events carry a
//! position to the output device.

use vstd::prelude::*;

verus! {

/// Lower bound of the range that the virtual stick declares for each axis.
pub const STICK_MIN: i32 = -32767;

/// Upper bound of the range that the virtual stick declares for each axis.
pub const STICK_MAX: i32 = 32767;

/// The value of the declared axis range that lies nearest to `v`.
pub open spec fn clamp_to_stick(v: int) -> int {
    if v < STICK_MIN as int {
        STICK_MIN as int
    } else if v > STICK_MAX as int {
        STICK_MAX as int
    } else {
        v
    }
}

/// Clamps a coordinate to the declared axis range.
pub fn clamp_axis(v: i32) -> (r: i32)
    ensures
        r as int == clamp_to_stick(v as int),
{
    if v < STICK_MIN {
        STICK_MIN
    } else if v > STICK_MAX {
        STICK_MAX
    } else {
        v
    }
}

/// An absolute axis of the virtual gamepad.
#[derive(Clone, Copy, Debug, PartialEq, Eq, Structural)]
pub enum StickAxis {
    /// Horizontal axis of the left stick.
    X,
    /// Vertical axis of the left stick.
    Y,
    /// Horizontal axis of the right stick.
    RX,
    /// Vertical axis of the right stick.
    RY,
}

/// One event written to the output device.
#[derive(Clone, Copy, Debug, PartialEq, Eq, Structural)]
pub enum PadEvent {
    /// A new value for an absolute axis.
    Absolute { axis: StickAxis, value: i32 },
    /// The marker that closes a report.
    Synchronization,
}

/// A stick position on its way to the output device.
#[derive(Clone, Copy, Debug, PartialEq, Eq, Structural)]
pub struct StickReport {
    /// Axis that carries the horizontal coordinate.
    pub axis_x: StickAxis,
    /// Horizontal coordinate, within the declared range.
    pub x: i32,
    /// Axis that carries the vertical coordinate.
    pub axis_y: StickAxis,
    /// Vertical coordinate, within the declared range.
    pub y: i32,
}

impl StickReport {
    /// The events that carry the report, in the order in which they are
    /// written: one per axis, then the synchronization marker.
    pub open spec fn event_seq(self) -> Seq<PadEvent> {
        seq![
            PadEvent::Absolute { axis: self.axis_x, value: self.x },
            PadEvent::Absolute { axis: self.axis_y, value: self.y },
            PadEvent::Synchronization,
        ]
    }

    /// The events that carry the report, in the order in which they are
    /// written.
    pub fn events(&self) -> (r: [PadEvent; 3])
        ensures
            r@ == self.event_seq(),
    {
        [
            PadEvent::Absolute { axis: self.axis_x, value: self.x },
            PadEvent::Absolute { axis: self.axis_y, value: self.y },
            PadEvent::Synchronization,
        ]
    }
}

/// The pair of axes that carries the stick: the left stick's or the right
/// stick's.
pub open spec fn stick_axes(use_left_stick: bool) -> (StickAxis, StickAxis) {
    if use_left_stick {
        (StickAxis::X, StickAxis::Y)
    } else {
        (StickAxis::RX, StickAxis::RY)
    }
}

/// The virtual gamepad as the tick loop sees it: the axes it drives and the
/// position it last reported.
#[derive(Debug)]
pub struct VirtualPad {
    axis_x: StickAxis,
    axis_y: StickAxis,
    x: i32,
    y: i32,
}

impl VirtualPad {
    /// The axes that carry the horizontal and the vertical coordinate.
    pub closed spec fn axes(&self) -> (StickAxis, StickAxis) {
        (self.axis_x, self.axis_y)
    }

    /// The position last reported.
    pub closed spec fn position(&self) -> (int, int) {
        (self.x as int, self.y as int)
    }

    /// The report that carries `(x, y)` on this pad's axes, clamped to the
    /// declared range.
    pub open spec fn report_for(&self, x: int, y: int) -> StickReport {
        StickReport {
            axis_x: self.axes().0,
            x: clamp_to_stick(x) as i32,
            axis_y: self.axes().1,
            y: clamp_to_stick(y) as i32,
        }
    }

    /// A centered pad on the left stick's axes or on the right stick's.
    pub fn new(use_left_stick: bool) -> (pad: VirtualPad)
        ensures
            pad.axes() == stick_axes(use_left_stick),
            pad.position() == (0int, 0int),
    {
        if use_left_stick {
            VirtualPad { axis_x: StickAxis::X, axis_y: StickAxis::Y, x: 0, y: 0 }
        } else {
            VirtualPad { axis_x: StickAxis::RX, axis_y: StickAxis::RY, x: 0, y: 0 }
        }
    }

    /// The position last reported.
    pub fn last_position(&self) -> (r: (i32, i32))
        ensures
            (r.0 as int, r.1 as int) == self.position(),
    {
        (self.x, self.y)
    }

    /// Clamps both coordinates to the declared range, records the result as
    /// the position last reported, and returns the report to write. A value
    /// beyond the range comes out as the boundary, never wrapped.
    pub fn emit_stick(&mut self, x: i32, y: i32) -> (report: StickReport)
        ensures
            report == old(self).report_for(x as int, y as int),
            final(self).axes() == old(self).axes(),
            final(self).position() == (clamp_to_stick(x as int), clamp_to_stick(y as int)),
    {
        self.x = clamp_axis(x);
        self.y = clamp_axis(y);
        StickReport { axis_x: self.axis_x, x: self.x, axis_y: self.axis_y, y: self.y }
    }
}

} // verus!
