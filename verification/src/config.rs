//! Configuration of the core and the scaling from a filtered
//! value to a stick deflection.

use vstd::prelude::*;
use crate::fixed::{lemma_trunc_div_bounds, magnitude, trunc_div, PERMILLE, UNIT};
use crate::smoothing::Smoothing;
use crate::virtual_pad::{clamp_to_stick, STICK_MAX, STICK_MIN};

verus! {

/// Stick units per device count at a sensitivity of one.
pub const BASE_SCALE: u32 = 2400;

/// Smallest sensitivity multiplier that is used, in permille.
pub const MIN_SENSITIVITY: u32 = 1;

/// Largest sensitivity multiplier that is used, in permille.
pub const MAX_SENSITIVITY: u32 = 100_000;

/// Sensitivity multiplier of one, in permille.
pub const DEFAULT_SENSITIVITY: u32 = 1000;

/// What the core is configured with.
#[derive(Clone, Copy, Debug)]
pub struct Config {
    /// Sensitivity multiplier in permille; values outside
    /// `MIN_SENSITIVITY..=MAX_SENSITIVITY` are clamped before use.
    pub sensitivity_permille: u32,
    /// Flip the sign of the vertical axis.
    pub invert_y: bool,
    /// Drive the left stick's axes instead of the right stick's.
    pub left_stick: bool,
    /// The smoothing strategy and its parameter.
    pub smoothing: Smoothing,
    /// Report raw, filtered and output values every hundred active ticks.
    pub debug: bool,
}

/// The sensitivity that is used for a requested one.
pub open spec fn clamp_sensitivity(permille: int) -> int {
    if permille < MIN_SENSITIVITY as int {
        MIN_SENSITIVITY as int
    } else if permille > MAX_SENSITIVITY as int {
        MAX_SENSITIVITY as int
    } else {
        permille
    }
}

/// Stick deflection for a filtered value in millionths of a count: the value
/// times `BASE_SCALE` times the sensitivity, rounded toward zero, with the
/// sign flipped where `invert` is set, clamped to the declared axis range.
pub open spec fn deflection(filtered: int, sensitivity_permille: int, invert: bool) -> int {
    let scaled = trunc_div(
        filtered * (BASE_SCALE as int * clamp_sensitivity(sensitivity_permille)),
        UNIT as int * PERMILLE as int,
    );
    clamp_to_stick(
        if invert {
            -scaled
        } else {
            scaled
        },
    )
}

/// Computes `deflection`.
pub fn scale_axis(filtered: i64, sensitivity_permille: u32, invert: bool) -> (r: i32)
    ensures
        r as int == deflection(filtered as int, sensitivity_permille as int, invert),
        STICK_MIN <= r <= STICK_MAX,
{
    let sensitivity: u32 = if sensitivity_permille < MIN_SENSITIVITY {
        MIN_SENSITIVITY
    } else if sensitivity_permille > MAX_SENSITIVITY {
        MAX_SENSITIVITY
    } else {
        sensitivity_permille
    };
    let gain: i128 = (BASE_SCALE as i128) * (sensitivity as i128);
    assert(gain as int == 2400 * sensitivity as int);
    assert(-0x8000_0000_0000_0000 * 240_000_000 <= filtered as int * gain as int
        <= 0x8000_0000_0000_0000 * 240_000_000) by (nonlinear_arith)
        requires
            -0x8000_0000_0000_0000 <= filtered as int <= 0x8000_0000_0000_0000,
            0 <= gain as int <= 240_000_000,
    ;
    let product: i128 = (filtered as i128) * gain;
    let scaled: i128 = product / 1_000_000_000;
    let signed: i128 = if invert {
        -scaled
    } else {
        scaled
    };
    if signed < STICK_MIN as i128 {
        STICK_MIN
    } else if signed > STICK_MAX as i128 {
        STICK_MAX
    } else {
        signed as i32
    }
}

impl Config {
    /// The stick position for a filtered pair in millionths of a count.
    pub open spec fn stick_position(&self, filtered: (int, int)) -> (int, int) {
        (
            deflection(filtered.0, self.sensitivity_permille as int, false),
            deflection(filtered.1, self.sensitivity_permille as int, self.invert_y),
        )
    }

    /// Computes `stick_position`.
    pub fn stick_for(&self, filtered: (i64, i64)) -> (r: (i32, i32))
        ensures
            (r.0 as int, r.1 as int) == self.stick_position((filtered.0 as int, filtered.1 as int)),
    {
        (
            scale_axis(filtered.0, self.sensitivity_permille, false),
            scale_axis(filtered.1, self.sensitivity_permille, self.invert_y),
        )
    }
}

impl Default for Config {
    /// Sensitivity one, no inversion, right stick, exponential moving
    /// average, no telemetry.
    fn default() -> (c: Config)
        ensures
            c.sensitivity_permille == DEFAULT_SENSITIVITY,
            !c.invert_y,
            !c.left_stick,
            c.smoothing == Smoothing::Ema,
            !c.debug,
    {
        Config {
            sensitivity_permille: DEFAULT_SENSITIVITY,
            invert_y: false,
            left_stick: false,
            smoothing: Smoothing::Ema,
            debug: false,
        }
    }
}

/// A filtered value whose scaled magnitude exceeds the declared axis range
/// comes out as the boundary on its side, never wrapped, and every
/// deflection lies within the range. A value of zero gives no deflection.
pub proof fn lemma_deflection_clamped(filtered: int, sensitivity_permille: int, invert: bool)
    ensures
        STICK_MIN as int <= deflection(filtered, sensitivity_permille, invert) <= STICK_MAX as int,
        magnitude(filtered) * (BASE_SCALE as int * clamp_sensitivity(sensitivity_permille))
            > STICK_MAX as int * 1_000_000_000 + 999_999_999 ==> deflection(
            filtered,
            sensitivity_permille,
            invert,
        ) == if (filtered > 0) != invert {
            STICK_MAX as int
        } else {
            STICK_MIN as int
        },
        deflection(0, sensitivity_permille, invert) == 0,
{
    let gain = BASE_SCALE as int * clamp_sensitivity(sensitivity_permille);
    let product = filtered * gain;
    assert(magnitude(product) == magnitude(filtered) * gain && (filtered > 0 ==> product > 0) && (
    filtered < 0 ==> product < 0) && (filtered == 0 ==> product == 0)) by (nonlinear_arith)
        requires
            product == filtered * gain,
            gain > 0,
    ;
    lemma_trunc_div_bounds(product, 1_000_000_000);
}

/// Inverting an axis gives the deflection of the opposite filtered value.
pub proof fn lemma_inverted_deflection(filtered: int, sensitivity_permille: int)
    ensures
        deflection(filtered, sensitivity_permille, true) == deflection(
            -filtered,
            sensitivity_permille,
            false,
        ),
        deflection(filtered, sensitivity_permille, true) == -deflection(
            filtered,
            sensitivity_permille,
            false,
        ),
{
    let gain = BASE_SCALE as int * clamp_sensitivity(sensitivity_permille);
    assert((-filtered) * gain == -(filtered * gain)) by (nonlinear_arith);
    lemma_trunc_div_bounds(filtered * gain, 1_000_000_000);
}

} // verus!
