//! Geometric-decay filter for one axis, the state behind both the leaky
//! integrator and the exponential moving average.

use vstd::prelude::*;
use vstd::arithmetic::power2::{lemma2_to64, lemma_pow2_unfold, pow2};
use crate::fixed::{lemma_trunc_div_bounds, magnitude, trunc_div, PERMILLE, UNIT};

verus! {

/// Smallest decay ratio the filter accepts, in permille.
pub const MIN_DECAY: u32 = 500;

/// Largest decay ratio the filter accepts, in permille.
pub const MAX_DECAY: u32 = 999;

/// Residue below this magnitude (half a count) collapses to zero.
pub const SNAP_THRESHOLD: i64 = 500_000;

/// Largest magnitude a filtered value can reach: a full-scale delta on every
/// tick at the slowest decay.
pub const FILTER_LIMIT: i64 = 2_147_483_648_000_000_000;

/// Collapses near-zero residue to exactly zero.
pub open spec fn snap(v: int) -> int {
    if -(SNAP_THRESHOLD as int) < v < SNAP_THRESHOLD as int {
        0
    } else {
        v
    }
}

/// One tick of the decay recurrence: the old value shrinks by `decay`
/// permille, the new delta enters at full weight, and the result is snapped.
pub open spec fn decay_step(value: int, decay: int, delta: int) -> int {
    snap(trunc_div(value * decay, PERMILLE as int) + delta * UNIT)
}

/// The decay ratio that is used for a requested one.
pub open spec fn clamp_decay(decay: int) -> int {
    if decay < MIN_DECAY as int {
        MIN_DECAY as int
    } else if decay > MAX_DECAY as int {
        MAX_DECAY as int
    } else {
        decay
    }
}

/// A value the recurrence can hold: within the limit and not inside the snap
/// band.
pub open spec fn settled_value(v: int) -> bool {
    &&& -(FILTER_LIMIT as int) <= v <= FILTER_LIMIT as int
    &&& snap(v) == v
}

/// The recurrence keeps its value within the limit whatever the deltas.
pub proof fn lemma_decay_step_in_range(value: int, decay: int, delta: int)
    requires
        settled_value(value),
        MIN_DECAY as int <= decay <= MAX_DECAY as int,
        i32::MIN as int <= delta <= i32::MAX as int,
    ensures
        settled_value(decay_step(value, decay, delta)),
        -(FILTER_LIMIT as int * 999) <= value * decay <= FILTER_LIMIT as int * 999,
        -(FILTER_LIMIT as int) <= trunc_div(value * decay, 1000) + delta * 1_000_000
            <= FILTER_LIMIT as int,
{
    let m = magnitude(value);
    let p = value * decay;
    assert(magnitude(p) == m * decay) by (nonlinear_arith)
        requires
            m == magnitude(value),
            p == value * decay,
            decay > 0,
    ;
    assert(m * decay <= FILTER_LIMIT as int * 999) by (nonlinear_arith)
        requires
            0 <= m <= FILTER_LIMIT as int,
            0 < decay <= 999,
    ;
    lemma_trunc_div_bounds(p, 1000);
}

/// The value that remains of `value` after `ticks` ticks without input.
pub open spec fn idle_value(value: int, decay: int, ticks: nat) -> int
    decreases ticks,
{
    if ticks == 0 {
        value
    } else {
        decay_step(idle_value(value, decay, (ticks - 1) as nat), decay, 0)
    }
}

/// Number of idle ticks after which a value has lost at least half of its
/// magnitude: the least `n` with `n * (1000 - decay) >= 1000`.
pub open spec fn halving_ticks(decay: int) -> nat {
    ((1999 - decay) / (1000 - decay)) as nat
}

/// Number of idle ticks after which a value of the given magnitude has
/// reached zero: one halving period for each time the magnitude can be halved
/// before it falls into the snap band.
pub open spec fn settle_ticks(mag: nat, decay: int) -> nat
    decreases mag,
{
    if mag < SNAP_THRESHOLD as nat {
        0
    } else {
        halving_ticks(decay) + settle_ticks(mag / 2, decay)
    }
}

/// One idle tick shrinks the magnitude by at least the decay ratio and never
/// flips the sign.
pub proof fn lemma_idle_step(value: int, decay: int)
    requires
        MIN_DECAY as int <= decay <= MAX_DECAY as int,
    ensures
        1000 * magnitude(decay_step(value, decay, 0)) <= decay * magnitude(value),
        magnitude(decay_step(value, decay, 0)) <= magnitude(value),
        value >= 0 ==> decay_step(value, decay, 0) >= 0,
        value <= 0 ==> decay_step(value, decay, 0) <= 0,
        snap(decay_step(value, decay, 0)) == decay_step(value, decay, 0),
{
    let m = magnitude(value);
    let p = value * decay;
    assert(magnitude(p) == decay * m && (value >= 0 ==> p >= 0) && (value <= 0 ==> p <= 0))
        by (nonlinear_arith)
        requires
            m == magnitude(value),
            p == value * decay,
            decay > 0,
    ;
    lemma_trunc_div_bounds(p, 1000);
    assert(decay * m <= 1000 * m) by (nonlinear_arith)
        requires
            m >= 0,
            decay <= 1000,
    ;
}

/// Idle ticks compose: `a + b` of them are `a` followed by `b`.
pub proof fn lemma_idle_value_split(value: int, decay: int, a: nat, b: nat)
    ensures
        idle_value(value, decay, a + b) == idle_value(idle_value(value, decay, a), decay, b),
    decreases b,
{
    if b > 0 {
        lemma_idle_value_split(value, decay, a, (b - 1) as nat);
    }
}

/// Without input a burst response never grows and never changes sign.
pub proof fn lemma_idle_value_monotone(value: int, decay: int, ticks: nat)
    requires
        MIN_DECAY as int <= decay <= MAX_DECAY as int,
    ensures
        magnitude(idle_value(value, decay, ticks + 1)) <= magnitude(idle_value(value, decay, ticks)),
        magnitude(idle_value(value, decay, ticks)) <= magnitude(value),
        value >= 0 ==> idle_value(value, decay, ticks) >= 0,
        value <= 0 ==> idle_value(value, decay, ticks) <= 0,
        ticks > 0 ==> snap(idle_value(value, decay, ticks)) == idle_value(value, decay, ticks),
    decreases ticks,
{
    if ticks > 0 {
        lemma_idle_value_monotone(value, decay, (ticks - 1) as nat);
        lemma_idle_step(idle_value(value, decay, (ticks - 1) as nat), decay);
    }
    lemma_idle_step(idle_value(value, decay, ticks), decay);
}

/// A value at zero stays at zero for as long as no input arrives.
pub proof fn lemma_idle_zero_stays(decay: int, ticks: nat)
    requires
        MIN_DECAY as int <= decay <= MAX_DECAY as int,
    ensures
        idle_value(0, decay, ticks) == 0,
{
    lemma_idle_value_monotone(0, decay, ticks);
}

proof fn lemma_idle_progress(value: int, decay: int, ticks: nat)
    requires
        MIN_DECAY as int <= decay <= MAX_DECAY as int,
    ensures
        2 * magnitude(idle_value(value, decay, ticks)) <= magnitude(value) || 2000 * magnitude(
            idle_value(value, decay, ticks),
        ) + ticks * (1000 - decay) * magnitude(value) <= 2000 * magnitude(value),
    decreases ticks,
{
    let m0 = magnitude(value);
    let k = 1000 - decay;
    if ticks == 0 {
        assert(0 * k * m0 == 0) by (nonlinear_arith);
    } else {
        let i = (ticks - 1) as nat;
        let prev = idle_value(value, decay, i);
        let mi = magnitude(prev);
        let mn = magnitude(idle_value(value, decay, ticks));
        lemma_idle_progress(value, decay, i);
        lemma_idle_step(prev, decay);
        if 2 * mi <= m0 {
        } else {
            assert(2000 * mn + ticks * k * m0 <= 2000 * m0) by (nonlinear_arith)
                requires
                    1000 * mn <= decay * mi,
                    k == 1000 - decay,
                    k > 0,
                    2 * mi > m0,
                    m0 >= 0,
                    2000 * mi + i * k * m0 <= 2000 * m0,
                    ticks == i + 1,
            ;
        }
    }
}

/// After one halving period without input at most half of the magnitude is
/// left.
pub proof fn lemma_idle_halves(value: int, decay: int)
    requires
        MIN_DECAY as int <= decay <= MAX_DECAY as int,
    ensures
        halving_ticks(decay) >= 1,
        2 * magnitude(idle_value(value, decay, halving_ticks(decay))) <= magnitude(value),
{
    let h = halving_ticks(decay);
    let k = 1000 - decay;
    let m0 = magnitude(value);
    let mh = magnitude(idle_value(value, decay, h));
    assert(h * k >= 1000 && h >= 1) by (nonlinear_arith)
        requires
            h == (999 + k) / k,
            1 <= k <= 500,
    ;
    lemma_idle_progress(value, decay, h);
    if 2 * mh > m0 {
        assert(2 * mh <= m0) by (nonlinear_arith)
            requires
                2000 * mh + h * k * m0 <= 2000 * m0,
                h * k >= 1000,
                m0 >= 0,
        ;
    }
}

/// A larger magnitude never settles sooner.
pub proof fn lemma_settle_ticks_monotone(a: nat, b: nat, decay: int)
    requires
        a <= b,
    ensures
        settle_ticks(a, decay) <= settle_ticks(b, decay),
    decreases b,
{
    if a >= SNAP_THRESHOLD as nat {
        lemma_settle_ticks_monotone(a / 2, b / 2, decay);
    }
}

/// A value fed nothing but zero deltas is exactly zero after `settle_ticks`
/// ticks, and stays zero on every later tick.
pub proof fn lemma_idle_settles(value: int, decay: int, ticks: nat)
    requires
        MIN_DECAY as int <= decay <= MAX_DECAY as int,
        snap(value) == value,
        ticks >= settle_ticks(magnitude(value) as nat, decay),
    ensures
        idle_value(value, decay, ticks) == 0,
    decreases magnitude(value),
{
    let m = magnitude(value) as nat;
    if m < SNAP_THRESHOLD as nat {
        lemma_idle_zero_stays(decay, ticks);
    } else {
        let h = halving_ticks(decay);
        let rest = idle_value(value, decay, h);
        lemma_idle_halves(value, decay);
        lemma_idle_value_monotone(value, decay, h);
        lemma_settle_ticks_monotone(magnitude(rest) as nat, m / 2, decay);
        lemma_idle_settles(rest, decay, (ticks - h) as nat);
        lemma_idle_value_split(value, decay, h, (ticks - h) as nat);
    }
}

/// Every halving of the magnitude costs one halving period: a magnitude
/// below `SNAP_THRESHOLD * 2^halvings` settles within `halvings` periods.
pub proof fn lemma_settle_ticks_bound(mag: nat, decay: int, halvings: nat)
    requires
        MIN_DECAY as int <= decay <= MAX_DECAY as int,
        mag < SNAP_THRESHOLD as nat * pow2(halvings),
    ensures
        settle_ticks(mag, decay) <= halvings * halving_ticks(decay),
        halving_ticks(decay) <= 1000,
    decreases halvings,
{
    let h = halving_ticks(decay);
    let k = 1000 - decay;
    assert(h <= 1000) by (nonlinear_arith)
        requires
            h == (999 + k) / k,
            1 <= k <= 500,
    ;
    assert(halvings * h >= 0) by (nonlinear_arith)
        requires
            halvings >= 0,
            h >= 0,
    ;
    if mag >= SNAP_THRESHOLD as nat {
        if halvings == 0 {
            lemma2_to64();
        } else {
            lemma_pow2_unfold(halvings);
            let p = pow2((halvings - 1) as nat);
            assert(SNAP_THRESHOLD as nat * pow2(halvings) == 1_000_000 * p) by (nonlinear_arith)
                requires
                    pow2(halvings) == 2 * p,
                    SNAP_THRESHOLD == 500_000,
            ;
            lemma_settle_ticks_bound(mag / 2, decay, (halvings - 1) as nat);
            assert(h + (halvings - 1) * h == halvings * h) by (nonlinear_arith);
        }
    }
}

/// At a decay of 950 permille or less, a value of less than 512 counts has
/// reached zero within 200 idle ticks.
pub proof fn lemma_settle_ticks_typical(mag: nat, decay: int)
    requires
        MIN_DECAY as int <= decay <= 950,
        mag < 512 * UNIT,
    ensures
        settle_ticks(mag, decay) <= 200,
{
    let h = halving_ticks(decay);
    let k = 1000 - decay;
    assert(h <= 20) by (nonlinear_arith)
        requires
            h == (999 + k) / k,
            50 <= k <= 500,
    ;
    lemma2_to64();
    lemma_settle_ticks_bound(mag, decay, 10);
}

/// One axis of a decaying filter. The value is held in millionths of a
/// count.
pub struct DecayFilter {
    decay: u32,
    value: i64,
}

impl DecayFilter {
    /// The decay ratio in permille.
    pub closed spec fn decay(&self) -> int {
        self.decay as int
    }

    /// The filtered value in millionths of a count.
    pub closed spec fn value(&self) -> int {
        self.value as int
    }

    /// The ratio lies in the accepted range and the value is one the
    /// recurrence can hold.
    pub open spec fn wf(&self) -> bool {
        &&& MIN_DECAY as int <= self.decay() <= MAX_DECAY as int
        &&& settled_value(self.value())
    }

    /// A filter at rest. A ratio outside the accepted range is replaced by the
    /// nearest accepted one.
    pub fn new(decay_permille: u32) -> (f: DecayFilter)
        ensures
            f.wf(),
            f.decay() == clamp_decay(decay_permille as int),
            f.value() == 0,
    {
        let decay: u32 = if decay_permille < MIN_DECAY {
            MIN_DECAY
        } else if decay_permille > MAX_DECAY {
            MAX_DECAY
        } else {
            decay_permille
        };
        DecayFilter { decay, value: 0 }
    }

    /// Advances the filter by one tick with that tick's delta and returns the
    /// new filtered value.
    pub fn advance(&mut self, delta: i32) -> (r: i64)
        requires
            old(self).wf(),
        ensures
            final(self).wf(),
            final(self).decay() == old(self).decay(),
            final(self).value() == decay_step(old(self).value(), old(self).decay(), delta as int),
            r as int == final(self).value(),
    {
        proof {
            lemma_decay_step_in_range(self.value as int, self.decay as int, delta as int);
        }
        let kept: i128 = (self.value as i128) * (self.decay as i128) / (PERMILLE as i128);
        let raw: i64 = (kept + (delta as i128) * (UNIT as i128)) as i64;
        if -SNAP_THRESHOLD < raw && raw < SNAP_THRESHOLD {
            self.value = 0;
        } else {
            self.value = raw;
        }
        self.value
    }

    /// The current filtered value.
    pub fn current(&self) -> (r: i64)
        ensures
            r as int == self.value(),
    {
        self.value
    }

    /// Forgets all motion.
    pub fn reset(&mut self)
        ensures
            final(self).decay() == old(self).decay(),
            final(self).value() == 0,
    {
        self.value = 0;
    }
}

} // verus!
