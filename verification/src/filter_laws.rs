//! Laws of the smoothing filters: what every strategy guarantees of its
//! response to motion and to the lack of it.

use vstd::prelude::*;
use vstd::arithmetic::power2::{lemma2_to64_rest, pow2};
use crate::decay::{
    decay_step, halving_ticks, idle_value, lemma_idle_settles, lemma_idle_value_monotone,
    lemma_settle_ticks_bound, SNAP_THRESHOLD,
};
use crate::fixed::{lemma_trunc_div_bounds, magnitude, UNIT};
use crate::smoothing::{
    decay_model, idle_ticks, last_entries, negated, window_model, FilterModel,
};
use crate::window::{empty_window, lemma_zero_sum, seq_sum, window_step};

verus! {

/// Whatever a window held at the start, after any number of ticks it holds
/// the last entries of what it held before followed by the deltas it was
/// fed.
pub proof fn lemma_window_run(slots: Seq<int>, deltas: Seq<int>)
    requires
        slots.len() >= 1,
    ensures
        window_model(slots).run(deltas) == window_model(last_entries(slots + deltas, slots.len())),
    decreases deltas.len(),
{
    if deltas.len() == 0 {
        assert(last_entries(slots + deltas, slots.len()) =~= slots);
    } else {
        let shorter = deltas.drop_last();
        lemma_window_run(slots, shorter);
        let before = last_entries(slots + shorter, slots.len());
        assert(window_step(before, deltas.last()) =~= last_entries(slots + deltas, slots.len()));
    }
}

/// Once a window of length `N` has been fed at least `N` deltas it holds
/// exactly the last `N` of them, so its output is their unweighted sum and
/// every older delta is fully evicted.
pub proof fn lemma_window_holds_last_deltas(slots: Seq<int>, deltas: Seq<int>)
    requires
        1 <= slots.len() <= deltas.len(),
    ensures
        window_model(slots).run(deltas) == window_model(last_entries(deltas, slots.len())),
        window_model(slots).run(deltas).output() == UNIT * seq_sum(
            last_entries(deltas, slots.len()),
        ),
{
    lemma_window_run(slots, deltas);
    assert(last_entries(slots + deltas, slots.len()) =~= last_entries(deltas, slots.len()));
}

/// A decaying filter that is fed nothing follows `idle_value`.
pub proof fn lemma_decay_idle_run(decay: int, value: int, ticks: nat)
    ensures
        decay_model(decay, value).run(idle_ticks(ticks)) == decay_model(
            decay,
            idle_value(value, decay, ticks),
        ),
    decreases ticks,
{
    if ticks > 0 {
        lemma_decay_idle_run(decay, value, (ticks - 1) as nat);
        assert(idle_ticks(ticks).drop_last() =~= idle_ticks((ticks - 1) as nat));
    }
}

/// A filter that is fed nothing but zero deltas is at rest, with an output
/// of exactly zero, once `settle_bound` ticks have passed, and on every tick
/// after that.
pub proof fn lemma_idle_decay(m: FilterModel, ticks: nat)
    requires
        m.wf(),
        ticks >= m.settle_bound(),
    ensures
        m.run(idle_ticks(ticks)).at_rest(),
        m.run(idle_ticks(ticks)).output() == 0,
{
    match m {
        FilterModel::Decay { decay, value } => {
            lemma_decay_idle_run(decay, value, ticks);
            lemma_idle_settles(value, decay, ticks);
        },
        FilterModel::Window { slots } => {
            let zeros = idle_ticks(ticks);
            lemma_window_holds_last_deltas(slots, zeros);
            assert(last_entries(zeros, slots.len()) =~= empty_window(slots.len()));
            lemma_zero_sum(slots.len());
        },
    }
}

/// A single burst gives a bounded response that does not oscillate: after one
/// delta into a filter at rest and any number of ticks without motion, the
/// output has the sign of the delta, is no larger than the delta itself, and
/// is no larger than it was one tick earlier.
pub proof fn lemma_burst_response(m: FilterModel, delta: int, ticks: nat)
    requires
        m.wf(),
        m.at_rest(),
        i32::MIN as int <= delta <= i32::MAX as int,
    ensures
        magnitude(m.advance(delta).run(idle_ticks(ticks)).output()) <= UNIT * magnitude(delta),
        magnitude(m.advance(delta).run(idle_ticks(ticks + 1)).output()) <= magnitude(
            m.advance(delta).run(idle_ticks(ticks)).output(),
        ),
        delta >= 0 ==> m.advance(delta).run(idle_ticks(ticks)).output() >= 0,
        delta <= 0 ==> m.advance(delta).run(idle_ticks(ticks)).output() <= 0,
{
    match m {
        FilterModel::Decay { decay, value } => {
            let hit = decay_step(0, decay, delta);
            assert(0int * decay == 0) by (nonlinear_arith);
            lemma_decay_idle_run(decay, hit, ticks);
            lemma_decay_idle_run(decay, hit, ticks + 1);
            lemma_idle_value_monotone(hit, decay, ticks);
        },
        FilterModel::Window { slots } => {
            let n = slots.len();
            let hit = window_step(slots, delta);
            lemma_burst_window(n, delta, ticks);
            lemma_burst_window(n, delta, ticks + 1);
            lemma_window_run(hit, idle_ticks(ticks));
            lemma_window_run(hit, idle_ticks(ticks + 1));
            assert(last_entries(hit + idle_ticks(ticks), n) =~= burst_window(n, delta, ticks));
            assert(last_entries(hit + idle_ticks(ticks + 1), n) =~= burst_window(
                n,
                delta,
                ticks + 1,
            ));
        },
    }
}

/// A window of `len` ticks that saw the single delta `delta` and then `age`
/// ticks without motion.
pub open spec fn burst_window(len: nat, delta: int, age: nat) -> Seq<int> {
    Seq::new(
        len,
        |i: int|
            if i + age + 1 == len {
                delta
            } else {
                0int
            },
    )
}

/// A window that saw a single delta sums to that delta while it is inside the
/// window and to zero afterwards.
pub proof fn lemma_burst_window(len: nat, delta: int, age: nat)
    ensures
        seq_sum(burst_window(len, delta, age)) == if age < len {
            delta
        } else {
            0
        },
    decreases len,
{
    if len > 0 {
        let w = burst_window(len, delta, age);
        if age == 0 {
            assert(w.drop_last() =~= empty_window((len - 1) as nat));
            lemma_zero_sum((len - 1) as nat);
        } else {
            assert(w.drop_last() =~= burst_window((len - 1) as nat, delta, (age - 1) as nat));
            lemma_burst_window((len - 1) as nat, delta, (age - 1) as nat);
        }
    }
}

/// No well-formed filter needs more than 42 halving periods of the slowest
/// decay, or more than the longest window, to come to rest.
pub proof fn lemma_settle_bound_limit(m: FilterModel)
    requires
        m.wf(),
    ensures
        m.settle_bound() <= 42_000,
{
    match m {
        FilterModel::Decay { decay, value } => {
            lemma2_to64_rest();
            lemma_settle_ticks_bound(magnitude(value) as nat, decay, 42);
        },
        FilterModel::Window { slots } => {},
    }
}

/// Negating every entry negates the sum.
pub proof fn lemma_negated_sum(s: Seq<int>)
    ensures
        seq_sum(negated(s)) == -seq_sum(s),
    decreases s.len(),
{
    if s.len() > 0 {
        lemma_negated_sum(s.drop_last());
        assert(negated(s).drop_last() =~= negated(s.drop_last()));
    }
}

/// The filters are symmetric: opposite motion gives the opposite filtered
/// value, tick by tick. Flipping the sign of an axis before the filter or
/// after it therefore comes to the same.
pub proof fn lemma_mirrored_run(m: FilterModel, deltas: Seq<int>)
    requires
        m.sized(),
    ensures
        m.run(deltas).sized(),
        m.mirrored().run(negated(deltas)) == m.run(deltas).mirrored(),
        m.mirrored().output() == -m.output(),
        m.mirrored().run(negated(deltas)).output() == -m.run(deltas).output(),
    decreases deltas.len(),
{
    lemma_mirrored_output(m);
    lemma_mirrored_output(m.run(deltas));
    if deltas.len() > 0 {
        let shorter = deltas.drop_last();
        let d = deltas.last();
        lemma_mirrored_run(m, shorter);
        assert(negated(deltas).drop_last() =~= negated(shorter));
        lemma_mirrored_advance(m.run(shorter), d);
    }
}

/// One tick of opposite motion on the mirrored filter gives the mirrored
/// result.
pub proof fn lemma_mirrored_advance(m: FilterModel, delta: int)
    requires
        m.sized(),
    ensures
        m.advance(delta).sized(),
        m.mirrored().advance(-delta) == m.advance(delta).mirrored(),
{
    match m {
        FilterModel::Decay { decay, value } => {
            assert((-value) * decay == -(value * decay)) by (nonlinear_arith);
            lemma_trunc_div_bounds(value * decay, 1000);
        },
        FilterModel::Window { slots } => {
            assert(window_step(negated(slots), -delta) =~= negated(window_step(slots, delta)));
        },
    }
}

/// The mirrored filter gives the opposite output.
pub proof fn lemma_mirrored_output(m: FilterModel)
    ensures
        m.mirrored().output() == -m.output(),
{
    match m {
        FilterModel::Decay { decay, value } => {},
        FilterModel::Window { slots } => {
            lemma_negated_sum(slots);
            assert(UNIT * (-seq_sum(slots)) == -(UNIT * seq_sum(slots))) by (nonlinear_arith);
        },
    }
}

/// Two windows of one length that were fed at least that many deltas, the
/// last of which agree, are the same, whatever they held before and whatever
/// older deltas they were fed.
pub proof fn lemma_window_forgets(
    first: Seq<int>,
    second: Seq<int>,
    first_deltas: Seq<int>,
    second_deltas: Seq<int>,
)
    requires
        1 <= first.len() == second.len(),
        first.len() <= first_deltas.len(),
        first.len() <= second_deltas.len(),
        last_entries(first_deltas, first.len()) == last_entries(second_deltas, first.len()),
    ensures
        window_model(first).run(first_deltas) == window_model(second).run(second_deltas),
{
    lemma_window_holds_last_deltas(first, first_deltas);
    lemma_window_holds_last_deltas(second, second_deltas);
}

} // verus!
