//! The smoothing engine: one temporal filter per axis, chosen from three
//! interchangeable strategies, that turns the bursty per-tick deltas into a
//! stable two-dimensional value.

use vstd::prelude::*;
use crate::decay::{
    clamp_decay, decay_step, lemma_decay_step_in_range, settle_ticks, settled_value, DecayFilter,
    MAX_DECAY, MIN_DECAY,
};
use crate::fixed::{magnitude, UNIT};
use crate::window::{
    clamp_window, empty_window, lemma_zero_sum, seq_sum, window_step, WindowFilter, MAX_WINDOW,
};

verus! {

/// Decay ratio of the exponential moving average, in permille per tick. Its
/// half-life of about 17 ticks covers one frame of a consumer that polls at
/// 60 Hz.
pub const EMA_DECAY: u32 = 960;

/// Window length used when none is configured: twice the 8 ms report
/// interval of a common mouse.
pub const DEFAULT_WINDOW: usize = 16;

/// The filter strategy, as chosen by configuration.
#[derive(Clone, Copy, Debug)]
pub enum Smoothing {
    /// Geometric decay with a configurable ratio in permille per tick.
    LeakyIntegrator { decay_permille: u32 },
    /// Geometric decay with the fixed ratio `EMA_DECAY`.
    Ema,
    /// Unweighted sum of the deltas of the last `ticks` ticks.
    SlidingWindow { ticks: usize },
}

/// What a filter for one axis remembers.
pub enum FilterModel {
    /// A decaying value in millionths of a count, with its ratio in permille.
    Decay { decay: int, value: int },
    /// The deltas of the last ticks, oldest first.
    Window { slots: Seq<int> },
}

/// The decaying filter with the given ratio and value.
pub open spec fn decay_model(decay: int, value: int) -> FilterModel {
    FilterModel::Decay { decay, value }
}

/// The sliding-window filter that holds the given deltas, oldest first.
pub open spec fn window_model(slots: Seq<int>) -> FilterModel {
    FilterModel::Window { slots }
}

/// The last `n` entries of a sequence that has at least that many.
pub open spec fn last_entries(s: Seq<int>, n: nat) -> Seq<int> {
    s.subrange(s.len() - n, s.len() as int)
}

/// The same deltas in the opposite direction.
pub open spec fn negated(s: Seq<int>) -> Seq<int> {
    Seq::new(s.len(), |i: int| -s[i])
}

/// A run of `ticks` ticks without motion.
pub open spec fn idle_ticks(ticks: nat) -> Seq<int> {
    Seq::new(ticks, |i: int| 0int)
}

impl FilterModel {
    /// The parameters lie in their accepted ranges and the memory holds what
    /// deltas can produce.
    pub open spec fn wf(self) -> bool {
        match self {
            FilterModel::Decay { decay, value } => {
                &&& MIN_DECAY as int <= decay <= MAX_DECAY as int
                &&& settled_value(value)
            },
            FilterModel::Window { slots } => {
                &&& 1 <= slots.len() <= MAX_WINDOW
                &&& forall|i: int|
                    0 <= i < slots.len() ==> i32::MIN as int <= #[trigger] slots[i] <= i32::MAX as int
            },
        }
    }

    /// The filter at rest that a strategy starts from, with its parameters
    /// clamped to their accepted ranges.
    pub open spec fn initial(smoothing: Smoothing) -> FilterModel {
        match smoothing {
            Smoothing::LeakyIntegrator { decay_permille } => FilterModel::Decay {
                decay: clamp_decay(decay_permille as int),
                value: 0,
            },
            Smoothing::Ema => FilterModel::Decay { decay: EMA_DECAY as int, value: 0 },
            Smoothing::SlidingWindow { ticks } => FilterModel::Window {
                slots: empty_window(clamp_window(ticks as int) as nat),
            },
        }
    }

    /// The filter after one tick with that tick's delta.
    pub open spec fn advance(self, delta: int) -> FilterModel {
        match self {
            FilterModel::Decay { decay, value } => FilterModel::Decay {
                decay,
                value: decay_step(value, decay, delta),
            },
            FilterModel::Window { slots } => FilterModel::Window { slots: window_step(slots, delta) },
        }
    }

    /// The filtered value in millionths of a count.
    pub open spec fn output(self) -> int {
        match self {
            FilterModel::Decay { decay, value } => value,
            FilterModel::Window { slots } => UNIT * seq_sum(slots),
        }
    }

    /// The filter after one tick for each delta of `deltas`, in order.
    pub open spec fn run(self, deltas: Seq<int>) -> FilterModel
        decreases deltas.len(),
    {
        if deltas.len() == 0 {
            self
        } else {
            self.run(deltas.drop_last()).advance(deltas.last())
        }
    }

    /// The same filter with all motion forgotten.
    pub open spec fn cleared(self) -> FilterModel {
        match self {
            FilterModel::Decay { decay, value } => FilterModel::Decay { decay, value: 0 },
            FilterModel::Window { slots } => FilterModel::Window { slots: empty_window(slots.len()) },
        }
    }

    /// True when the filter remembers no motion at all.
    pub open spec fn at_rest(self) -> bool {
        self == self.cleared()
    }

    /// A window filter spans at least one tick.
    pub open spec fn sized(self) -> bool {
        match self {
            FilterModel::Decay { decay, value } => true,
            FilterModel::Window { slots } => slots.len() >= 1,
        }
    }

    /// The filter that has seen the same motion in the opposite direction.
    pub open spec fn mirrored(self) -> FilterModel {
        match self {
            FilterModel::Decay { decay, value } => FilterModel::Decay { decay, value: -value },
            FilterModel::Window { slots } => FilterModel::Window { slots: negated(slots) },
        }
    }

    /// Number of ticks without motion after which the filter is at rest.
    pub open spec fn settle_bound(self) -> nat {
        match self {
            FilterModel::Decay { decay, value } => settle_ticks(magnitude(value) as nat, decay),
            FilterModel::Window { slots } => slots.len(),
        }
    }
}

/// Deltas keep a well-formed filter well formed.
pub proof fn lemma_advance_wf(m: FilterModel, delta: int)
    requires
        m.wf(),
        i32::MIN as int <= delta <= i32::MAX as int,
    ensures
        m.advance(delta).wf(),
{
    match m {
        FilterModel::Decay { decay, value } => {
            lemma_decay_step_in_range(value, decay, delta);
        },
        FilterModel::Window { slots } => {
            let next = window_step(slots, delta);
            assert forall|i: int| 0 <= i < next.len() implies i32::MIN as int <= #[trigger] next[i]
                <= i32::MAX as int by {}
        },
    }
}

/// The filter of one axis.
pub enum AxisFilter {
    /// Leaky integrator or exponential moving average.
    Decay(DecayFilter),
    /// Sliding window.
    Window(WindowFilter),
}

impl View for AxisFilter {
    type V = FilterModel;

    open spec fn view(&self) -> FilterModel {
        match self {
            AxisFilter::Decay(f) => decay_model(f.decay(), f.value()),
            AxisFilter::Window(f) => window_model(f.window()),
        }
    }
}

impl AxisFilter {
    /// The filter inside is well formed.
    pub open spec fn wf(&self) -> bool {
        match self {
            AxisFilter::Decay(f) => f.wf(),
            AxisFilter::Window(f) => f.wf(),
        }
    }

    /// A well-formed filter remembers what a well-formed model does.
    pub proof fn lemma_view_wf(&self)
        requires
            self.wf(),
        ensures
            self@.wf(),
    {
        match self {
            AxisFilter::Decay(f) => {},
            AxisFilter::Window(f) => {
                f.lemma_window_shape();
            },
        }
    }

    /// The filter at rest for a strategy, with its parameters clamped to
    /// their accepted ranges.
    pub fn new(smoothing: Smoothing) -> (f: AxisFilter)
        ensures
            f.wf(),
            f@ == FilterModel::initial(smoothing),
    {
        match smoothing {
            Smoothing::LeakyIntegrator { decay_permille } => AxisFilter::Decay(
                DecayFilter::new(decay_permille),
            ),
            Smoothing::Ema => AxisFilter::Decay(DecayFilter::new(EMA_DECAY)),
            Smoothing::SlidingWindow { ticks } => AxisFilter::Window(WindowFilter::new(ticks)),
        }
    }

    /// Advances the filter by one tick with that tick's delta and returns the
    /// new filtered value in millionths of a count.
    pub fn advance(&mut self, delta: i32) -> (r: i64)
        requires
            old(self).wf(),
        ensures
            final(self).wf(),
            final(self)@ == old(self)@.advance(delta as int),
            r as int == final(self)@.output(),
    {
        match self {
            AxisFilter::Decay(f) => f.advance(delta),
            AxisFilter::Window(f) => f.advance(delta),
        }
    }

    /// The current filtered value in millionths of a count.
    pub fn current(&self) -> (r: i64)
        requires
            self.wf(),
        ensures
            r as int == self@.output(),
    {
        match self {
            AxisFilter::Decay(f) => f.current(),
            AxisFilter::Window(f) => f.current(),
        }
    }

    /// True when the filter remembers no motion at all.
    pub fn at_rest(&self) -> (r: bool)
        requires
            self.wf(),
        ensures
            r == self@.at_rest(),
    {
        match self {
            AxisFilter::Decay(f) => f.current() == 0,
            AxisFilter::Window(f) => f.at_rest(),
        }
    }

    /// Forgets all motion at once.
    pub fn reset(&mut self)
        requires
            old(self).wf(),
        ensures
            final(self).wf(),
            final(self)@ == old(self)@.cleared(),
    {
        match self {
            AxisFilter::Decay(f) => f.reset(),
            AxisFilter::Window(f) => f.reset(),
        }
    }
}

/// The smoothing engine: one filter per axis, both of the same strategy.
pub struct SmoothingEngine {
    x: AxisFilter,
    y: AxisFilter,
}

impl SmoothingEngine {
    /// What the horizontal filter remembers.
    pub closed spec fn horizontal(&self) -> FilterModel {
        self.x@
    }

    /// What the vertical filter remembers.
    pub closed spec fn vertical(&self) -> FilterModel {
        self.y@
    }

    /// Both filters are well formed.
    pub closed spec fn wf(&self) -> bool {
        self.x.wf() && self.y.wf()
    }

    /// The filtered pair in millionths of a count.
    pub open spec fn output(&self) -> (int, int) {
        (self.horizontal().output(), self.vertical().output())
    }

    /// True when neither axis remembers any motion.
    pub open spec fn resting(&self) -> bool {
        self.horizontal().at_rest() && self.vertical().at_rest()
    }

    /// A well-formed engine remembers what well-formed models do.
    pub proof fn lemma_models_wf(&self)
        requires
            self.wf(),
        ensures
            self.horizontal().wf(),
            self.vertical().wf(),
    {
        self.x.lemma_view_wf();
        self.y.lemma_view_wf();
    }

    /// An engine at rest for a strategy, with its parameters clamped to their
    /// accepted ranges.
    pub fn new(smoothing: Smoothing) -> (e: SmoothingEngine)
        ensures
            e.wf(),
            e.horizontal() == FilterModel::initial(smoothing),
            e.vertical() == FilterModel::initial(smoothing),
    {
        SmoothingEngine { x: AxisFilter::new(smoothing), y: AxisFilter::new(smoothing) }
    }

    /// Advances both filters by one tick with that tick's drained delta and
    /// returns the filtered pair in millionths of a count.
    pub fn advance(&mut self, dx: i32, dy: i32) -> (r: (i64, i64))
        requires
            old(self).wf(),
        ensures
            final(self).wf(),
            final(self).horizontal() == old(self).horizontal().advance(dx as int),
            final(self).vertical() == old(self).vertical().advance(dy as int),
            (r.0 as int, r.1 as int) == final(self).output(),
    {
        let fx = self.x.advance(dx);
        let fy = self.y.advance(dy);
        (fx, fy)
    }

    /// The current filtered pair in millionths of a count.
    pub fn current(&self) -> (r: (i64, i64))
        requires
            self.wf(),
        ensures
            (r.0 as int, r.1 as int) == self.output(),
    {
        (self.x.current(), self.y.current())
    }

    /// True when neither axis remembers any motion.
    pub fn at_rest(&self) -> (r: bool)
        requires
            self.wf(),
        ensures
            r == self.resting(),
    {
        self.x.at_rest() && self.y.at_rest()
    }

    /// Forgets all motion on both axes at once.
    pub fn reset(&mut self)
        requires
            old(self).wf(),
        ensures
            final(self).wf(),
            final(self).horizontal() == old(self).horizontal().cleared(),
            final(self).vertical() == old(self).vertical().cleared(),
            final(self).resting(),
    {
        self.x.reset();
        self.y.reset();
        proof {
            lemma_cleared_rests(old(self).horizontal());
            lemma_cleared_rests(old(self).vertical());
        }
    }
}

/// A cleared filter is at rest and gives an output of zero.
pub proof fn lemma_cleared_rests(m: FilterModel)
    ensures
        m.cleared().at_rest(),
        m.cleared().output() == 0,
        m.wf() ==> m.cleared().wf(),
        m.at_rest() ==> m.output() == 0,
{
    match m {
        FilterModel::Decay { decay, value } => {},
        FilterModel::Window { slots } => {
            lemma_zero_sum(slots.len());
        },
    }
}

} // verus!
