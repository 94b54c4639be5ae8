//! Sliding-window filter for one axis: the sum of the deltas of the last few
//! ticks, kept in a ring buffer beside a running sum.

use vstd::prelude::*;
use crate::fixed::UNIT;

verus! {

/// Largest window length the filter accepts, in ticks.
pub const MAX_WINDOW: usize = 1000;

/// Sum of a sequence of integers.
pub open spec fn seq_sum(s: Seq<int>) -> int
    decreases s.len(),
{
    if s.len() == 0 {
        0
    } else {
        seq_sum(s.drop_last()) + s.last()
    }
}

/// Number of entries of a sequence that are not zero.
pub open spec fn live_count(s: Seq<int>) -> nat
    decreases s.len(),
{
    if s.len() == 0 {
        0
    } else {
        live_count(s.drop_last()) + if s.last() != 0 {
            1nat
        } else {
            0nat
        }
    }
}

/// The window length that is used for a requested one.
pub open spec fn clamp_window(len: int) -> int {
    if len < 1 {
        1
    } else if len > MAX_WINDOW as int {
        MAX_WINDOW as int
    } else {
        len
    }
}

/// The window after one more tick: the oldest delta leaves, the newest enters.
pub open spec fn window_step(window: Seq<int>, delta: int) -> Seq<int> {
    window.drop_first().push(delta)
}

/// A window of `len` ticks in which nothing moved.
pub open spec fn empty_window(len: nat) -> Seq<int> {
    Seq::new(len, |i: int| 0int)
}

/// Sum and live count of a sequence with one more entry at the end.
pub proof fn lemma_push_totals(s: Seq<int>, v: int)
    ensures
        seq_sum(s.push(v)) == seq_sum(s) + v,
        live_count(s.push(v)) == live_count(s) + if v != 0 {
            1nat
        } else {
            0nat
        },
{
    assert(s.push(v).drop_last() =~= s);
}

/// Sum and live count of a sequence without its first entry.
pub proof fn lemma_drop_first_totals(s: Seq<int>)
    requires
        s.len() > 0,
    ensures
        seq_sum(s.drop_first()) == seq_sum(s) - s[0],
        live_count(s.drop_first()) == live_count(s) - if s[0] != 0 {
            1nat
        } else {
            0nat
        },
    decreases s.len(),
{
    if s.len() == 1 {
        assert(s.drop_first() =~= Seq::<int>::empty());
        assert(s.drop_last() =~= Seq::<int>::empty());
    } else {
        lemma_drop_first_totals(s.drop_last());
        assert(s.drop_first().drop_last() =~= s.drop_last().drop_first());
    }
}

/// The sum of bounded entries is bounded by their number, and the live count
/// by the length; a sequence has no live entry exactly when all are zero.
pub proof fn lemma_totals_bounds(s: Seq<int>)
    requires
        forall|i: int| 0 <= i < s.len() ==> i32::MIN as int <= #[trigger] s[i] <= i32::MAX as int,
    ensures
        -(s.len() * 0x8000_0000) <= seq_sum(s) <= s.len() * 0x8000_0000,
        live_count(s) <= s.len(),
        live_count(s) == 0 <==> s =~= empty_window(s.len()),
    decreases s.len(),
{
    if s.len() > 0 {
        let t = s.drop_last();
        lemma_totals_bounds(t);
        if live_count(s) == 0 {
            assert forall|i: int| 0 <= i < s.len() implies s[i] == 0 by {
                if i < t.len() {
                    assert(s[i] == t[i]);
                }
            }
        }
    }
}

/// A window in which nothing moved sums to zero.
pub proof fn lemma_zero_sum(len: nat)
    ensures
        seq_sum(empty_window(len)) == 0,
        live_count(empty_window(len)) == 0,
    decreases len,
{
    if len > 0 {
        lemma_zero_sum((len - 1) as nat);
        assert(empty_window(len).drop_last() =~= empty_window((len - 1) as nat));
    }
}

/// One axis of a sliding-window filter.
pub struct WindowFilter {
    slots: Vec<i32>,
    head: usize,
    sum: i64,
    live: usize,
}

impl WindowFilter {
    /// The deltas of the last ticks, oldest first. Its length is the window
    /// length.
    pub closed spec fn window(&self) -> Seq<int> {
        Seq::new(
            self.slots.len() as nat,
            |i: int|
                if self.head + i < self.slots.len() {
                    self.slots[self.head + i] as int
                } else {
                    self.slots[self.head + i - self.slots.len()] as int
                },
        )
    }

    /// The ring buffer, its cursor and the running totals agree.
    pub closed spec fn wf(&self) -> bool {
        &&& 1 <= self.slots.len() <= MAX_WINDOW
        &&& self.head < self.slots.len()
        &&& self.sum as int == seq_sum(self.window())
        &&& self.live as nat == live_count(self.window())
    }

    /// What a well-formed filter holds: a window of accepted length whose
    /// entries are deltas.
    pub proof fn lemma_window_shape(&self)
        requires
            self.wf(),
        ensures
            1 <= self.window().len() <= MAX_WINDOW,
            forall|i: int|
                0 <= i < self.window().len() ==> i32::MIN as int <= #[trigger] self.window()[i]
                    <= i32::MAX as int,
    {
    }

    /// A filter at rest. A length outside the accepted range is replaced by
    /// the nearest accepted one.
    pub fn new(len: usize) -> (f: WindowFilter)
        ensures
            f.wf(),
            f.window() == empty_window(clamp_window(len as int) as nat),
    {
        let n: usize = if len < 1 {
            1
        } else if len > MAX_WINDOW {
            MAX_WINDOW
        } else {
            len
        };
        let mut slots: Vec<i32> = Vec::new();
        let mut i: usize = 0;
        while i < n
            invariant
                i <= n,
                slots.len() == i,
                forall|j: int| 0 <= j < i ==> slots[j] == 0,
            decreases n - i,
        {
            slots.push(0);
            i = i + 1;
        }
        let f = WindowFilter { slots, head: 0, sum: 0, live: 0 };
        proof {
            lemma_totals_bounds(f.window());
            lemma_zero_sum(n as nat);
        }
        f
    }

    /// Advances the filter by one tick with that tick's delta and returns the
    /// new filtered value: the sum of the window in millionths of a count.
    pub fn advance(&mut self, delta: i32) -> (r: i64)
        requires
            old(self).wf(),
        ensures
            final(self).wf(),
            final(self).window() == window_step(old(self).window(), delta as int),
            r as int == UNIT * seq_sum(final(self).window()),
    {
        let n: usize = self.slots.len();
        let evicted: i32 = self.slots[self.head];
        let ghost before = self.window();
        proof {
            self.lemma_window_shape();
            lemma_totals_bounds(before);
            lemma_drop_first_totals(before);
            lemma_push_totals(before.drop_first(), delta as int);
        }
        self.slots[self.head] = delta;
        self.head = if self.head + 1 == n {
            0
        } else {
            self.head + 1
        };
        self.sum = self.sum - (evicted as i64) + (delta as i64);
        if evicted != 0 {
            self.live = self.live - 1;
        }
        if delta != 0 {
            self.live = self.live + 1;
        }
        proof {
            assert(self.window() =~= window_step(before, delta as int));
            self.lemma_window_shape();
            lemma_totals_bounds(self.window());
        }
        self.sum * UNIT
    }

    /// The current filtered value: the sum of the window in millionths of a
    /// count.
    pub fn current(&self) -> (r: i64)
        requires
            self.wf(),
        ensures
            r as int == UNIT * seq_sum(self.window()),
    {
        proof {
            self.lemma_window_shape();
            lemma_totals_bounds(self.window());
        }
        self.sum * UNIT
    }

    /// True when no tick of the window holds any motion.
    pub fn at_rest(&self) -> (r: bool)
        requires
            self.wf(),
        ensures
            r == (self.window() == empty_window(self.window().len())),
    {
        proof {
            self.lemma_window_shape();
            lemma_totals_bounds(self.window());
        }
        self.live == 0
    }

    /// Forgets all motion at once: every slot of the window becomes zero.
    pub fn reset(&mut self)
        requires
            old(self).wf(),
        ensures
            final(self).wf(),
            final(self).window() == empty_window(old(self).window().len()),
    {
        let n: usize = self.slots.len();
        let mut i: usize = 0;
        while i < n
            invariant
                i <= n,
                self.slots.len() == n,
                self.head == old(self).head,
                forall|j: int| 0 <= j < i ==> self.slots[j] == 0,
            decreases n - i,
        {
            self.slots[i] = 0;
            i = i + 1;
        }
        self.sum = 0;
        self.live = 0;
        proof {
            lemma_totals_bounds(self.window());
            lemma_zero_sum(n as nat);
        }
    }
}

} // verus!
