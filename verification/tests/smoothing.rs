use m2joy::decay::{DecayFilter, MAX_DECAY, MIN_DECAY, SNAP_THRESHOLD};
use m2joy::smoothing::{AxisFilter, Smoothing, SmoothingEngine, DEFAULT_WINDOW, EMA_DECAY};
use m2joy::window::{WindowFilter, MAX_WINDOW};

#[test]
fn leaky_integrator_decays_geometrically() {
    let mut f = DecayFilter::new(950);
    assert_eq!(f.advance(10), 10_000_000);
    assert_eq!(f.advance(0), 9_500_000);
    assert_eq!(f.advance(0), 9_025_000);
    assert_eq!(f.advance(0), 8_573_750);
    assert_eq!(f.advance(0), 8_145_062);
    assert_eq!(f.advance(0), 7_737_808);
    assert_eq!(f.current(), 7_737_808);
}

#[test]
fn leaky_integrator_is_symmetric() {
    let mut up = DecayFilter::new(950);
    let mut down = DecayFilter::new(950);
    let deltas = [10, 0, 3, 0, 0, -20, 0, 0, 0, 1];
    for d in deltas {
        let a = up.advance(d);
        let b = down.advance(-d);
        assert_eq!(a, -b);
    }
}

#[test]
fn new_delta_enters_at_full_weight() {
    let mut f = DecayFilter::new(950);
    f.advance(10);
    assert_eq!(f.advance(4), 13_500_000);
    assert_eq!(f.advance(-20), 12_825_000 - 20_000_000);
}

#[test]
fn residue_below_half_a_count_snaps_to_zero() {
    assert_eq!(SNAP_THRESHOLD, 500_000);
    let mut f = DecayFilter::new(500);
    assert_eq!(f.advance(1), 1_000_000);
    // exactly half a count is kept
    assert_eq!(f.advance(0), 500_000);
    // a quarter of a count is not
    assert_eq!(f.advance(0), 0);
    assert_eq!(f.advance(0), 0);
    let mut g = DecayFilter::new(500);
    assert_eq!(g.advance(-1), -1_000_000);
    assert_eq!(g.advance(0), -500_000);
    assert_eq!(g.advance(0), 0);
}

#[test]
fn decay_ratio_is_clamped() {
    assert_eq!((MIN_DECAY, MAX_DECAY), (500, 999));
    let mut low = DecayFilter::new(0);
    low.advance(10);
    assert_eq!(low.advance(0), 5_000_000);
    let mut high = DecayFilter::new(5_000);
    high.advance(10);
    assert_eq!(high.advance(0), 9_990_000);
    let mut edge_low = DecayFilter::new(500);
    edge_low.advance(10);
    assert_eq!(edge_low.advance(0), 5_000_000);
    let mut edge_high = DecayFilter::new(999);
    edge_high.advance(10);
    assert_eq!(edge_high.advance(0), 9_990_000);
}

#[test]
fn idle_decay_reaches_zero_and_stays_there() {
    let mut f = DecayFilter::new(950);
    f.advance(10);
    let mut ticks = 0;
    while f.current() != 0 {
        f.advance(0);
        ticks += 1;
        assert!(ticks <= 200);
    }
    assert_eq!(ticks, 59);
    for _ in 0..1000 {
        assert_eq!(f.advance(0), 0);
    }
}

#[test]
fn idle_decay_of_a_large_burst_stays_within_ten_halving_periods() {
    let mut f = DecayFilter::new(950);
    f.advance(511);
    let mut ticks = 0;
    while f.current() != 0 {
        f.advance(0);
        ticks += 1;
    }
    assert_eq!(ticks, 136);
    assert!(ticks <= 200);
}

#[test]
fn idle_response_never_grows_or_changes_sign() {
    for delta in [1, 7, 1000, i32::MAX, -1, -7, -1000, i32::MIN] {
        let mut f = DecayFilter::new(990);
        let mut last = f.advance(delta);
        assert_eq!(last, delta as i64 * 1_000_000);
        for _ in 0..3000 {
            let now = f.advance(0);
            assert!(now.abs() <= last.abs());
            assert!(now == 0 || (now > 0) == (delta > 0));
            last = now;
        }
        assert_eq!(last, 0);
    }
}

#[test]
fn slowest_decay_under_full_scale_input_stays_in_range() {
    let mut f = DecayFilter::new(999);
    let mut v = 0;
    for _ in 0..20_000 {
        v = f.advance(i32::MIN);
    }
    assert!(v >= -2_147_483_648_000_000_000);
    assert!(v < -2_147_483_000_000_000_000);
    let mut ticks = 0;
    while f.current() != 0 {
        f.advance(0);
        ticks += 1;
    }
    assert!(ticks <= 42_000);
}

#[test]
fn decay_reset_forgets_the_value() {
    let mut f = DecayFilter::new(950);
    f.advance(100);
    f.reset();
    assert_eq!(f.current(), 0);
    assert_eq!(f.advance(0), 0);
    assert_eq!(f.advance(10), 10_000_000);
    assert_eq!(f.advance(0), 9_500_000);
}

#[test]
fn window_sums_the_last_ticks() {
    let mut f = WindowFilter::new(4);
    assert_eq!(f.advance(1), 1_000_000);
    assert_eq!(f.advance(2), 3_000_000);
    assert_eq!(f.advance(3), 6_000_000);
    assert_eq!(f.advance(4), 10_000_000);
    // the fifth tick evicts the first delta
    assert_eq!(f.advance(5), 14_000_000);
    assert_eq!(f.advance(-6), 6_000_000);
    assert_eq!(f.current(), 6_000_000);
}

#[test]
fn window_output_ignores_what_came_before_the_window() {
    let mut a = WindowFilter::new(3);
    let mut b = WindowFilter::new(3);
    for d in [1000, -5, 77, 12] {
        a.advance(d);
    }
    for d in [-3, 9] {
        b.advance(d);
    }
    let mut out = (0, 0);
    for d in [4, 5, 6] {
        out = (a.advance(d), b.advance(d));
    }
    assert_eq!(out, (15_000_000, 15_000_000));
}

#[test]
fn window_drains_in_exactly_its_length() {
    let mut f = WindowFilter::new(4);
    for d in [1, 2, 3, 4] {
        f.advance(d);
    }
    assert!(!f.at_rest());
    assert_eq!(f.advance(0), 9_000_000);
    assert_eq!(f.advance(0), 7_000_000);
    assert_eq!(f.advance(0), 4_000_000);
    assert!(!f.at_rest());
    assert_eq!(f.advance(0), 0);
    assert!(f.at_rest());
    assert_eq!(f.advance(0), 0);
    assert!(f.at_rest());
}

#[test]
fn window_with_zero_sum_is_not_at_rest() {
    let mut f = WindowFilter::new(4);
    f.advance(5);
    assert_eq!(f.advance(-5), 0);
    assert!(!f.at_rest());
    assert_eq!(f.advance(0), 0);
    assert_eq!(f.advance(0), 0);
    assert_eq!(f.advance(0), -5_000_000);
    assert_eq!(f.advance(0), 0);
    assert!(f.at_rest());
}

#[test]
fn window_reset_clears_every_slot() {
    let mut f = WindowFilter::new(4);
    f.advance(5);
    f.advance(-5);
    f.advance(9);
    f.reset();
    assert!(f.at_rest());
    assert_eq!(f.current(), 0);
    for _ in 0..8 {
        assert_eq!(f.advance(0), 0);
    }
    assert_eq!(f.advance(2), 2_000_000);
}

#[test]
fn window_length_is_clamped() {
    assert_eq!(MAX_WINDOW, 1000);
    let mut shortest = WindowFilter::new(0);
    assert_eq!(shortest.advance(7), 7_000_000);
    assert_eq!(shortest.advance(3), 3_000_000);
    assert_eq!(shortest.advance(0), 0);
    assert!(shortest.at_rest());

    let mut longest = WindowFilter::new(usize::MAX);
    let mut out = 0;
    for _ in 0..1000 {
        out = longest.advance(1);
    }
    assert_eq!(out, 1_000_000_000);
    assert_eq!(longest.advance(1), 1_000_000_000);
    assert_eq!(longest.advance(0), 999_000_000);
}

#[test]
fn window_holds_full_scale_deltas() {
    let mut f = WindowFilter::new(1000);
    let mut out = 0;
    for _ in 0..1000 {
        out = f.advance(i32::MIN);
    }
    assert_eq!(out, -2_147_483_648_000_000_000);
    let mut g = WindowFilter::new(1000);
    for _ in 0..1500 {
        out = g.advance(i32::MAX);
    }
    assert_eq!(out, 2_147_483_647_000_000_000);
}

#[test]
fn strategies_start_at_rest() {
    for s in [
        Smoothing::LeakyIntegrator { decay_permille: 950 },
        Smoothing::Ema,
        Smoothing::SlidingWindow { ticks: DEFAULT_WINDOW },
    ] {
        let f = AxisFilter::new(s);
        assert!(f.at_rest());
        assert_eq!(f.current(), 0);
        let e = SmoothingEngine::new(s);
        assert!(e.at_rest());
        assert_eq!(e.current(), (0, 0));
    }
}

#[test]
fn ema_uses_its_fixed_ratio() {
    assert_eq!(EMA_DECAY, 960);
    let mut f = AxisFilter::new(Smoothing::Ema);
    assert_eq!(f.advance(10), 10_000_000);
    assert_eq!(f.advance(0), 9_600_000);
    assert_eq!(f.advance(0), 9_216_000);
    assert_eq!(f.advance(0), 8_847_360);
}

#[test]
fn axis_filter_follows_its_strategy() {
    let mut leaky = AxisFilter::new(Smoothing::LeakyIntegrator { decay_permille: 900 });
    assert_eq!(leaky.advance(10), 10_000_000);
    assert_eq!(leaky.advance(0), 9_000_000);
    let mut window = AxisFilter::new(Smoothing::SlidingWindow { ticks: 2 });
    assert_eq!(window.advance(10), 10_000_000);
    assert_eq!(window.advance(0), 10_000_000);
    assert_eq!(window.advance(0), 0);
    assert!(window.at_rest());
    assert!(!leaky.at_rest());
    leaky.reset();
    assert!(leaky.at_rest());
    assert_eq!(leaky.current(), 0);
}

#[test]
fn engine_filters_both_axes_independently() {
    let mut e = SmoothingEngine::new(Smoothing::LeakyIntegrator { decay_permille: 950 });
    assert_eq!(e.advance(10, -4), (10_000_000, -4_000_000));
    assert_eq!(e.advance(0, 0), (9_500_000, -3_800_000));
    assert_eq!(e.advance(0, 2), (9_025_000, -3_610_000 + 2_000_000));
    assert_eq!(e.current(), (9_025_000, -1_610_000));
    assert!(!e.at_rest());
    e.reset();
    assert!(e.at_rest());
    assert_eq!(e.current(), (0, 0));
}

#[test]
fn engine_is_at_rest_only_when_both_axes_are() {
    let mut e = SmoothingEngine::new(Smoothing::SlidingWindow { ticks: 3 });
    e.advance(0, 1);
    assert!(!e.at_rest());
    e.advance(0, 0);
    e.advance(0, 0);
    assert!(!e.at_rest());
    assert_eq!(e.advance(0, 0), (0, 0));
    assert!(e.at_rest());
}

#[test]
fn every_strategy_comes_to_rest_without_input() {
    for s in [
        Smoothing::LeakyIntegrator { decay_permille: 999 },
        Smoothing::LeakyIntegrator { decay_permille: 500 },
        Smoothing::Ema,
        Smoothing::SlidingWindow { ticks: 1000 },
        Smoothing::SlidingWindow { ticks: 1 },
    ] {
        let mut e = SmoothingEngine::new(s);
        e.advance(i32::MAX, i32::MIN);
        let mut ticks = 0;
        while !e.at_rest() {
            e.advance(0, 0);
            ticks += 1;
            assert!(ticks <= 42_000);
        }
        assert_eq!(e.current(), (0, 0));
        for _ in 0..100 {
            assert_eq!(e.advance(0, 0), (0, 0));
        }
    }
}
