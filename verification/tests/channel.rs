use m2joy::mouse::MouseState;

#[test]
fn new_channel_is_empty_with_flags_clear() {
    let s = MouseState::new();
    assert_eq!((s.dx, s.dy), (0, 0));
    assert!(!s.active);
    assert!(!s.quit);
}

#[test]
fn drain_returns_vector_sum_then_zero() {
    let mut s = MouseState::new();
    s.accumulate(3, -1);
    s.accumulate(-7, 4);
    s.accumulate(10, 10);
    assert_eq!(s.drain(), (6, 13));
    assert_eq!((s.dx, s.dy), (0, 0));
    assert_eq!(s.drain(), (0, 0));
}

#[test]
fn drain_of_untouched_channel_is_zero() {
    let mut s = MouseState::new();
    assert_eq!(s.drain(), (0, 0));
    assert_eq!(s.drain(), (0, 0));
}

#[test]
fn accumulation_order_does_not_matter() {
    let deltas = [(5, 1), (-2, 8), (100, -50), (0, 0), (-33, 7)];
    let mut forward = MouseState::new();
    for d in deltas.iter() {
        forward.accumulate(d.0, d.1);
    }
    let mut backward = MouseState::new();
    for d in deltas.iter().rev() {
        backward.accumulate(d.0, d.1);
    }
    let mut shuffled = MouseState::new();
    for i in [2usize, 0, 4, 1, 3] {
        shuffled.accumulate(deltas[i].0, deltas[i].1);
    }
    let expected = (70, -34);
    assert_eq!(forward.drain(), expected);
    assert_eq!(backward.drain(), expected);
    assert_eq!(shuffled.drain(), expected);
}

#[test]
fn accumulate_between_drains_is_counted_once() {
    let mut s = MouseState::new();
    s.accumulate(4, 4);
    assert_eq!(s.drain(), (4, 4));
    s.accumulate(1, 2);
    assert_eq!(s.drain(), (1, 2));
    assert_eq!(s.drain(), (0, 0));
}

#[test]
fn totals_beyond_32_bits_wrap() {
    let mut s = MouseState::new();
    s.accumulate(i32::MAX, i32::MIN);
    s.accumulate(1, -1);
    assert_eq!(s.drain(), (i32::MIN, i32::MAX));
}

#[test]
fn wrapped_partial_sums_still_give_the_exact_total() {
    let mut s = MouseState::new();
    s.accumulate(i32::MAX, 0);
    s.accumulate(10, 0);
    s.accumulate(-20, 0);
    assert_eq!(s.drain(), (i32::MAX - 10, 0));
}

#[test]
fn accumulate_and_drain_leave_the_flags_alone() {
    let mut s = MouseState::new();
    s.active = true;
    s.quit = true;
    s.accumulate(1, 1);
    assert!(s.active && s.quit);
    s.drain();
    assert!(s.active && s.quit);
}
