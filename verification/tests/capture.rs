use m2joy::mouse::{
    CaptureAction, CaptureState, MouseReader, MouseState, RawEvent, ReadRecovery, EV_RELATIVE,
    READ_BACKOFF_MILLIS, REL_X, REL_Y,
};

fn rel(code: u16, value: i32) -> RawEvent {
    RawEvent { event_type: EV_RELATIVE, code, value }
}

#[test]
fn reader_starts_idle() {
    let reader = MouseReader::new();
    assert_eq!(reader.state(), CaptureState::Idle);
}

#[test]
fn nothing_pending_means_read() {
    let mut reader = MouseReader::new();
    let mut shared = MouseState::new();
    assert_eq!(reader.begin_iteration(&mut shared, false), CaptureAction::Read);
    assert_eq!(reader.state(), CaptureState::Idle);
    assert!(!shared.active);
}

#[test]
fn toggle_grabs_and_publishes_active() {
    let mut reader = MouseReader::new();
    let mut shared = MouseState::new();
    assert_eq!(reader.begin_iteration(&mut shared, true), CaptureAction::Grab);
    assert_eq!(reader.state(), CaptureState::Active);
    assert!(shared.active);
    assert_eq!(reader.begin_iteration(&mut shared, false), CaptureAction::Read);
    assert_eq!(reader.state(), CaptureState::Active);
    assert!(shared.active);
}

#[test]
fn double_toggle_is_a_no_op() {
    let mut reader = MouseReader::new();
    let mut shared = MouseState::new();
    shared.accumulate(3, 4);
    let first = reader.begin_iteration(&mut shared, true);
    let second = reader.begin_iteration(&mut shared, true);
    assert_eq!(first, CaptureAction::Grab);
    assert_eq!(second, CaptureAction::Ungrab);
    assert_eq!(reader.state(), CaptureState::Idle);
    assert!(!shared.active);
    assert!(!shared.quit);
    assert_eq!((shared.dx, shared.dy), (3, 4));
}

#[test]
fn double_toggle_from_active_returns_to_active() {
    let mut reader = MouseReader::new();
    let mut shared = MouseState::new();
    reader.begin_iteration(&mut shared, true);
    assert_eq!(reader.begin_iteration(&mut shared, true), CaptureAction::Ungrab);
    assert_eq!(reader.begin_iteration(&mut shared, true), CaptureAction::Grab);
    assert_eq!(reader.state(), CaptureState::Active);
    assert!(shared.active);
}

#[test]
fn quit_ends_the_loop_from_any_state() {
    let mut idle = MouseReader::new();
    let mut shared = MouseState::new();
    shared.quit = true;
    assert_eq!(idle.begin_iteration(&mut shared, false), CaptureAction::Exit);
    assert_eq!(idle.state(), CaptureState::Terminating);

    let mut active = MouseReader::new();
    let mut shared = MouseState::new();
    active.begin_iteration(&mut shared, true);
    shared.quit = true;
    assert_eq!(active.begin_iteration(&mut shared, true), CaptureAction::Exit);
    assert_eq!(active.state(), CaptureState::Terminating);
    assert!(shared.quit);
}

#[test]
fn terminating_is_final() {
    let mut reader = MouseReader::new();
    let mut shared = MouseState::new();
    shared.quit = true;
    reader.begin_iteration(&mut shared, false);
    shared.quit = false;
    assert_eq!(reader.begin_iteration(&mut shared, true), CaptureAction::Exit);
    assert_eq!(reader.state(), CaptureState::Terminating);
    assert!(!shared.active);
}

#[test]
fn motion_while_active_reaches_the_channel() {
    let mut reader = MouseReader::new();
    let mut shared = MouseState::new();
    reader.begin_iteration(&mut shared, true);
    reader.on_events(&mut shared, &[rel(REL_X, 5), rel(REL_Y, -3), rel(REL_X, 2), rel(REL_Y, -1)]);
    assert_eq!((shared.dx, shared.dy), (7, -4));
    reader.on_events(&mut shared, &[rel(REL_X, -7)]);
    assert_eq!(shared.drain(), (0, -4));
}

#[test]
fn motion_while_idle_is_discarded() {
    let reader = MouseReader::new();
    let mut shared = MouseState::new();
    reader.on_events(&mut shared, &[rel(REL_X, 5), rel(REL_Y, -3)]);
    assert_eq!((shared.dx, shared.dy), (0, 0));
}

#[test]
fn motion_after_release_is_discarded() {
    let mut reader = MouseReader::new();
    let mut shared = MouseState::new();
    reader.begin_iteration(&mut shared, true);
    reader.on_events(&mut shared, &[rel(REL_X, 1)]);
    reader.begin_iteration(&mut shared, true);
    reader.on_events(&mut shared, &[rel(REL_X, 100), rel(REL_Y, 100)]);
    assert_eq!((shared.dx, shared.dy), (1, 0));
}

#[test]
fn only_horizontal_and_vertical_relative_motion_counts() {
    let mut reader = MouseReader::new();
    let mut shared = MouseState::new();
    reader.begin_iteration(&mut shared, true);
    let batch = [
        // a key press whose code equals the horizontal axis code
        RawEvent { event_type: 1, code: 0, value: 1 },
        // absolute axes with the codes of the two relative axes
        RawEvent { event_type: 3, code: 0, value: 500 },
        RawEvent { event_type: 3, code: 1, value: 500 },
        // the scroll wheel and the horizontal wheel
        rel(8, 1),
        rel(6, -1),
        // a synchronization marker
        RawEvent { event_type: 0, code: 0, value: 0 },
        // a miscellaneous scan code
        RawEvent { event_type: 4, code: 4, value: 90001 },
        rel(REL_X, 11),
        rel(REL_Y, 13),
    ];
    reader.on_events(&mut shared, &batch);
    assert_eq!((shared.dx, shared.dy), (11, 13));
}

#[test]
fn empty_batch_changes_nothing() {
    let mut reader = MouseReader::new();
    let mut shared = MouseState::new();
    reader.begin_iteration(&mut shared, true);
    shared.accumulate(9, 9);
    reader.on_events(&mut shared, &[]);
    assert_eq!((shared.dx, shared.dy), (9, 9));
    assert!(shared.active);
}

#[test]
fn routed_motion_wraps_like_the_channel() {
    let mut reader = MouseReader::new();
    let mut shared = MouseState::new();
    reader.begin_iteration(&mut shared, true);
    reader.on_events(&mut shared, &[rel(REL_X, i32::MAX), rel(REL_X, 1)]);
    assert_eq!(shared.dx, i32::MIN);
}

#[test]
fn interrupted_read_is_retried_silently() {
    let mut reader = MouseReader::new();
    let shared = MouseState::new();
    assert_eq!(reader.on_read_error(&shared, true), ReadRecovery::Retry);
    assert_eq!(reader.state(), CaptureState::Idle);
}

#[test]
fn failed_read_backs_off_for_ten_milliseconds() {
    let mut reader = MouseReader::new();
    let shared = MouseState::new();
    assert_eq!(READ_BACKOFF_MILLIS, 10);
    assert_eq!(reader.on_read_error(&shared, false), ReadRecovery::Backoff { millis: 10 });
    assert_eq!(reader.state(), CaptureState::Idle);
}

#[test]
fn failed_read_after_quit_exits() {
    let mut reader = MouseReader::new();
    let mut shared = MouseState::new();
    shared.quit = true;
    assert_eq!(reader.on_read_error(&shared, true), ReadRecovery::Exit);
    assert_eq!(reader.state(), CaptureState::Terminating);
    let mut reader = MouseReader::new();
    assert_eq!(reader.on_read_error(&shared, false), ReadRecovery::Exit);
}
