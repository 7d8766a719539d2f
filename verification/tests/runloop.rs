use glyph8::fps::FpsSample;
use glyph8::input::PollOutcome;
use glyph8::terminal::{frame_action, pace_frame, FrameAction, Pacing, FRAME_NANOS, MIN_COLS, MIN_ROWS};
use glyph8::{check_terminal_size, FpsMeter};

/// Frames per second for a sample, as the frontend computes it.
fn rate(s: FpsSample) -> f32 {
    if s.intervals == 0 {
        0.0
    } else {
        s.intervals as f32 / (s.span_nanos as f64 / 1e9) as f32
    }
}

#[test]
fn accepts_minimum_required_size() {
    assert!(check_terminal_size(MIN_COLS, MIN_ROWS).is_ok());
}

#[test]
fn accepts_larger_size() {
    assert!(check_terminal_size(400, 200).is_ok());
}

#[test]
fn rejects_too_few_columns() {
    let err = check_terminal_size(MIN_COLS - 1, MIN_ROWS).unwrap_err();
    assert!(err.message().contains("terminal too small"));
}

#[test]
fn rejects_too_few_rows() {
    let err = check_terminal_size(MIN_COLS, MIN_ROWS - 1).unwrap_err();
    assert!(err.message().contains("terminal too small"));
}

#[test]
fn error_includes_actual_and_required_dimensions() {
    let err = check_terminal_size(80, 24).unwrap_err().message();
    assert!(err.contains("80"), "actual cols not in error: {}", err);
    assert!(err.contains("24"), "actual rows not in error: {}", err);
    assert!(err.contains("256"), "required cols not in error: {}", err);
    assert!(err.contains("121"), "required rows not in error: {}", err);
}

#[test]
fn error_message_text() {
    let err = check_terminal_size(0, 65535).unwrap_err();
    assert_eq!(err.cols, 0);
    assert_eq!(err.rows, 65535);
    assert_eq!(
        err.message(),
        "terminal too small: 0×65535 cells, need at least 256×121.\n\
         Resize your terminal (or shrink the font), \
         or use --headless --frames=N for non-interactive testing.\n\
         (Adaptive smaller-terminal modes — braille / ASCII — land in Stage 1.E.)"
    );
}

#[test]
fn frame_actions() {
    assert_eq!(frame_action(Some(PollOutcome::Quit)), FrameAction::Quit);
    assert_eq!(frame_action(Some(PollOutcome::Reset)), FrameAction::ResetThenStep);
    assert_eq!(frame_action(None), FrameAction::Step);
}

#[test]
fn first_tick_returns_zero() {
    let mut m = FpsMeter::new(4);
    assert_eq!(rate(m.record_tick(123_456_789)), 0.0);
}

#[test]
fn estimates_60fps_when_ticks_are_16_667ms_apart() {
    let mut m = FpsMeter::new(8);
    let t0: u64 = 1_000_000_000;
    // 6 synthetic ticks exactly 1/60 s apart -> exactly 60 fps.
    let step: u64 = 16_666_667;
    for i in 0..6 {
        let _ = m.record_tick(t0 + step * i);
    }
    let fps = rate(m.record_tick(t0 + step * 6));
    assert!((fps - 60.0).abs() < 0.1, "expected ~60fps, got {fps}");
}

#[test]
fn window_slides_when_capacity_exceeded() {
    let mut m = FpsMeter::new(3);
    let t0: u64 = 5_000_000_000;
    let step: u64 = 10_000_000;
    // 5 ticks, capacity 3 -> only the last 3 timestamps survive,
    // so the FPS estimate reflects the recent rate (100 fps), not the average since t0.
    for i in 0..5 {
        let _ = m.record_tick(t0 + step * i);
    }
    let fps = rate(m.record_tick(t0 + step * 5));
    assert!((fps - 100.0).abs() < 0.5, "expected ~100fps, got {fps}");
}

#[test]
fn fps_samples_exactly() {
    let mut m = FpsMeter::new(3);
    assert_eq!(m.record_tick(10), FpsSample { intervals: 0, span_nanos: 0 });
    assert_eq!(m.record_tick(10), FpsSample { intervals: 0, span_nanos: 0 });
    assert_eq!(m.record_tick(40), FpsSample { intervals: 2, span_nanos: 30 });
    assert_eq!(m.record_tick(100), FpsSample { intervals: 2, span_nanos: 90 });
    let mut one = FpsMeter::new(1);
    assert_eq!(one.record_tick(5), FpsSample { intervals: 0, span_nanos: 0 });
    assert_eq!(one.record_tick(50), FpsSample { intervals: 0, span_nanos: 0 });
}

#[test]
fn pacing_sleeps_until_deadline_and_keeps_schedule() {
    assert_eq!(FRAME_NANOS, 16_639_267);
    assert_eq!(
        pace_frame(FRAME_NANOS, 1_000_000),
        Pacing { sleep_nanos: FRAME_NANOS - 1_000_000, next_deadline: 2 * FRAME_NANOS }
    );
    // Late: no sleep, and the next deadline still follows the old one.
    assert_eq!(
        pace_frame(FRAME_NANOS, 40_000_000),
        Pacing { sleep_nanos: 0, next_deadline: 2 * FRAME_NANOS }
    );
    assert_eq!(pace_frame(5, 5), Pacing { sleep_nanos: 0, next_deadline: 5 + FRAME_NANOS });
}

#[test]
fn fps_window_keeps_only_latest_ticks_over_many_calls() {
    let mut m = FpsMeter::new(4);
    let times: [u64; 9] = [0, 10, 10, 25, 40, 70, 100, 101, 160];
    let mut last = FpsSample { intervals: 0, span_nanos: 0 };
    for t in times {
        last = m.record_tick(t);
    }
    // Window = [70, 100, 101, 160]
    assert_eq!(last, FpsSample { intervals: 3, span_nanos: 90 });
}
