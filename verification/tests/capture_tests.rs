use screenrec::capture::{
    bgra_to_rgb, copy_displays, pacing_sleep_us, CaptureAction, CaptureLoop, CaptureOutcome,
    LoopDecision, MonitorSwitchDetector, ScreenCapture,
};
use screenrec::cursor::{draw_cursor, get_cursor_position, update_cursor_position, CursorCell};
use screenrec::display_info::DisplayInfo;
use screenrec::error::ScreenRecError;

fn side_by_side() -> Vec<DisplayInfo> {
    vec![
        DisplayInfo { index: 0, width: 100, height: 50, x: 0, y: 0, is_primary: true },
        DisplayInfo { index: 1, width: 200, height: 80, x: 100, y: 0, is_primary: false },
        DisplayInfo { index: 2, width: 60, height: 40, x: 300, y: 0, is_primary: false },
    ]
}

#[test]
fn bgra_becomes_rgb() {
    assert_eq!(bgra_to_rgb(&[1, 2, 3, 255, 10, 20, 30, 0]), vec![3, 2, 1, 30, 20, 10]);
    assert_eq!(bgra_to_rgb(&[1, 2, 3, 4, 5, 6, 7]), vec![3, 2, 1]);
    assert_eq!(bgra_to_rgb(&[1, 2, 3]), Vec::<u8>::new());
    assert_eq!(bgra_to_rgb(&[]), Vec::<u8>::new());
}

#[test]
fn cursor_cell_keeps_the_last_position() {
    let mut cell = CursorCell::new();
    assert_eq!(get_cursor_position(&cell), Some((0, 0)));
    update_cursor_position(&mut cell, 12, -7);
    update_cursor_position(&mut cell, 40, 41);
    assert_eq!(get_cursor_position(&cell), Some((40, 41)));
}

#[test]
fn switch_needs_two_sightings_in_a_row() {
    let mut d = MonitorSwitchDetector::new(1000, 0, side_by_side(), 0);
    assert_eq!(d.check_for_switch(1000, Some((150, 10))), None);
    assert_eq!(d.pending_display, Some(1));
    assert_eq!(d.pending_count, 1);
    assert_eq!(d.check_for_switch(2000, Some((150, 10))), Some(1));
    assert_eq!(d.current_display, 1);
    assert_eq!(d.pending_display, None);
    assert_eq!(d.pending_count, 0);
}

#[test]
fn a_single_sighting_never_switches() {
    let mut d = MonitorSwitchDetector::new(1000, 0, side_by_side(), 0);
    assert_eq!(d.check_for_switch(1000, Some((150, 10))), None);
    assert_eq!(d.check_for_switch(2000, Some((10, 10))), None);
    assert_eq!(d.pending_display, None);
    assert_eq!(d.check_for_switch(3000, Some((150, 10))), None);
    assert_eq!(d.check_for_switch(4000, Some((310, 10))), None);
    assert_eq!(d.pending_display, Some(2));
    assert_eq!(d.check_for_switch(5000, Some((150, 10))), None);
    assert_eq!(d.pending_display, Some(1));
    assert_eq!(d.current_display, 0);
    assert_eq!(d.check_for_switch(6000, Some((150, 10))), Some(1));
}

#[test]
fn checks_within_the_interval_change_nothing() {
    let mut d = MonitorSwitchDetector::new(1000, 0, side_by_side(), 500);
    assert_eq!(d.check_for_switch(1499, Some((150, 10))), None);
    assert_eq!(d.pending_display, None);
    assert_eq!(d.last_check_ms, 500);
    assert_eq!(d.check_for_switch(400, Some((150, 10))), None);
    assert_eq!(d.last_check_ms, 500);
    assert_eq!(d.check_for_switch(1500, Some((150, 10))), None);
    assert_eq!(d.last_check_ms, 1500);
    assert_eq!(d.pending_display, Some(1));
    assert_eq!(d.check_for_switch(2499, Some((150, 10))), None);
    assert_eq!(d.pending_count, 1);
    assert_eq!(d.check_for_switch(2500, Some((150, 10))), Some(1));
}

#[test]
fn a_check_without_cursor_position_is_timed_but_sees_nothing() {
    let mut d = MonitorSwitchDetector::new(1000, 0, side_by_side(), 0);
    assert_eq!(d.check_for_switch(1000, Some((150, 10))), None);
    assert_eq!(d.check_for_switch(2000, None), None);
    assert_eq!(d.last_check_ms, 2000);
    assert_eq!(d.pending_display, Some(1));
    assert_eq!(d.check_for_switch(3000, Some((150, 10))), Some(1));
}

#[test]
fn screen_capture_checks_the_display() {
    assert_eq!(
        ScreenCapture::new(0, 30, 1000, Vec::new()).err(),
        Some(ScreenRecError::CaptureError("No displays found".to_string()))
    );
    assert_eq!(
        ScreenCapture::new(3, 30, 1000, side_by_side()).err(),
        Some(ScreenRecError::CaptureError(
            "Display 3 not found (only 3 displays available)".to_string()
        ))
    );
    let capture = ScreenCapture::new(1, 30, 1000, side_by_side()).unwrap();
    assert_eq!(capture.width(), 200);
    assert_eq!(capture.height(), 80);
    assert_eq!(capture.fps(), 30);
    assert!(capture.is_multi_monitor());
    assert_eq!(capture.get_max_dimensions(), (200, 80));
    let single = ScreenCapture::new(0, 60, 1000, side_by_side()[..1].to_vec()).unwrap();
    assert!(!single.is_multi_monitor());
    assert_eq!((single.width(), single.height()), (100, 50));
}

#[test]
fn screen_capture_falls_back_to_full_hd() {
    let capture = ScreenCapture {
        display_index: 9,
        fps: 30,
        multi_monitor: false,
        monitor_switch_interval_ms: 1000,
        displays: Vec::new(),
    };
    assert_eq!((capture.width(), capture.height()), (1920, 1080));
}

#[test]
fn pacing_fills_the_frame_period() {
    assert_eq!(pacing_sleep_us(30, 0), 33_333);
    assert_eq!(pacing_sleep_us(30, 10_000), 23_333);
    assert_eq!(pacing_sleep_us(30, 33_333), 0);
    assert_eq!(pacing_sleep_us(30, 1_000_000), 0);
    assert_eq!(pacing_sleep_us(1, 1), 999_999);
    assert_eq!(pacing_sleep_us(60, 0), 16_666);
}

#[test]
fn copy_displays_copies() {
    assert_eq!(copy_displays(&side_by_side()), side_by_side());
}

#[test]
fn single_monitor_loop_captures_until_its_target() {
    let capture = ScreenCapture::new(0, 30, 1000, side_by_side()[..1].to_vec()).unwrap();
    let mut lp = CaptureLoop::new(capture, Some(2), Some((5, 5)), 0).unwrap();
    assert!(lp.detector.is_none());
    assert!(matches!(lp.begin_iteration(false, 0, None), LoopDecision::CaptureFrom(0)));
    let action = lp.on_capture(CaptureOutcome::Frame(vec![1, 2, 3, 4]), 5_000, 77, None);
    match action {
        CaptureAction::Send(frame) => {
            assert_eq!(frame.data, vec![3, 2, 1]);
            assert_eq!((frame.width, frame.height), (100, 50));
            assert_eq!(frame.timestamp_us, 0);
            assert_eq!(frame.captured_at_ms, 77);
            assert_eq!(frame.display_index, 0);
        }
        _ => panic!("frame expected"),
    }
    assert!(lp.on_sent(true));
    assert!(matches!(lp.begin_iteration(false, 0, None), LoopDecision::CaptureFrom(0)));
    match lp.on_capture(CaptureOutcome::Frame(vec![0; 8]), 45_000, 78, None) {
        CaptureAction::Send(frame) => assert_eq!(frame.timestamp_us, 40_000),
        _ => panic!("frame expected"),
    }
    assert!(lp.on_sent(true));
    assert_eq!(lp.frame_count, 2);
    assert!(matches!(lp.begin_iteration(false, 0, None), LoopDecision::Stop));
}

#[test]
fn loop_stops_on_request_and_when_the_receiver_is_gone() {
    let capture = ScreenCapture::new(0, 30, 1000, side_by_side()[..1].to_vec()).unwrap();
    let mut lp = CaptureLoop::new(capture, None, None, 0).unwrap();
    assert!(matches!(lp.begin_iteration(true, 0, None), LoopDecision::Stop));
    assert!(matches!(lp.begin_iteration(false, 0, None), LoopDecision::CaptureFrom(0)));
    assert!(!lp.on_sent(false));
    assert_eq!(lp.frame_count, 0);
}

#[test]
fn loop_retries_a_blocked_capturer_and_fails_on_errors() {
    let capture = ScreenCapture::new(0, 30, 1000, side_by_side()[..1].to_vec()).unwrap();
    let mut lp = CaptureLoop::new(capture, None, None, 0).unwrap();
    assert!(matches!(
        lp.on_capture(CaptureOutcome::WouldBlock, 1, 1, None),
        CaptureAction::RetryAfterMs(1)
    ));
    assert_eq!(lp.origin_us, None);
    match lp.on_capture(CaptureOutcome::Failed("device lost".to_string()), 1, 1, None) {
        CaptureAction::Fail(e) => assert_eq!(
            e,
            ScreenRecError::CaptureError("Failed to capture frame: device lost".to_string())
        ),
        _ => panic!("failure expected"),
    }
}

#[test]
fn multi_monitor_loop_follows_the_cursor() {
    let capture = ScreenCapture::new(0, 30, 1000, side_by_side()).unwrap();
    let mut lp = CaptureLoop::new(capture, None, Some((150, 10)), 0).unwrap();
    assert_eq!(lp.display_index, 1);
    assert_eq!((lp.width, lp.height), (200, 80));
    assert!(matches!(lp.begin_iteration(false, 500, Some((310, 5))), LoopDecision::CaptureFrom(1)));
    assert!(matches!(lp.begin_iteration(false, 1000, Some((310, 5))), LoopDecision::CaptureFrom(1)));
    assert!(matches!(lp.begin_iteration(false, 2000, Some((310, 5))), LoopDecision::CaptureFrom(2)));
    assert_eq!((lp.width, lp.height), (60, 40));
    assert_eq!(lp.detector.as_ref().unwrap().current_display, 2);
}

#[test]
fn loop_cannot_start_on_a_missing_display() {
    let mut displays = side_by_side();
    displays[1].index = 9;
    let capture = ScreenCapture::new(0, 30, 1000, displays).unwrap();
    assert_eq!(
        CaptureLoop::new(capture, None, Some((150, 10)), 0).err(),
        Some(ScreenRecError::CaptureError("Capturer for display 9 not found".to_string()))
    );
    let single = ScreenCapture {
        display_index: 4,
        fps: 30,
        multi_monitor: false,
        monitor_switch_interval_ms: 1000,
        displays: side_by_side(),
    };
    assert_eq!(
        CaptureLoop::new(single, None, None, 0).err(),
        Some(ScreenRecError::CaptureError(
            "Display 4 not found (only 3 displays available)".to_string()
        ))
    );
}

fn pixel(data: &[u8], width: usize, x: usize, y: usize) -> (u8, u8, u8) {
    let i = (y * width + x) * 3;
    (data[i], data[i + 1], data[i + 2])
}

#[test]
fn cursor_is_drawn_in_black_and_white() {
    let (w, h) = (40usize, 40usize);
    let mut data = vec![100u8; w * h * 3];
    draw_cursor(&mut data, w, h, 5, 6);
    assert_eq!(pixel(&data, w, 5, 6), (0, 0, 0));
    assert_eq!(pixel(&data, w, 6, 6), (100, 100, 100));
    assert_eq!(pixel(&data, w, 5, 7), (0, 0, 0));
    assert_eq!(pixel(&data, w, 6, 7), (0, 0, 0));
    assert_eq!(pixel(&data, w, 6, 8), (255, 255, 255));
    assert_eq!(pixel(&data, w, 7, 8), (0, 0, 0));
    assert_eq!(pixel(&data, w, 5 + 10, 6 + 24), (0, 0, 0));
    assert_eq!(pixel(&data, w, 5 + 9, 6 + 24), (0, 0, 0));
    assert_eq!(pixel(&data, w, 5 + 8, 6 + 24), (100, 100, 100));
    assert_eq!(pixel(&data, w, 5 + 10, 6 + 23), (255, 255, 255));
    assert_eq!(pixel(&data, w, 4, 6), (100, 100, 100));
    assert_eq!(pixel(&data, w, 5, 5), (100, 100, 100));
    assert_eq!(pixel(&data, w, 5, 6 + 25), (100, 100, 100));
    let painted = data.chunks(3).filter(|p| p[0] != 100).count();
    assert_eq!(painted, 160);
}

#[test]
fn cursor_is_clipped_at_the_edges() {
    let (w, h) = (10usize, 10usize);
    let mut data = vec![7u8; w * h * 3];
    draw_cursor(&mut data, w, h, -1, -2);
    assert_eq!(pixel(&data, w, 0, 0), (255, 255, 255));
    assert_eq!(pixel(&data, w, 1, 0), (0, 0, 0));
    assert_eq!(pixel(&data, w, 2, 0), (7, 7, 7));
    let mut far = vec![7u8; w * h * 3];
    draw_cursor(&mut far, w, h, 9, 9);
    assert_eq!(pixel(&far, w, 9, 9), (0, 0, 0));
    assert_eq!(far.iter().filter(|b| **b != 7).count(), 3);
    let mut outside = vec![7u8; w * h * 3];
    draw_cursor(&mut outside, w, h, 10, 0);
    draw_cursor(&mut outside, w, h, -19, 0);
    draw_cursor(&mut outside, w, h, 0, -25);
    draw_cursor(&mut outside, w, h, i32::MAX, i32::MAX);
    draw_cursor(&mut outside, w, h, i32::MIN, i32::MIN);
    assert!(outside.iter().all(|b| *b == 7));
}

#[test]
fn cursor_stays_inside_a_short_buffer() {
    let mut data = vec![7u8; 10 * 3 + 2];
    draw_cursor(&mut data, 10, 10, 0, 0);
    assert_eq!(&data[0..3], &[0, 0, 0]);
    assert_eq!(&data[30..32], &[7, 7]);
    let mut empty: Vec<u8> = Vec::new();
    draw_cursor(&mut empty, 10, 10, 0, 0);
    draw_cursor(&mut data, 0, 0, 0, 0);
}

#[test]
fn frames_get_the_cursor_drawn() {
    let capture = ScreenCapture::new(
        0,
        30,
        1000,
        vec![DisplayInfo { index: 0, width: 2, height: 2, x: 0, y: 0, is_primary: true }],
    )
    .unwrap();
    let mut lp = CaptureLoop::new(capture, None, None, 0).unwrap();
    match lp.on_capture(CaptureOutcome::Frame(vec![9; 16]), 10, 0, Some((1, 0))) {
        CaptureAction::Send(frame) => {
            assert_eq!(frame.data, vec![9, 9, 9, 0, 0, 0, 9, 9, 9, 0, 0, 0]);
        }
        _ => panic!("frame expected"),
    }
}
