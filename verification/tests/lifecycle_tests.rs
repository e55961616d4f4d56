use screenrec::capture::ScreenCapture;
use screenrec::cli::{AudioSource, RecordingType};
use screenrec::display_info::DisplayInfo;
use screenrec::error::ScreenRecError;
use screenrec::lifecycle::{
    bridge_capacity, capture_dimensions, catalog_path, effective_audio, interaction_mode,
    opens_session, shutdown_steps, target_frames, validate_record_request, InteractionMode,
    ShutdownStep,
};

#[test]
fn record_requests_are_checked() {
    assert_eq!(validate_record_request(RecordingType::AlwaysOn, false, 30), Ok(()));
    assert_eq!(validate_record_request(RecordingType::Task, true, 1), Ok(()));
    assert_eq!(validate_record_request(RecordingType::Task, true, 60), Ok(()));
    assert_eq!(
        validate_record_request(RecordingType::Task, false, 30),
        Err(ScreenRecError::InvalidParameter(
            "task_id is required when recording_type is 'task'".to_string()
        ))
    );
    assert_eq!(
        validate_record_request(RecordingType::Task, false, 0),
        Err(ScreenRecError::InvalidParameter(
            "task_id is required when recording_type is 'task'".to_string()
        ))
    );
    for fps in [0, 61, 120] {
        assert_eq!(
            validate_record_request(RecordingType::AlwaysOn, true, fps),
            Err(ScreenRecError::InvalidParameter("FPS must be between 1 and 60".to_string()))
        );
    }
}

#[test]
fn audio_can_be_switched_off() {
    assert_eq!(effective_audio(AudioSource::System, true), AudioSource::Disabled);
    assert_eq!(effective_audio(AudioSource::Mic, false), AudioSource::Mic);
}

#[test]
fn the_catalog_lies_next_to_the_data() {
    assert_eq!(catalog_path(), vec![".omega", "db.sqlite"]);
}

fn capture(multi: bool) -> ScreenCapture {
    let mut displays = vec![DisplayInfo { index: 0, width: 1367, height: 769, x: 0, y: 0, is_primary: true }];
    if multi {
        displays.push(DisplayInfo { index: 1, width: 2561, height: 1440, x: 1367, y: 0, is_primary: false });
    }
    ScreenCapture::new(0, 30, 1000, displays).unwrap()
}

#[test]
fn capture_dimensions_are_even() {
    assert_eq!(capture_dimensions(0, 0, &capture(false)), (1366, 768));
    assert_eq!(capture_dimensions(0, 0, &capture(true)), (2560, 1440));
    assert_eq!(capture_dimensions(801, 0, &capture(true)), (800, 1440));
    assert_eq!(capture_dimensions(0, 601, &capture(false)), (1366, 600));
    assert_eq!(capture_dimensions(1280, 720, &capture(true)), (1280, 720));
    assert_eq!(capture_dimensions(1, 1, &capture(true)), (0, 0));
}

#[test]
fn the_frame_target_is_duration_times_rate() {
    assert_eq!(target_frames(0, 30), None);
    assert_eq!(target_frames(5, 30), Some(150));
    assert_eq!(target_frames(5, 0), Some(0));
    assert_eq!(target_frames(u64::MAX, 2), Some(u64::MAX));
}

#[test]
fn the_bridge_holds_ten_seconds() {
    assert_eq!(bridge_capacity(30), 300);
    assert_eq!(bridge_capacity(60), 600);
    assert_eq!(bridge_capacity(1), 10);
    assert_eq!(bridge_capacity(0), 1);
}

#[test]
fn task_recordings_open_sessions_and_log_interactions() {
    assert!(opens_session(RecordingType::Task, true));
    assert!(!opens_session(RecordingType::Task, false));
    assert!(!opens_session(RecordingType::AlwaysOn, true));
    assert_eq!(interaction_mode(RecordingType::Task, true, false), InteractionMode::TaskLog);
    assert_eq!(interaction_mode(RecordingType::AlwaysOn, true, true), InteractionMode::Collect);
    assert_eq!(interaction_mode(RecordingType::Task, false, true), InteractionMode::Collect);
    assert_eq!(interaction_mode(RecordingType::AlwaysOn, false, false), InteractionMode::CursorOnly);
}

#[test]
fn shutdown_ends_the_session_before_the_flush() {
    assert_eq!(
        shutdown_steps(true),
        vec![
            ShutdownStep::EndSession,
            ShutdownStep::SignalEncoder,
            ShutdownStep::Wait { millis: 500 },
            ShutdownStep::StopCapture
        ]
    );
    assert_eq!(
        shutdown_steps(false),
        vec![ShutdownStep::SignalEncoder, ShutdownStep::Wait { millis: 500 }, ShutdownStep::StopCapture]
    );
}
