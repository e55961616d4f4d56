use screenrec::error::{AppError, ScreenRecError};

#[test]
fn test_invalid_resolution_format_error() {
    let error = AppError::InvalidResolutionFormat("1920 1080".to_string());
    let error_msg = error.message();
    assert!(error_msg.contains("Invalid resolution format"));
    assert!(error_msg.contains("1920 1080"));
    assert!(error_msg.contains("WIDTHxHEIGHT"));
}

#[test]
fn test_invalid_fps_error() {
    let error = AppError::InvalidFps(200);
    let error_msg = error.message();
    assert!(error_msg.contains("Invalid FPS"));
    assert!(error_msg.contains("200"));
    assert!(error_msg.contains("1 and 120"));
}

#[test]
fn test_invalid_output_path_error() {
    let error = AppError::InvalidOutputPath("/invalid/path".to_string());
    let error_msg = error.message();
    assert!(error_msg.contains("Output path is invalid"));
    assert!(error_msg.contains("/invalid/path"));
}

#[test]
fn test_invalid_monitor_index_error() {
    let error = AppError::InvalidMonitorIndex(5, 2);
    let error_msg = error.message();
    assert!(error_msg.contains("Monitor index"));
    assert!(error_msg.contains("5"));
    assert!(error_msg.contains("0-2"));
}

#[test]
fn test_config_error() {
    let error = AppError::ConfigError("Failed to parse".to_string());
    let error_msg = error.message();
    assert!(error_msg.contains("Configuration error"));
    assert!(error_msg.contains("Failed to parse"));
}

#[test]
fn test_ffmpeg_error() {
    let error = AppError::FfmpegError("Not found".to_string());
    let error_msg = error.message();
    assert!(error_msg.contains("FFmpeg error"));
    assert!(error_msg.contains("Not found"));
}

#[test]
fn test_error_debug() {
    let error = AppError::InvalidFps(150);
    let debug_str = format!("{:?}", error);
    assert!(debug_str.contains("InvalidFps"));
    assert!(debug_str.contains("150"));
}

#[test]
fn app_error_messages_are_exact() {
    assert_eq!(
        AppError::InvalidResolutionFormat("a".to_string()).message(),
        "Invalid resolution format: a. Expected WIDTHxHEIGHT (e.g. 1920x1080)"
    );
    assert_eq!(AppError::InvalidFps(0).message(), "Invalid FPS: 0. Must be between 1 and 120");
    assert_eq!(
        AppError::InvalidMonitorIndex(12, 3).message(),
        "Monitor index 12 is out of range. Available monitors: 0-3"
    );
}

#[test]
fn screen_rec_error_messages_are_exact() {
    let m = "boom".to_string();
    assert_eq!(ScreenRecError::CaptureError(m.clone()).message(), "Screen capture error: boom");
    assert_eq!(ScreenRecError::AudioError(m.clone()).message(), "Audio capture error: boom");
    assert_eq!(ScreenRecError::EncodingError(m.clone()).message(), "Encoding error: boom");
    assert_eq!(ScreenRecError::IoError(m.clone()).message(), "IO error: boom");
    assert_eq!(ScreenRecError::ImageError(m.clone()).message(), "Image error: boom");
    assert_eq!(ScreenRecError::ConfigError(m.clone()).message(), "Configuration error: boom");
    assert_eq!(ScreenRecError::InvalidParameter(m.clone()).message(), "Invalid parameter: boom");
    assert_eq!(
        ScreenRecError::PlatformNotSupported(m.clone()).message(),
        "Platform not supported: boom"
    );
    assert_eq!(ScreenRecError::DatabaseError(m.clone()).message(), "Database error: boom");
    assert_eq!(ScreenRecError::EncoderBusy(m.clone()).message(), "Encoder busy or in use: boom");
    assert_eq!(
        ScreenRecError::HardwareEncoderUnavailable(m.clone()).message(),
        "Hardware encoder unavailable: boom"
    );
    assert_eq!(
        ScreenRecError::EncoderInitializationFailed(m.clone(), 3).message(),
        "Encoder initialization failed after 3 retries: boom"
    );
    assert_eq!(
        ScreenRecError::EncoderRuntimeFailure(m).message(),
        "Encoder failure during recording: boom"
    );
}

#[test]
fn audio_device_error_lists_the_names_in_debug_notation() {
    let error = ScreenRecError::AudioDeviceUnavailable(vec![
        "Built-in Mic".to_string(),
        "Black\"Hole".to_string(),
    ]);
    assert_eq!(
        error.message(),
        "Audio device unavailable, tried: [\"Built-in Mic\", \"Black\\\"Hole\"]"
    );
    assert_eq!(
        ScreenRecError::AudioDeviceUnavailable(Vec::new()).message(),
        "Audio device unavailable, tried: []"
    );
}
