use screenrec::capture::Frame;
use screenrec::concat::ToolOutput;
use screenrec::encoder::{EncoderInfo, EncoderType};
use screenrec::encoder_subprocess::{
    available_from_listing, encoder_args, spawn_failure, ExitReport, SubprocessEncoder,
    WriteFailure,
};
use screenrec::error::ScreenRecError;

fn software() -> EncoderInfo {
    EncoderInfo::new("libx264", EncoderType::Software, 10)
}

fn frame(width: usize, height: usize) -> Frame {
    Frame { data: vec![3; width * height * 3], width, height, timestamp_us: 0, captured_at_ms: 0, display_index: 1 }
}

#[test]
fn software_encoder_command_line() {
    assert_eq!(
        encoder_args("libx264", "/t/a.mp4", 1920, 1080, 30, 8),
        vec![
            "-f", "rawvideo", "-pixel_format", "rgb24", "-video_size", "1920x1080", "-framerate",
            "30", "-i", "pipe:0", "-c:v", "libx264", "-fps_mode", "cfr", "-r", "30", "-crf", "18",
            "-preset", "slow", "-profile:v", "high", "-g", "60", "-pix_fmt", "yuv420p",
            "-movflags", "frag_keyframe+empty_moov", "-f", "mp4", "/t/a.mp4"
        ]
    );
}

#[test]
fn hardware_and_generic_encoder_command_lines() {
    let hardware = encoder_args("h264_videotoolbox", "a.mp4", 1920, 1080, 30, 10);
    assert_eq!(
        &hardware[16..24],
        &["-b:v", "18M", "-profile:v", "high", "-allow_sw", "1", "-g", "60"]
    );
    let generic = encoder_args("h264", "a.mp4", 640, 480, 15, 1);
    assert_eq!(&generic[16..22], &["-crf", "35", "-preset", "medium", "-g", "30"]);
    assert_eq!(generic[5], "640x480");
    assert_eq!(generic.last().unwrap(), "a.mp4");
}

#[test]
fn the_listing_decides_what_is_available() {
    let listing = |ran, success, stdout: &str| ToolOutput {
        ran,
        success,
        stdout: stdout.to_string(),
        stderr: "spawn failed".to_string(),
    };
    let found = available_from_listing(&listing(true, true, " V....D libx264              H.264\n")).unwrap();
    assert_eq!(found, vec![software()]);
    assert_eq!(
        available_from_listing(&listing(true, false, " libx264 ")),
        Err(ScreenRecError::ConfigError("Failed to get encoder list from FFmpeg".to_string()))
    );
    assert_eq!(
        available_from_listing(&listing(false, false, "")),
        Err(ScreenRecError::ConfigError("Failed to run ffmpeg -encoders: spawn failed".to_string()))
    );
}

#[test]
fn the_last_failure_ends_the_start() {
    let e = ScreenRecError::EncodingError("Failed to spawn FFmpeg process: x".to_string());
    assert_eq!(spawn_failure(Some(e.clone())), e);
    assert_eq!(spawn_failure(None), ScreenRecError::EncodingError("All encoders failed".to_string()));
}

#[test]
fn metadata_follows_the_frame_count() {
    let mut encoder = SubprocessEncoder::new_with_pts_offset("a.mp4", 2, 2, 30, 500, software(), "ffmpeg");
    assert_eq!(encoder.gop_size, 60);
    for n in 0..125u64 {
        let input = encoder.encode_frame(frame(2, 2));
        assert_eq!(input.data, vec![3; 12]);
        assert_eq!(input.flush, n % 30 == 0);
        assert_eq!(input.metadata.is_keyframe, n % 60 == 0);
        assert_eq!(input.metadata.pts, Some(n as i64));
        assert_eq!(input.metadata.dts, Some(n as i64));
        assert_eq!((input.metadata.display_index, input.metadata.width, input.metadata.height), (1, 2, 2));
    }
    assert_eq!(encoder.get_next_pts(), 625);
    let fitted = encoder.encode_frame(frame(1, 1));
    assert_eq!(fitted.data, vec![3; 12]);
    assert_eq!((fitted.metadata.width, fitted.metadata.height), (1, 1));
}

#[test]
fn write_failures_are_classified() {
    assert_eq!(
        SubprocessEncoder::write_failed(&WriteFailure::BrokenPipe("Broken pipe (os error 32)".to_string())),
        ScreenRecError::EncoderRuntimeFailure("FFmpeg process died: Broken pipe (os error 32)".to_string())
    );
    assert_eq!(
        SubprocessEncoder::write_failed(&WriteFailure::Other("disk full".to_string())),
        ScreenRecError::EncodingError("Failed to write frame to stdin: disk full".to_string())
    );
}

#[test]
fn the_chunk_is_finished_when_the_tool_succeeded() {
    let encoder = || SubprocessEncoder::new_with_pts_offset("/t/a.mp4", 2, 2, 30, 0, software(), "ffmpeg");
    assert_eq!(encoder().finish(&ExitReport::Success, true).unwrap().video_file, "/t/a.mp4");
    assert_eq!(
        encoder().finish(&ExitReport::Success, false),
        Err(ScreenRecError::EncodingError("Output file was not created: /t/a.mp4".to_string()))
    );
    assert_eq!(
        encoder().finish(&ExitReport::Failure(Some(234)), true),
        Err(ScreenRecError::EncodingError("FFmpeg process exited with code 234".to_string()))
    );
    assert_eq!(
        encoder().finish(&ExitReport::Failure(None), true),
        Err(ScreenRecError::EncodingError("FFmpeg process exited with code -1".to_string()))
    );
    assert_eq!(
        encoder().finish(&ExitReport::WaitFailed("interrupted".to_string()), true),
        Err(ScreenRecError::EncodingError("Failed to wait for FFmpeg process: interrupted".to_string()))
    );
}
