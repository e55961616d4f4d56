use screenrec::cli::AudioSource;
use screenrec::encoder::Platform;
use screenrec::recorder::{
    build_ffmpeg_cmd, create_recorder, detect_output_format, is_webm, FfmpegRecorder, OutputFormat,
    RecorderEnv, ScreenRecorder,
};

#[test]
fn webm_is_detected_in_any_case() {
    assert_eq!(detect_output_format(Some("webm")), OutputFormat::WebM);
    assert_eq!(detect_output_format(Some("WebM")), OutputFormat::WebM);
    assert_eq!(detect_output_format(Some("WEBM")), OutputFormat::WebM);
    assert_eq!(detect_output_format(Some("mp4")), OutputFormat::Mp4);
    assert_eq!(detect_output_format(Some("webmx")), OutputFormat::Mp4);
    assert_eq!(detect_output_format(Some("")), OutputFormat::Mp4);
    assert_eq!(detect_output_format(None), OutputFormat::Mp4);
    assert!(!is_webm("web"));
    assert!(!is_webm("w\u{212A}bm"));
}

#[test]
fn macos_command_line_for_mp4_without_audio() {
    let args = build_ffmpeg_cmd(
        Platform::MacOs,
        "out.mp4",
        30,
        None,
        None,
        AudioSource::Disabled,
        None,
        OutputFormat::Mp4,
    )
    .unwrap();
    assert_eq!(
        args,
        vec![
            "-y", "-f", "avfoundation", "-pixel_format", "uyvy422", "-framerate", "30", "-i",
            "1:none", "-probesize", "50M", "-map", "0:v:0", "-vcodec", "h264_videotoolbox",
            "-allow_sw", "1", "-b:v", "5M", "-pix_fmt", "yuv420p", "-an", "out.mp4"
        ]
    );
}

#[test]
fn macos_command_line_for_webm_with_everything() {
    let args = build_ffmpeg_cmd(
        Platform::MacOs,
        "out.webm",
        24,
        Some("1280x720"),
        Some(90),
        AudioSource::Mic,
        None,
        OutputFormat::WebM,
    )
    .unwrap();
    assert_eq!(
        args,
        vec![
            "-y", "-f", "avfoundation", "-pixel_format", "uyvy422", "-framerate", "24",
            "-video_size", "1280x720", "-i", "1:1", "-t", "90", "-probesize", "50M", "-map",
            "0:v:0", "-vf", "scale=1280x720", "-vcodec", "libvpx-vp9", "-b:v", "5M", "-deadline",
            "realtime", "-speed", "6", "-g", "48", "-threads", "4", "-row-mt", "1", "-pix_fmt",
            "yuv420p", "-map", "0:a:0", "-af", "aresample=48000", "-acodec", "libopus", "-b:a",
            "192k", "-ar", "48000", "-f", "webm", "-cluster_size_limit", "0",
            "-cluster_time_limit", "0", "out.webm"
        ]
    );
}

fn input_of(args: &[String]) -> String {
    let at = args.iter().rposition(|a| a == "-i").unwrap();
    args[at + 1].clone()
}

#[test]
fn macos_audio_inputs() {
    let input = |audio, device| {
        input_of(&build_ffmpeg_cmd(Platform::MacOs, "o", 30, None, None, audio, device, OutputFormat::Mp4).unwrap())
    };
    assert_eq!(input(AudioSource::System, None), "1:0");
    assert_eq!(input(AudioSource::Both, None), "1:0");
    assert_eq!(input(AudioSource::Mic, None), "1:1");
    assert_eq!(input(AudioSource::Mic, Some(":3")), "1:3");
    assert_eq!(input(AudioSource::Disabled, Some(":3")), "1:none");
}

#[test]
fn windows_command_line_with_system_audio() {
    let args = build_ffmpeg_cmd(
        Platform::Windows,
        "out.mp4",
        60,
        Some("1920x1080"),
        Some(5),
        AudioSource::System,
        None,
        OutputFormat::Mp4,
    )
    .unwrap();
    assert_eq!(
        args,
        vec![
            "-y", "-f", "gdigrab", "-framerate", "60", "-i", "desktop", "-t", "5", "-map", "0:v:0",
            "-vf", "scale=1920x1080", "-vcodec", "h264_nvenc", "-b:v", "5M", "-pix_fmt", "yuv420p",
            "-f", "dshow", "-i", "audio=virtual-audio-capturer", "-map", "1:a:0", "-af",
            "aresample=48000", "-acodec", "aac", "-b:a", "192k", "-ar", "48000", "-ac", "2",
            "out.mp4"
        ]
    );
}

#[test]
fn windows_audio_devices() {
    let device = |audio, device| {
        input_of(&build_ffmpeg_cmd(Platform::Windows, "o", 30, None, None, audio, device, OutputFormat::Mp4).unwrap())
    };
    assert_eq!(device(AudioSource::Mic, None), "audio=default");
    assert_eq!(device(AudioSource::Both, None), "audio=virtual-audio-capturer");
    assert_eq!(device(AudioSource::Mic, Some(":0")), "audio=virtual-audio-capturer");
    assert_eq!(device(AudioSource::System, Some(":1")), "audio=default");
    assert_eq!(device(AudioSource::System, Some(":7")), "audio=virtual-audio-capturer");
    assert_eq!(device(AudioSource::Mic, Some(":7")), "audio=default");
    assert_eq!(device(AudioSource::Both, Some(":7")), "audio=default");
    assert_eq!(device(AudioSource::Mic, Some("audio=Headset")), "audio=Headset");
    assert_eq!(device(AudioSource::Mic, Some("Headset")), "audio=Headset");
    assert_eq!(device(AudioSource::Disabled, Some("Headset")), "desktop");
}

#[test]
fn no_command_line_without_a_screen_grabber() {
    assert_eq!(
        build_ffmpeg_cmd(Platform::Linux, "o", 30, None, None, AudioSource::System, None, OutputFormat::Mp4),
        None
    );
}

#[test]
fn the_recorder_needs_the_tool() {
    let recorder = FfmpegRecorder::new();
    let missing = RecorderEnv { platform: Platform::MacOs, ffmpeg_available: false };
    let error = recorder
        .start_recording("o.mp4", Some("mp4"), 30, None, None, AudioSource::System, None, &missing)
        .unwrap_err();
    assert!(error.starts_with("ffmpeg not found in PATH.\nPlease install ffmpeg:\n- macOS: brew"));
    let linux = RecorderEnv { platform: Platform::Linux, ffmpeg_available: true };
    assert_eq!(
        recorder.start_recording("o.mp4", Some("mp4"), 30, None, None, AudioSource::System, None, &linux),
        Err("screen recording through ffmpeg is not supported on this platform".to_string())
    );
}

#[test]
fn the_recorder_picks_the_container_by_extension() {
    let env = RecorderEnv { platform: Platform::Windows, ffmpeg_available: true };
    let recorder = create_recorder();
    let webm = recorder
        .start_recording("o.WEBM", Some("WEBM"), 30, None, None, AudioSource::Disabled, None, &env)
        .unwrap();
    assert!(webm.contains(&"libvpx-vp9".to_string()));
    let through_trait = ScreenRecorder::start_recording(
        &recorder,
        "o.mp4",
        Some("mp4"),
        Some(3),
        30,
        None,
        AudioSource::Disabled,
        None,
        &env,
    )
    .unwrap();
    assert_eq!(
        through_trait,
        recorder.start_recording("o.mp4", Some("mp4"), 30, None, Some(3), AudioSource::Disabled, None, &env).unwrap()
    );
    assert!(through_trait.contains(&"h264_nvenc".to_string()));
}

#[test]
fn the_end_of_the_tool_is_judged() {
    let recorder = FfmpegRecorder::new();
    assert_eq!(recorder.finish_recording(true, Some(0)), Ok(()));
    let failed = recorder.finish_recording(false, Some(1)).unwrap_err();
    assert!(failed.starts_with("ffmpeg recording failed with exit code: 1\nThis may indicate:\n- Insufficient"));
    assert!(failed.ends_with("Check ffmpeg output above for detailed error messages."));
    let killed = recorder.finish_recording(false, None).unwrap_err();
    assert!(killed.starts_with("ffmpeg recording failed with exit code: -1\n"));
}
