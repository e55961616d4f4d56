use screenrec::cli::{AudioSource, RecordingType};
use screenrec::config::AppConfig;

#[test]
fn test_cli_audio_source_enum() {
    assert_eq!(AudioSource::Disabled as u8, 0);
    assert_eq!(AudioSource::System as u8, 1);
    assert_eq!(AudioSource::Mic as u8, 2);
}

#[test]
fn test_app_config_clone() {
    let config = AppConfig {
        fps: Some(30),
        resolution: Some("1920x1080".to_string()),
        codec: Some("h264".to_string()),
    };
    let cloned = config.clone();
    assert_eq!(cloned.fps, config.fps);
    assert_eq!(cloned.resolution, config.resolution);
    assert_eq!(cloned.codec, config.codec);
}

#[test]
fn test_app_config_debug() {
    let config = AppConfig {
        fps: Some(60),
        resolution: Some("3840x2160".to_string()),
        codec: None,
    };
    let debug_str = format!("{:?}", config);
    assert!(debug_str.contains("AppConfig"));
    assert!(debug_str.contains("60"));
    assert!(debug_str.contains("3840x2160"));
}

#[test]
fn audio_source_reads_names_in_any_case() {
    assert_eq!(AudioSource::from_str("none"), Ok(AudioSource::Disabled));
    assert_eq!(AudioSource::from_str("SYSTEM"), Ok(AudioSource::System));
    assert_eq!(AudioSource::from_str("Mic"), Ok(AudioSource::Mic));
    assert_eq!(AudioSource::from_str("bOtH"), Ok(AudioSource::Both));
    assert_eq!(
        AudioSource::from_str("Loud"),
        Err("Invalid audio source: Loud. Use: none, system, mic, or both".to_string())
    );
    assert_eq!("system".parse::<AudioSource>(), Ok(AudioSource::System));
}

#[test]
fn audio_source_from_lowercase_is_exact() {
    assert_eq!(AudioSource::from_lowercase("mic"), Some(AudioSource::Mic));
    assert_eq!(AudioSource::from_lowercase("MIC"), None);
    assert_eq!(AudioSource::from_lowercase(""), None);
}

#[test]
fn audio_source_names_round_trip() {
    for source in [AudioSource::Disabled, AudioSource::System, AudioSource::Mic, AudioSource::Both] {
        assert_eq!(AudioSource::from_str(source.as_str()), Ok(source));
    }
    assert_eq!(AudioSource::Disabled.as_str(), "none");
}

#[test]
fn recording_type_reads_all_spellings() {
    assert_eq!(RecordingType::from_str("task"), Ok(RecordingType::Task));
    assert_eq!(RecordingType::from_str("TAS\u{212A}"), Ok(RecordingType::Task));
    assert_eq!(RecordingType::from_str("always_on"), Ok(RecordingType::AlwaysOn));
    assert_eq!(RecordingType::from_str("Always-On"), Ok(RecordingType::AlwaysOn));
    assert_eq!(RecordingType::from_str("ALWAYSON"), Ok(RecordingType::AlwaysOn));
    assert_eq!(
        RecordingType::from_str("sometimes"),
        Err("Invalid recording type: sometimes. Use: task or always_on".to_string())
    );
    assert_eq!(RecordingType::Task.as_str(), "task");
    assert_eq!(RecordingType::AlwaysOn.as_str(), "always_on");
    assert_eq!("task".parse::<RecordingType>(), Ok(RecordingType::Task));
}
