use screenrec::concat::ToolOutput;
use screenrec::error::ScreenRecError;
use screenrec::ffmpeg_utils::{
    find_ffmpeg_binary, find_ffprobe_binary, first_line, validate_ffmpeg, which_result,
    ProvidedPath,
};

#[test]
fn test_which_command() {
    let result = which_result(true, Some("/bin/ls\n"));
    assert!(result.is_some());
}

#[test]
fn the_lookup_yields_the_first_line() {
    assert_eq!(which_result(true, Some("/usr/bin/ffmpeg\n")), Some("/usr/bin/ffmpeg".to_string()));
    assert_eq!(
        which_result(true, Some("  C:\\ffmpeg\\bin\\ffmpeg.exe\r\nC:\\other\\ffmpeg.exe\r\n")),
        Some("C:\\ffmpeg\\bin\\ffmpeg.exe".to_string())
    );
    assert_eq!(which_result(true, Some("a\rb")), Some("a\rb".to_string()));
    assert_eq!(which_result(true, Some("\n\n")), None);
    assert_eq!(which_result(true, Some("")), None);
    assert_eq!(which_result(true, Some("x\n\ny")), Some("x".to_string()));
    assert_eq!(which_result(true, None), None);
    assert_eq!(which_result(false, Some("/usr/bin/ffmpeg\n")), None);
}

#[test]
fn first_line_ends_at_the_line_feed() {
    assert_eq!(first_line("one\ntwo"), "one");
    assert_eq!(first_line("one\r\ntwo"), "one");
    assert_eq!(first_line("one\r"), "one\r");
    assert_eq!(first_line("\nrest"), "");
    assert_eq!(first_line("\r\nrest"), "");
    assert_eq!(first_line("single"), "single");
    assert_eq!(first_line(""), "");
    for text in ["a\nb", "a\r\nb", "a\r\r\nb", "abc", "\n", "a\rb\nc"] {
        assert_eq!(first_line(text), text.lines().next().unwrap_or(""), "{:?}", text);
    }
}

#[test]
fn the_given_tool_must_exist() {
    let there = ProvidedPath { text: Some("/opt/ffmpeg".to_string()), exists: true };
    let gone = ProvidedPath { text: Some("/opt/ffmpeg".to_string()), exists: false };
    let odd = ProvidedPath { text: None, exists: true };
    assert_eq!(find_ffmpeg_binary(Some(&there), Some("/usr/bin/ffmpeg")), Ok("/opt/ffmpeg".to_string()));
    assert_eq!(
        find_ffmpeg_binary(Some(&gone), Some("/usr/bin/ffmpeg")),
        Err(ScreenRecError::ConfigError(
            "FFmpeg binary not found at provided path: /opt/ffmpeg".to_string()
        ))
    );
    assert_eq!(
        find_ffmpeg_binary(Some(&odd), None),
        Err(ScreenRecError::ConfigError("Invalid FFmpeg path".to_string()))
    );
    assert_eq!(find_ffmpeg_binary(None, Some("/usr/bin/ffmpeg")), Ok("/usr/bin/ffmpeg".to_string()));
    match find_ffmpeg_binary(None, None) {
        Err(ScreenRecError::ConfigError(m)) => {
            assert!(m.starts_with("FFmpeg not found. Please install FFmpeg or provide --ffmpeg-path argument.\n\nInstallation"));
            assert!(m.ends_with("Windows:  Download from https://ffmpeg.org/download.html"));
        }
        _ => panic!("configuration error expected"),
    }
}

#[test]
fn the_inspector_is_sought_next_to_the_tool_first() {
    assert_eq!(find_ffprobe_binary(Some("/opt/ffprobe"), Some("/usr/bin/ffprobe")), "/opt/ffprobe");
    assert_eq!(find_ffprobe_binary(None, Some("/usr/bin/ffprobe")), "/usr/bin/ffprobe");
    assert_eq!(find_ffprobe_binary(None, None), "ffprobe");
}

#[test]
fn the_tool_names_its_version() {
    let out = |ran, success, stdout: &str, stderr: &str| ToolOutput {
        ran,
        success,
        stdout: stdout.to_string(),
        stderr: stderr.to_string(),
    };
    assert_eq!(
        validate_ffmpeg(&out(true, true, "ffmpeg version 7.1\nbuilt with clang\n", "")),
        Ok("ffmpeg version 7.1".to_string())
    );
    assert_eq!(validate_ffmpeg(&out(true, true, "", "")), Ok("Unknown version".to_string()));
    assert_eq!(validate_ffmpeg(&out(true, true, "\nx", "")), Ok(String::new()));
    assert_eq!(
        validate_ffmpeg(&out(true, false, "ffmpeg", "dyld: missing library")),
        Err(ScreenRecError::ConfigError("FFmpeg validation failed: dyld: missing library".to_string()))
    );
    assert_eq!(
        validate_ffmpeg(&out(false, false, "", "No such file or directory")),
        Err(ScreenRecError::ConfigError("Failed to execute FFmpeg: No such file or directory".to_string()))
    );
}
