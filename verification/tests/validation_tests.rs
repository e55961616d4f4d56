use screenrec::error::AppError;
use screenrec::validation::{
    parse_resolution, validate_fps, validate_output_path, validate_resolution, OutputPathFacts,
};

#[test]
fn test_validate_resolution_valid() {
    assert!(validate_resolution("1920x1080").is_ok());
    assert!(validate_resolution("3840x2160").is_ok());
    assert!(validate_resolution("1280x720").is_ok());
    assert!(validate_resolution("1x1").is_ok());
    assert!(validate_resolution("7680x4320").is_ok());
}

#[test]
fn test_validate_resolution_invalid_format() {
    assert!(validate_resolution("1920 1080").is_err());
    assert!(validate_resolution("1920X1080").is_err());
    assert!(validate_resolution("invalid").is_err());
    assert!(validate_resolution("").is_err());
    assert!(validate_resolution("1920").is_err());
    assert!(validate_resolution("1920x1080x720").is_err());
}

#[test]
fn test_validate_resolution_invalid_numbers() {
    assert!(validate_resolution("0x1080").is_err());
    assert!(validate_resolution("1920x0").is_err());
    assert!(validate_resolution("0x0").is_err());
    assert!(validate_resolution("abcx1080").is_err());
    assert!(validate_resolution("1920xabc").is_err());
}

#[test]
fn test_validate_resolution_out_of_range() {
    assert!(validate_resolution("7681x4320").is_err());
    assert!(validate_resolution("7680x4321").is_err());
    assert!(validate_resolution("10000x10000").is_err());
}

#[test]
fn test_validate_fps_valid() {
    assert!(validate_fps(1).is_ok());
    assert!(validate_fps(30).is_ok());
    assert!(validate_fps(60).is_ok());
    assert!(validate_fps(120).is_ok());
}

#[test]
fn test_validate_fps_invalid() {
    assert!(validate_fps(0).is_err());
    assert!(validate_fps(121).is_err());
    assert!(validate_fps(200).is_err());
}

#[test]
fn validate_fps_names_the_rejected_rate() {
    assert_eq!(validate_fps(200), Err(AppError::InvalidFps(200)));
    assert_eq!(validate_fps(0), Err(AppError::InvalidFps(0)));
}

#[test]
fn parse_resolution_reads_both_numbers() {
    assert_eq!(parse_resolution("1920x1080"), Some((1920, 1080)));
    assert_eq!(parse_resolution("+5x+7"), Some((5, 7)));
    assert_eq!(parse_resolution("007x08"), Some((7, 8)));
    assert_eq!(parse_resolution("4294967295x1"), Some((4294967295, 1)));
    assert_eq!(parse_resolution("4294967296x1"), None);
    assert_eq!(parse_resolution("x"), None);
    assert_eq!(parse_resolution("+x1"), None);
    assert_eq!(parse_resolution("-1x1"), None);
    assert_eq!(parse_resolution("1x"), None);
    assert_eq!(parse_resolution("1 x1"), None);
}

#[test]
fn validate_resolution_error_texts() {
    assert_eq!(
        validate_resolution("1920 1080"),
        Err(AppError::InvalidResolutionFormat("1920 1080".to_string()))
    );
    assert_eq!(
        validate_resolution("7681x4320"),
        Err(AppError::InvalidResolutionFormat(
            "7681x4320 (dimensions must be between 1x1 and 7680x4320)".to_string()
        ))
    );
}

fn facts(parent: Option<&str>, exists: bool, is_dir: bool, file: bool, writable: bool) -> OutputPathFacts {
    OutputPathFacts {
        parent: parent.map(|p| p.to_string()),
        parent_exists: exists,
        parent_is_dir: is_dir,
        is_existing_file: file,
        opens_for_writing: writable,
    }
}

#[test]
fn validate_output_path_reports_the_first_problem() {
    assert_eq!(validate_output_path("out/a.mp4", &facts(Some("out"), true, true, false, false)), Ok(()));
    assert_eq!(validate_output_path("a.mp4", &facts(None, false, false, true, true)), Ok(()));
    assert_eq!(
        validate_output_path("out/a.mp4", &facts(Some("out"), false, false, true, false)),
        Err("Output directory does not exist: out".to_string())
    );
    assert_eq!(
        validate_output_path("out/a.mp4", &facts(Some("out"), true, false, true, false)),
        Err("Output path parent is not a directory: out".to_string())
    );
    assert_eq!(
        validate_output_path("out/a.mp4", &facts(Some("out"), true, true, true, false)),
        Err("Output file exists but is not writable: out/a.mp4".to_string())
    );
}
