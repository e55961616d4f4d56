use screenrec::encoder::{
    classify_open_failure, configure_encoder_options, encoder_not_found, find_fallback,
    get_available_encoders, get_encoder_priority_list, is_listed, is_non_retryable,
    quality_to_bitrate, quality_to_crf, quality_to_crf_for, quality_to_crf_steep, recovery_failed,
    recovery_plan, retain_available, send_failed, EncoderInfo, EncoderOption, EncoderSelection,
    EncoderType, Platform, RetryConfig, SelectionAction,
};
use screenrec::error::ScreenRecError;

fn names(list: &[EncoderInfo]) -> Vec<&str> {
    list.iter().map(|e| e.name.as_str()).collect()
}

fn pairs(list: &[EncoderOption]) -> Vec<(&str, &str)> {
    list.iter().map(|o| (o.key.as_str(), o.value.as_str())).collect()
}

#[test]
fn priority_lists_put_hardware_first() {
    let windows = get_encoder_priority_list(Platform::Windows);
    assert_eq!(names(&windows), vec!["h264_nvenc", "h264_qsv", "h264_amf", "libx264", "h264"]);
    assert_eq!(windows.iter().map(|e| e.priority).collect::<Vec<_>>(), vec![0, 1, 2, 10, 11]);
    assert_eq!(windows[1].encoder_type, EncoderType::HardwareCpu);
    let mac = get_encoder_priority_list(Platform::MacOs);
    assert_eq!(
        mac,
        vec![
            EncoderInfo::new("h264_videotoolbox", EncoderType::HardwareGpu, 0),
            EncoderInfo::new("libx264", EncoderType::Software, 10),
            EncoderInfo::new("h264", EncoderType::Software, 11),
        ]
    );
    let linux = get_encoder_priority_list(Platform::Linux);
    assert_eq!(names(&linux), vec!["h264_vaapi", "h264_nvenc", "libx264", "h264"]);
    assert_eq!(linux.iter().map(|e| e.priority).collect::<Vec<_>>(), vec![0, 1, 10, 11]);
}

#[test]
fn only_listed_backends_are_available() {
    let listing = " V....D h264_videotoolbox    VideoToolbox H.264 Encoder\n V....D libx264rgb           H.264 (RGB)\n V....D mpeg4                MPEG-4 part 2\n";
    let available = get_available_encoders(Platform::MacOs, listing);
    assert_eq!(names(&available), vec!["h264_videotoolbox"]);
    let all = " V..... h264_videotoolbox  x\n V..... libx264   y\n V..... h264 z\n";
    assert_eq!(
        names(&get_available_encoders(Platform::MacOs, all)),
        vec!["h264_videotoolbox", "libx264", "h264"]
    );
    assert!(get_available_encoders(Platform::Linux, "").is_empty());
}

#[test]
fn a_backend_is_listed_between_spaces_or_before_two() {
    assert!(is_listed(" libx264 ", "libx264"));
    assert!(is_listed("libx264  ", "libx264"));
    assert!(!is_listed("libx264", "libx264"));
    assert!(!is_listed(" libx264rgb ", "libx264"));
    assert!(!is_listed("xlibx264 ", "libx264"));
    assert!(is_listed("xlibx264  ", "libx264"));
}

#[test]
fn retain_available_keeps_the_flagged() {
    let list = get_encoder_priority_list(Platform::Windows);
    let kept = retain_available(&list, &vec![false, true, false, true]);
    assert_eq!(names(&kept), vec!["h264_qsv", "libx264"]);
    assert!(retain_available(&list, &Vec::new()).is_empty());
}

#[test]
fn retry_delays_grow_threefold() {
    let retry = RetryConfig::default();
    assert_eq!(retry.max_retries, 3);
    assert_eq!(retry.get_delay_ms(0), 0);
    assert_eq!(retry.get_delay_ms(1), 100);
    assert_eq!(retry.get_delay_ms(2), 300);
    assert_eq!(retry.get_delay_ms(3), 900);
    assert_eq!(retry.get_delay_ms(4), 2700);
    assert_eq!(retry.get_delay_ms(100), u64::MAX);
    let flat = RetryConfig { max_retries: 2, initial_delay_ms: 50, backoff_multiplier: 1 };
    assert_eq!(flat.get_delay_ms(9), 50);
    let none = RetryConfig { max_retries: 2, initial_delay_ms: 50, backoff_multiplier: 0 };
    assert_eq!(none.get_delay_ms(1), 50);
    assert_eq!(none.get_delay_ms(2), 0);
    let zero = RetryConfig { max_retries: 2, initial_delay_ms: 0, backoff_multiplier: 7 };
    assert_eq!(zero.get_delay_ms(3), 0);
}

#[test]
fn quality_maps_to_rate_factors() {
    assert_eq!(quality_to_crf(1), 35);
    assert_eq!(quality_to_crf(2), 35);
    assert_eq!(quality_to_crf(3), 33);
    assert_eq!(quality_to_crf(5), 27);
    assert_eq!(quality_to_crf(8), 18);
    assert_eq!(quality_to_crf(10), 12);
    assert_eq!(quality_to_crf(0), 35);
    assert_eq!(quality_to_crf(255), 12);
    assert_eq!(quality_to_crf_steep(1), 28);
    assert_eq!(quality_to_crf_steep(5), 19);
    assert_eq!(quality_to_crf_steep(8), 13);
    assert_eq!(quality_to_crf_steep(10), 8);
    assert_eq!(quality_to_crf_steep(0), 28);
    assert_eq!(quality_to_crf_steep(200), 8);
    assert_eq!(quality_to_crf_for(Platform::Windows, 8), 13);
    assert_eq!(quality_to_crf_for(Platform::Linux, 8), 18);
    assert_eq!(quality_to_crf_for(Platform::MacOs, 8), 18);
}

#[test]
fn quality_maps_to_bitrates() {
    assert_eq!(quality_to_bitrate(10, 1920, 1080, 30), "18M");
    assert_eq!(quality_to_bitrate(1, 1920, 1080, 30), "4M");
    assert_eq!(quality_to_bitrate(5, 3840, 2160, 60), "89M");
    assert_eq!(quality_to_bitrate(5, 0, 1080, 60), "0M");
    assert_eq!(quality_to_bitrate(0, 1920, 1080, 30), "4M");
    assert_eq!(quality_to_bitrate(10, usize::MAX, usize::MAX, u32::MAX), "4294967295M");
}

#[test]
fn software_encoder_options() {
    let opts = configure_encoder_options("libx264", 8, 30, Platform::Linux);
    assert_eq!(
        pairs(&opts),
        vec![
            ("crf", "18"),
            ("preset", "slow"),
            ("profile", "high"),
            ("g", "60"),
            ("keyint_min", "60"),
            ("bf", "0"),
            ("refs", "3"),
            ("sc_threshold", "0"),
            ("qmin", "10"),
            ("qmax", "25"),
            ("crf_max", "18"),
            ("movflags", "+faststart"),
        ]
    );
    let steep = configure_encoder_options("libx264", 8, 30, Platform::Windows);
    assert_eq!(pairs(&steep)[0], ("crf", "13"));
}

#[test]
fn hardware_encoder_options() {
    assert_eq!(
        pairs(&configure_encoder_options("h264_videotoolbox", 10, 24, Platform::MacOs)),
        vec![("q:v", "12"), ("profile", "high"), ("allow_sw", "1"), ("g", "48")]
    );
    assert_eq!(
        pairs(&configure_encoder_options("h264_nvenc", 5, 30, Platform::Linux)),
        vec![
            ("cq", "27"),
            ("preset", "p4"),
            ("tune", "hq"),
            ("profile", "high"),
            ("g", "60"),
            ("bf", "0")
        ]
    );
    assert_eq!(
        pairs(&configure_encoder_options("h264_qsv", 5, 30, Platform::Windows)),
        vec![("global_quality", "19"), ("preset", "medium"), ("g", "60")]
    );
    assert_eq!(
        pairs(&configure_encoder_options("h264_amf", 5, 30, Platform::Windows)),
        vec![
            ("qp_i", "19"),
            ("qp_p", "19"),
            ("quality", "quality"),
            ("profile", "high"),
            ("gops_per_idr", "1"),
            ("keyint_min", "60")
        ]
    );
    assert_eq!(
        pairs(&configure_encoder_options("h264_vaapi", 1, 15, Platform::Linux)),
        vec![("qp", "35"), ("quality", "1"), ("g", "30")]
    );
    assert_eq!(
        pairs(&configure_encoder_options("h264_mf", 7, 30, Platform::Windows)),
        vec![("rate_control", "quality"), ("quality", "70"), ("low_latency", "1"), ("g", "30")]
    );
    assert_eq!(
        pairs(&configure_encoder_options("h264_mf", 200, 30, Platform::Windows))[1],
        ("quality", "100")
    );
    assert_eq!(
        pairs(&configure_encoder_options("h264", 5, 30, Platform::Linux)),
        vec![("crf", "27"), ("preset", "medium")]
    );
    assert_eq!(
        pairs(&configure_encoder_options("libx264", 5, u32::MAX, Platform::Linux))[3],
        ("g", "8589934590")
    );
}

#[test]
fn open_failures_are_classified() {
    assert_eq!(
        classify_open_failure("h264_nvenc", "device busy"),
        ScreenRecError::EncoderBusy("Encoder 'h264_nvenc' is busy: device busy".to_string())
    );
    assert_eq!(
        classify_open_failure("h264_nvenc", "resource in use"),
        ScreenRecError::EncoderBusy("Encoder 'h264_nvenc' is busy: resource in use".to_string())
    );
    assert_eq!(
        classify_open_failure("libx264", "Invalid argument"),
        ScreenRecError::EncodingError(
            "Failed to open encoder 'libx264': Invalid argument".to_string()
        )
    );
    assert_eq!(
        encoder_not_found("h264_amf"),
        ScreenRecError::HardwareEncoderUnavailable("Encoder 'h264_amf' not found".to_string())
    );
}

#[test]
fn missing_backends_are_not_retried() {
    assert!(is_non_retryable(&encoder_not_found("x")));
    assert!(is_non_retryable(&ScreenRecError::EncodingError("No such device".to_string())));
    assert!(is_non_retryable(&ScreenRecError::EncodingError("no such device".to_string())));
    assert!(!is_non_retryable(&ScreenRecError::EncoderBusy("busy".to_string())));
    assert!(!is_non_retryable(&ScreenRecError::EncodingError("Not Found".to_string())));
}

fn expect_try(action: SelectionAction, name: &str, delay: u64) {
    match action {
        SelectionAction::TryInit { encoder, delay_ms } => {
            assert_eq!(encoder.name, name);
            assert_eq!(delay_ms, delay);
        }
        _ => panic!("attempt expected"),
    }
}

#[test]
fn selection_retries_then_falls_back() {
    let busy = ScreenRecError::EncoderBusy("busy".to_string());
    let (mut selection, first) =
        EncoderSelection::start(get_encoder_priority_list(Platform::MacOs), RetryConfig::default());
    expect_try(first, "h264_videotoolbox", 0);
    expect_try(selection.on_init_result(Some(&busy)), "h264_videotoolbox", 100);
    expect_try(selection.on_init_result(Some(&busy)), "h264_videotoolbox", 300);
    expect_try(selection.on_init_result(Some(&busy)), "h264_videotoolbox", 900);
    expect_try(selection.on_init_result(Some(&busy)), "libx264", 0);
    match selection.on_init_result(None) {
        SelectionAction::Selected(e) => {
            assert_eq!(e, EncoderInfo::new("libx264", EncoderType::Software, 10))
        }
        _ => panic!("selection expected"),
    }
}

#[test]
fn selection_skips_a_backend_that_does_not_exist() {
    let (mut selection, first) =
        EncoderSelection::start(get_encoder_priority_list(Platform::Linux), RetryConfig::default());
    expect_try(first, "h264_vaapi", 0);
    expect_try(selection.on_init_result(Some(&encoder_not_found("h264_vaapi"))), "h264_nvenc", 0);
    match selection.on_init_result(None) {
        SelectionAction::Selected(e) => assert_eq!(e.name, "h264_nvenc"),
        _ => panic!("selection expected"),
    }
}

#[test]
fn selection_gives_up_with_the_names_it_tried() {
    let gone = encoder_not_found("any");
    let (mut selection, _) =
        EncoderSelection::start(get_encoder_priority_list(Platform::MacOs), RetryConfig::default());
    selection.on_init_result(Some(&gone));
    selection.on_init_result(Some(&gone));
    match selection.on_init_result(Some(&gone)) {
        SelectionAction::GiveUp(e) => assert_eq!(
            e,
            ScreenRecError::EncodingError(
                "All encoders failed. Tried: [\"h264_videotoolbox\", \"libx264\", \"h264\"]"
                    .to_string()
            )
        ),
        _ => panic!("failure expected"),
    }
    let (_, nothing) = EncoderSelection::start(Vec::new(), RetryConfig::default());
    match nothing {
        SelectionAction::GiveUp(e) => assert_eq!(
            e,
            ScreenRecError::EncodingError("No H.264 encoders available on this system".to_string())
        ),
        _ => panic!("failure expected"),
    }
}

#[test]
fn fallback_is_the_next_backend_below() {
    let list = get_encoder_priority_list(Platform::Windows);
    assert_eq!(find_fallback(&list, 0).unwrap().name, "h264_qsv");
    assert_eq!(find_fallback(&list, 2).unwrap().name, "libx264");
    assert_eq!(find_fallback(&list, 5).unwrap().name, "libx264");
    assert_eq!(find_fallback(&list, 10).unwrap().name, "h264");
    assert_eq!(find_fallback(&list, 11), None);
    assert_eq!(find_fallback(&Vec::new(), 0), None);
    assert_eq!(recovery_plan(&list, &list[3]).unwrap().name, "h264");
    assert_eq!(
        recovery_plan(&list, &list[4]),
        Err(ScreenRecError::EncoderRuntimeFailure("No fallback encoder available".to_string()))
    );
}

#[test]
fn runtime_failures_are_worded() {
    assert_eq!(
        recovery_failed(&ScreenRecError::EncodingError("x".to_string())),
        ScreenRecError::EncoderRuntimeFailure(
            "Failed to recover encoder: Encoding error: x".to_string()
        )
    );
    assert_eq!(
        send_failed("EAGAIN", false),
        ScreenRecError::EncoderRuntimeFailure("Failed to send frame: EAGAIN".to_string())
    );
    assert_eq!(
        send_failed("EAGAIN", true),
        ScreenRecError::EncoderRuntimeFailure(
            "Failed to send frame after recovery: EAGAIN".to_string()
        )
    );
}
