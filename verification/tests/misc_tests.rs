use screenrec::audio::{candidate_devices, is_system_audio_device, unsigned_to_signed, DeviceChoice};
use screenrec::cli::AudioSource;
use screenrec::interactions::{
    active_window_labels, button_name, format_key, interaction_totals, keyboard_event,
    scroll_label, Key, MouseButton, MovementSampler,
};
use screenrec::screenshot::{check_monitor, format_for_extension, rgba_to_rgb, ImageFormat};

#[test]
fn keys_have_their_names() {
    assert_eq!(format_key(Key::Alt), "Alt");
    assert_eq!(format_key(Key::ControlLeft), "CtrlLeft");
    assert_eq!(format_key(Key::Return), "Enter");
    assert_eq!(format_key(Key::Escape), "Esc");
    assert_eq!(format_key(Key::DownArrow), "Down");
    assert_eq!(format_key(Key::BackQuote), "`");
    assert_eq!(format_key(Key::Num0), "0");
    assert_eq!(format_key(Key::KeyQ), "Q");
    assert_eq!(format_key(Key::Quote), "'");
    assert_eq!(format_key(Key::BackSlash), "\\");
    assert_eq!(format_key(Key::KpReturn), "KpEnter");
    assert_eq!(format_key(Key::KpMultiply), "Kp*");
    assert_eq!(format_key(Key::Function), "Function");
    assert_eq!(format_key(Key::Unknown(0)), "Unknown(0)");
    assert_eq!(format_key(Key::Unknown(4294967295)), "Unknown(4294967295)");
}

#[test]
fn keyboard_events_carry_the_key_name() {
    let down = keyboard_event(1500, Key::Space, true);
    assert_eq!((down.timestamp_ms, down.key.as_str(), down.event_type.as_str()), (1500, "Space", "press"));
    let up = keyboard_event(1600, Key::F12, false);
    assert_eq!((up.key.as_str(), up.event_type.as_str()), ("F12", "release"));
}

#[test]
fn every_fifth_movement_is_kept() {
    let mut sampler = MovementSampler::new();
    let kept: Vec<bool> = (0..11).map(|_| sampler.on_move()).collect();
    assert_eq!(
        kept,
        vec![false, false, false, false, true, false, false, false, false, true, false]
    );
    let mut full = MovementSampler { counter: usize::MAX, sample_rate: 5 };
    assert!(full.on_move());
    assert_eq!(full.counter, 0);
}

#[test]
fn totals_count_moves_and_clicks() {
    let kinds: Vec<String> =
        ["move", "click", "release", "move", "scroll(0, 1)", "click", "move", "Move"].iter().map(|s| s.to_string()).collect();
    let totals = interaction_totals("2024-01-01T00:00:00+00:00", &kinds, 12);
    assert_eq!(totals.started_at, "2024-01-01T00:00:00+00:00");
    assert_eq!(totals.total_mouse_moves, 3);
    assert_eq!(totals.total_mouse_clicks, 2);
    assert_eq!(totals.total_keyboard_events, 12);
    let none = interaction_totals("", &Vec::new(), 0);
    assert_eq!((none.total_mouse_moves, none.total_mouse_clicks), (0, 0));
}

#[test]
fn the_window_in_front_is_labelled() {
    assert_eq!(active_window_labels(None), ("Unknown".to_string(), String::new()));
    assert_eq!(active_window_labels(Some(("", "Untitled"))), ("Unknown".to_string(), "Untitled".to_string()));
    assert_eq!(active_window_labels(Some(("Safari", ""))), ("Safari".to_string(), String::new()));
}

#[test]
fn unsigned_samples_are_centred() {
    assert_eq!(unsigned_to_signed(&[0, 1, 32767, 32768, 32769, 65535]), vec![-32768, -32767, -1, 0, 1, 32767]);
    assert_eq!(unsigned_to_signed(&[]), Vec::<i16>::new());
}

#[test]
fn loopback_devices_carry_system_audio() {
    assert!(is_system_audio_device("BlackHole 2ch", false));
    assert!(is_system_audio_device("Soundflower (64ch)", false));
    assert!(is_system_audio_device("Rogue Loopback Audio", false));
    assert!(!is_system_audio_device("MacBook Pro Microphone", false));
    assert!(!is_system_audio_device("Stereo Mix (Realtek)", false));
    assert!(is_system_audio_device("Stereo Mix (Realtek)", true));
    assert!(is_system_audio_device("What U Hear", true));
    assert!(!is_system_audio_device("BlackHole 2ch", true));
}

#[test]
fn screenshots_are_png_unless_jpeg_is_asked_for() {
    assert_eq!(format_for_extension("jpg"), ImageFormat::Jpeg);
    assert_eq!(format_for_extension("jpeg"), ImageFormat::Jpeg);
    assert_eq!(format_for_extension("png"), ImageFormat::Png);
    assert_eq!(format_for_extension(""), ImageFormat::Png);
    assert_eq!(format_for_extension("JPG"), ImageFormat::Png);
    assert_eq!(format_for_extension("bmp"), ImageFormat::Png);
}

#[test]
fn the_monitor_must_be_there() {
    assert_eq!(check_monitor(0, 1), Ok(()));
    assert_eq!(check_monitor(2, 3), Ok(()));
    assert_eq!(
        check_monitor(3, 3),
        Err("Monitor index 3 is out of range. Available monitors: 0-2".to_string())
    );
    assert_eq!(
        check_monitor(0, 0),
        Err("No displays found. Please ensure you have at least one display connected.".to_string())
    );
}

#[test]
fn alpha_is_dropped() {
    assert_eq!(rgba_to_rgb(&[1, 2, 3, 4, 5, 6, 7, 8, 9]), vec![1, 2, 3, 5, 6, 7]);
    assert_eq!(rgba_to_rgb(&[]), Vec::<u8>::new());
}

#[test]
fn buttons_and_wheel_turns_are_named() {
    assert_eq!(button_name(MouseButton::Left), "left");
    assert_eq!(button_name(MouseButton::Right), "right");
    assert_eq!(button_name(MouseButton::Middle), "middle");
    assert_eq!(
        button_name(MouseButton::Unknown(7)),
        "unknown(7)"
    );
    assert_eq!(scroll_label(0, -3), "scroll(0, -3)");
    assert_eq!(scroll_label(12, 1), "scroll(12, 1)");
}

#[test]
fn audio_devices_are_tried_in_order() {
    let names: Vec<String> = ["Built-in Mic", "BlackHole 2ch", "USB Mic", "Loopback Audio", "Built-in Mic"]
        .iter()
        .map(|s| s.to_string())
        .collect();
    let input = DeviceChoice::Input;
    let default = DeviceChoice::Default;
    let order = |source, default_name: Option<&str>, windows| {
        candidate_devices(source, default_name, &names, windows)
    };
    assert_eq!(order(AudioSource::Disabled, Some("USB Mic"), false), vec![]);
    assert_eq!(
        order(AudioSource::Mic, Some("USB Mic"), false),
        vec![default, input(0), input(1), input(3)]
    );
    assert_eq!(
        order(AudioSource::Both, None, false),
        vec![input(0), input(1), input(2), input(3)]
    );
    assert_eq!(
        order(AudioSource::Mic, Some("Default Input"), false),
        vec![default, input(0), input(1), input(2), input(3)]
    );
    assert_eq!(order(AudioSource::System, Some("USB Mic"), false), vec![input(1), input(3)]);
    assert_eq!(order(AudioSource::Mic, Some("Built-in Mic"), false), vec![default, input(1), input(2), input(3)]);
    assert_eq!(order(AudioSource::System, Some("USB Mic"), true), vec![default]);
    assert_eq!(order(AudioSource::System, None, true), vec![]);
}
