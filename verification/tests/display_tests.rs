use screenrec::display_info::{
    get_all_displays_with_bounds, get_display_at_cursor, largest_dimensions, DisplayBounds,
    DisplayInfo,
};
use screenrec::error::ScreenRecError;

fn two_displays() -> Vec<DisplayInfo> {
    get_all_displays_with_bounds(&vec![
        DisplayBounds { width: 1920, height: 1080, x: 0, y: 0 },
        DisplayBounds { width: 2560, height: 1440, x: -2560, y: -200 },
    ])
    .unwrap()
}

#[test]
fn test_get_all_displays_with_bounds() {
    if let Ok(displays) = get_all_displays_with_bounds(&vec![DisplayBounds {
        width: 1920,
        height: 1080,
        x: 0,
        y: 0,
    }]) {
        assert!(!displays.is_empty());
        assert!(displays[0].is_primary);
    }
}

#[test]
fn enumeration_numbers_the_displays() {
    let displays = two_displays();
    assert_eq!(
        displays,
        vec![
            DisplayInfo { index: 0, width: 1920, height: 1080, x: 0, y: 0, is_primary: true },
            DisplayInfo { index: 1, width: 2560, height: 1440, x: -2560, y: -200, is_primary: false },
        ]
    );
}

#[test]
fn enumeration_without_displays_is_a_capture_error() {
    assert_eq!(
        get_all_displays_with_bounds(&Vec::new()),
        Err(ScreenRecError::CaptureError("No displays found".to_string()))
    );
}

#[test]
fn display_at_cursor_uses_half_open_rectangles() {
    let displays = two_displays();
    assert_eq!(get_display_at_cursor(&displays, 0, 0), 0);
    assert_eq!(get_display_at_cursor(&displays, 1919, 1079), 0);
    assert_eq!(get_display_at_cursor(&displays, -1, 0), 1);
    assert_eq!(get_display_at_cursor(&displays, -2560, -200), 1);
    assert_eq!(get_display_at_cursor(&displays, -1, 1239), 1);
    assert_eq!(get_display_at_cursor(&displays, -1, 1240), 0);
    assert_eq!(get_display_at_cursor(&displays, 1920, 0), 0);
    assert_eq!(get_display_at_cursor(&displays, 5000, 5000), 0);
    assert_eq!(get_display_at_cursor(&displays, i32::MIN, i32::MAX), 0);
    assert_eq!(get_display_at_cursor(&Vec::new(), 3, 3), 0);
}

#[test]
fn display_at_cursor_takes_the_first_of_overlapping_displays() {
    let displays = vec![
        DisplayInfo { index: 7, width: 10, height: 10, x: 100, y: 100, is_primary: false },
        DisplayInfo { index: 3, width: 10, height: 10, x: 105, y: 105, is_primary: false },
    ];
    assert_eq!(get_display_at_cursor(&displays, 106, 106), 7);
    assert_eq!(get_display_at_cursor(&displays, 112, 112), 3);
    assert_eq!(get_display_at_cursor(&displays, 99, 99), 0);
}

#[test]
fn display_at_the_edge_of_the_coordinate_range() {
    let displays = vec![DisplayInfo {
        index: 4,
        width: 100,
        height: 100,
        x: i32::MAX - 10,
        y: i32::MAX - 10,
        is_primary: false,
    }];
    assert_eq!(get_display_at_cursor(&displays, i32::MAX, i32::MAX), 4);
    assert!(displays[0].contains_point(i32::MAX - 10, i32::MAX));
    assert!(!displays[0].contains_point(i32::MAX - 11, i32::MAX));
}

#[test]
fn largest_dimensions_are_taken_side_by_side() {
    let displays = vec![
        DisplayInfo { index: 0, width: 3000, height: 1000, x: 0, y: 0, is_primary: true },
        DisplayInfo { index: 1, width: 2000, height: 1600, x: 3000, y: 0, is_primary: false },
    ];
    assert_eq!(largest_dimensions(&displays), (3000, 1600));
    assert_eq!(largest_dimensions(&Vec::new()), (0, 0));
}
