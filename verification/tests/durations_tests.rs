use screenrec::durations::{read_seconds, MAX_SECONDS, MICROS_PER_SECOND};
use screenrec::manifest::{video_micros, ProbeSummary};

#[test]
fn seconds_are_read_into_microseconds() {
    assert_eq!(read_seconds("2.000000", 3600), Some(2_000_000));
    assert_eq!(read_seconds("2", 3600), Some(2_000_000));
    assert_eq!(read_seconds("2.", 3600), Some(2_000_000));
    assert_eq!(read_seconds(".5", 3600), Some(500_000));
    assert_eq!(read_seconds("+1.25", 3600), Some(1_250_000));
    assert_eq!(read_seconds("0012.345678", 3600), Some(12_345_678));
    assert_eq!(read_seconds("1.000001", 3600), Some(1_000_001));
    assert_eq!(read_seconds("0.1", 3600), Some(100_000));
}

#[test]
fn digits_behind_the_sixth_are_cut_off() {
    assert_eq!(read_seconds("1.9999999", 3600), Some(1_999_999));
    assert_eq!(read_seconds("0.0000009", 3600), Some(0));
    assert_eq!(read_seconds("0.00000000000000000000000000000001", 3600), Some(0));
}

#[test]
fn what_is_no_positive_number_is_not_read() {
    for text in ["", ".", "+", "+.", "N/A", "abc", "1.2.3", "1,5", " 2", "2 ", "-1", "--1", "1e3", "0x10", "inf", "nan", "1.5s"] {
        assert_eq!(read_seconds(text, 3600), None, "{:?}", text);
    }
    for text in ["0", "0.0", "000.000000", "+0", ".0"] {
        assert_eq!(read_seconds(text, 3600), None, "{:?}", text);
    }
}

#[test]
fn whole_seconds_stay_below_the_limit() {
    assert_eq!(read_seconds("3599.999999", 3600), Some(3_599_999_999));
    assert_eq!(read_seconds("3600", 3600), None);
    assert_eq!(read_seconds("3600.0", 3600), None);
    assert_eq!(read_seconds("99999999999999999999999999999999", 3600), None);
    assert_eq!(read_seconds("0.5", 1), Some(500_000));
    assert_eq!(read_seconds("1.5", 1), None);
    assert_eq!(read_seconds("0.5", 0), None);
    assert_eq!(
        read_seconds("18446744073708.999999", MAX_SECONDS + 1),
        Some(MAX_SECONDS * MICROS_PER_SECOND + 999_999)
    );
    assert_eq!(read_seconds("18446744073709", MAX_SECONDS + 1), None);
}

#[test]
fn the_final_video_may_be_longer_than_a_chunk() {
    let with = |text: Option<&str>| ProbeSummary {
        duration_text: text.map(String::from),
        bit_rate: 0,
        size: 0,
        codec: String::new(),
    };
    assert_eq!(video_micros(&with(Some("7325.040000"))), 7_325_040_000);
    assert_eq!(video_micros(&with(Some("N/A"))), 0);
    assert_eq!(video_micros(&with(Some("0.000000"))), 0);
    assert_eq!(video_micros(&with(None)), 0);
}
