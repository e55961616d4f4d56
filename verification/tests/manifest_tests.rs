use screenrec::concat::{resolution_usage, Resolution, ResolutionUse, ToolOutput};
use screenrec::db::{Database, FrameInfo};
use screenrec::manifest::{
    build_manifest, final_resolution, format_hms, frame_entries, frame_stats, number_or_zero,
    overhead_ms, read_probe, time_text_of, timestamp_text, video_codec_of, StreamEntry,
};

fn frame(display: Option<i64>, key: i32) -> FrameInfo {
    FrameInfo {
        id: 0,
        video_chunk_id: 1,
        offset_index: 0,
        timestamp: 0,
        device_name: None,
        file_path: String::new(),
        is_keyframe: key,
        pts: None,
        dts: None,
        display_index: display,
        display_width: None,
        display_height: None,
    }
}

fn output(stdout: &str) -> ToolOutput {
    ToolOutput { ran: true, success: true, stdout: stdout.to_string(), stderr: String::new() }
}

#[test]
fn the_probe_report_is_read() {
    let report = r#"{"streams":[{"codec_type":"audio","codec_name":"aac"},{"codec_type":"video","codec_name":"h264"},{"codec_type":"video","codec_name":"hevc"}],"format":{"duration":"12.500000","bit_rate":"4000000","size":"6250000"}}"#;
    let summary = read_probe(&output(report));
    assert_eq!(summary.duration_text, Some("12.500000".to_string()));
    assert_eq!(summary.bit_rate, 4_000_000);
    assert_eq!(summary.size, 6_250_000);
    assert_eq!(summary.codec, "h264");
}

#[test]
fn a_poor_probe_report_gives_defaults() {
    let partial = read_probe(&output(r#"{"streams":[{"codec_type":"video"}],"format":{"bit_rate":"fast","size":7}}"#));
    assert_eq!(partial.duration_text, None);
    assert_eq!(partial.bit_rate, 0);
    assert_eq!(partial.size, 0);
    assert_eq!(partial.codec, "unknown");
    let no_video = read_probe(&output(r#"{"streams":[{"codec_type":"audio","codec_name":"aac"}]}"#));
    assert_eq!(no_video.codec, "");
    let odd = read_probe(&output(r#"{"streams":{"0":{"codec_type":"video","codec_name":"h264"}}}"#));
    assert_eq!(odd.codec, "");
    let broken = read_probe(&output("not json"));
    assert_eq!((broken.duration_text, broken.bit_rate, broken.size), (None, 0, 0));
    assert_eq!(broken.codec, "");
    let failed = ToolOutput {
        ran: true,
        success: false,
        stdout: r#"{"format":{"size":"9"}}"#.to_string(),
        stderr: String::new(),
    };
    assert_eq!(read_probe(&failed).size, 0);
}

#[test]
fn probe_numbers_default_to_zero() {
    assert_eq!(number_or_zero(&Some("-42".to_string())), -42);
    assert_eq!(number_or_zero(&Some("4.5".to_string())), 0);
    assert_eq!(number_or_zero(&Some(String::new())), 0);
    assert_eq!(number_or_zero(&None), 0);
}

#[test]
fn the_first_video_stream_names_the_codec() {
    let entry = |t: Option<&str>, n: Option<&str>| StreamEntry {
        codec_type: t.map(|s| s.to_string()),
        codec_name: n.map(|s| s.to_string()),
    };
    assert_eq!(video_codec_of(&Vec::new()), "");
    assert_eq!(video_codec_of(&vec![entry(None, Some("h264")), entry(Some("Video"), Some("x"))]), "");
    assert_eq!(
        video_codec_of(&vec![entry(Some("data"), None), entry(Some("video"), None), entry(Some("video"), Some("h264"))]),
        "unknown"
    );
}

#[test]
fn frame_statistics() {
    let frames = vec![
        frame(Some(0), 1),
        frame(Some(1), 0),
        frame(None, 0),
        frame(Some(0), 2),
        frame(Some(1), 1),
        frame(Some(3), 0),
        frame(Some(0), 0),
    ];
    let stats = frame_stats(&frames);
    assert_eq!(stats.total_count, 7);
    assert_eq!(stats.keyframe_count, 2);
    assert_eq!(stats.keyframe_interval, 3);
    assert_eq!(stats.displays, vec![0, 1, 3]);
    let none = frame_stats(&Vec::new());
    assert_eq!((none.total_count, none.keyframe_count, none.keyframe_interval), (0, 0, 0));
    assert!(none.displays.is_empty());
    let no_keys = frame_stats(&vec![frame(None, 0)]);
    assert_eq!(no_keys.keyframe_interval, 0);
}

#[test]
fn the_final_resolution_follows_the_frames() {
    let small = ResolutionUse { resolution: Resolution { width: 1920, height: 1080 }, frame_count: 9 };
    let large = ResolutionUse { resolution: Resolution { width: 2560, height: 1440 }, frame_count: 1 };
    assert_eq!(final_resolution(&Vec::new()), None);
    assert_eq!(final_resolution(&vec![small]), Some(small.resolution));
    assert_eq!(final_resolution(&vec![small, large]), Some(large.resolution));
}

#[test]
fn overhead_is_never_negative() {
    assert_eq!(overhead_ms(10_000, 9_500), 500);
    assert_eq!(overhead_ms(9_500, 10_000), 0);
    assert_eq!(overhead_ms(5, 5), 0);
    assert_eq!(overhead_ms(i64::MAX, i64::MIN), i64::MAX);
    assert_eq!(overhead_ms(i64::MIN, i64::MAX), 0);
}

#[test]
fn durations_are_written_in_hours_minutes_seconds() {
    assert_eq!(format_hms(0), "0h 0m 0.0s");
    assert_eq!(format_hms(1_500), "0h 0m 1.5s");
    assert_eq!(format_hms(59_949), "0h 0m 59.9s");
    assert_eq!(format_hms(59_950), "0h 0m 60.0s");
    assert_eq!(format_hms(60_000), "0h 1m 0.0s");
    assert_eq!(format_hms(3_725_040), "1h 2m 5.0s");
    assert_eq!(format_hms(3_725_050), "1h 2m 5.1s");
    assert_eq!(format_hms(360_000_000), "100h 0m 0.0s");
}

#[test]
fn the_manifest_is_put_together() {
    let mut db = Database::new();
    db.insert_video_chunk("/t/a.mp4", "studio", Some("task"), Some("T"), Some(0), None, Some(24), 1_000).unwrap();
    db.insert_frame("studio", Some(1_000), 0, true, Some(0), Some(0), Some(0), Some(1920), Some(1080)).unwrap();
    db.insert_frame("studio", Some(1_040), 0, false, Some(1), Some(1), Some(0), Some(1920), Some(1080)).unwrap();
    db.insert_video_chunk("/t/b.mp4", "studio", Some("task"), Some("T"), Some(1), None, Some(24), 3_000).unwrap();
    db.insert_frame("studio", Some(3_000), 0, true, Some(0), Some(0), Some(1), Some(2560), Some(1440)).unwrap();
    let chunks = db.get_chunks_by_task_id("T");
    let frames = db.get_frames_by_task_id("T");
    let usage = resolution_usage(&frames);
    let summary = read_probe(&output(
        r#"{"streams":[{"codec_type":"video","codec_name":"h264"}],"format":{"duration":"2.000000","bit_rate":"800000","size":"200000"}}"#,
    ));
    let m = build_manifest("T", &chunks, &frames, usage.clone(), &summary, "final.mp4", 2_000, 5_250);
    assert_eq!(m.version, "1.0");
    assert_eq!(m.task_id, "T");
    assert_eq!(m.device_name, "unknown");
    assert_eq!(m.recording_type, "task");
    assert_eq!(m.created_at, "1970-01-01T00:00:01+00:00");
    assert_eq!(m.recording_time.total_ms, 5_250);
    assert_eq!(m.recording_time.total_formatted, "0h 0m 5.3s");
    assert_eq!(m.recording_time.overhead_ms, 3_250);
    assert_eq!(m.video.path, "final.mp4");
    assert_eq!(m.video.duration_ms, 2_000);
    assert_eq!(m.video.duration_formatted, "0h 0m 2.0s");
    assert_eq!((m.video.size, m.video.bitrate, m.video.fps, m.video.quality), (200_000, 800_000, 30, 8));
    assert_eq!(m.video.codec, "h264");
    assert_eq!(m.chunk_count, 2);
    assert_eq!(m.chunks.len(), 2);
    assert_eq!(
        (m.chunks[1].chunk_index, m.chunks[1].file_path.as_str(), m.chunks[1].created_at.as_str()),
        (Some(1), "/t/b.mp4", "1970-01-01T00:00:03+00:00")
    );
    assert_eq!((m.frames.total_count, m.frames.keyframe_count, m.frames.keyframe_interval), (3, 2, 1));
    assert_eq!(m.displays.monitors_used, 2);
    assert_eq!(m.displays.unique_display_indices, vec![0, 1]);
    assert!(m.displays.normalized);
    assert_eq!(m.displays.resolutions, usage);
    assert_eq!(m.displays.final_resolution, Some(Resolution { width: 2560, height: 1440 }));
    let entries = frame_entries(&frames);
    assert_eq!(entries.len(), 3);
    assert_eq!(
        (entries[1].offset, entries[1].timestamp.as_str(), entries[1].pts, entries[1].is_keyframe),
        (1, "1970-01-01T00:00:01.040+00:00", Some(1), false)
    );
    assert_eq!(entries[2].display_width, Some(2560));
    let empty = build_manifest("E", &Vec::new(), &Vec::new(), Vec::new(), &summary, "x.mp4", -5, -7);
    assert_eq!(empty.device_name, "unknown");
    assert_eq!(empty.created_at, "");
    assert_eq!(empty.recording_time.total_formatted, "0h 0m 0.0s");
    assert_eq!(empty.recording_time.overhead_ms, 0);
    assert!(!empty.displays.normalized);
    assert_eq!(empty.displays.final_resolution, None);
}

#[test]
fn times_are_written_in_utc() {
    assert_eq!(timestamp_text(0), "1970-01-01T00:00:00+00:00");
    assert_eq!(timestamp_text(1_700_000_000_123), "2023-11-14T22:13:20.123+00:00");
    assert_eq!(timestamp_text(-1), "1969-12-31T23:59:59.999+00:00");
    assert_eq!(timestamp_text(i64::MAX), "");
    assert_eq!(time_text_of(None), "");
    assert_eq!(time_text_of(Some("x".to_string())), "x");
}
