use screenrec::db::{migration_statements, Database};

fn add_frame(db: &mut Database, device: &str, at: i64) -> i64 {
    db.insert_frame(device, Some(at), 0, false, None, None, Some(0), Some(1920), Some(1080)).unwrap()
}

#[test]
fn offsets_count_up_within_each_chunk() {
    let mut db = Database::new();
    let a = db.insert_video_chunk("a.mp4", "mac", Some("task"), Some("A"), Some(0), None, Some(30), 10).unwrap();
    let first = add_frame(&mut db, "mac", 1);
    add_frame(&mut db, "mac", 2);
    let b = db.insert_video_chunk("b.mp4", "mac", Some("task"), Some("A"), Some(1), None, Some(30), 20).unwrap();
    add_frame(&mut db, "mac", 3);
    add_frame(&mut db, "mac", 4);
    add_frame(&mut db, "mac", 5);
    assert_eq!((a, b, first), (1, 2, 1));
    let offsets = |id| db.get_frames_by_chunk(id).iter().map(|f| f.offset_index).collect::<Vec<_>>();
    assert_eq!(offsets(a), vec![0, 1]);
    assert_eq!(offsets(b), vec![0, 1, 2]);
    assert_eq!(offsets(99), Vec::<i64>::new());
    let frame = db.get_frame(4).unwrap();
    assert_eq!((frame.video_chunk_id, frame.offset_index, frame.timestamp), (b, 1, 4));
    assert_eq!(frame.file_path, "b.mp4");
    assert_eq!(frame.device_name, Some("mac".to_string()));
    assert_eq!((frame.display_width, frame.display_height), (Some(1920), Some(1080)));
    assert!(db.get_frame(6).is_err());
}

#[test]
fn two_tasks_in_parallel_do_not_share_offsets() {
    let mut db = Database::new();
    let a = db.insert_video_chunk("a0.mp4", "host-a", Some("task"), Some("A"), Some(0), None, Some(30), 0).unwrap();
    let b = db.insert_video_chunk("b0.mp4", "host-b", Some("task"), Some("B"), Some(0), None, Some(30), 0).unwrap();
    for n in 0..50 {
        add_frame(&mut db, "host-a", n);
        add_frame(&mut db, "host-b", n);
        if n % 3 == 0 {
            add_frame(&mut db, "host-b", n);
        }
    }
    let a_frames = db.get_frames_by_task_id("A");
    let b_frames = db.get_frames_by_task_id("B");
    assert_eq!(a_frames.len(), 50);
    assert_eq!(b_frames.len(), 67);
    assert!(a_frames.iter().enumerate().all(|(k, f)| f.offset_index == k as i64 && f.video_chunk_id == a));
    assert!(b_frames.iter().enumerate().all(|(k, f)| f.offset_index == k as i64 && f.video_chunk_id == b));
}

#[test]
fn frames_need_a_chunk_on_their_device() {
    let mut db = Database::new();
    assert!(db.insert_frame("mac", None, 5, true, None, None, None, None, None).is_err());
    db.insert_video_chunk("a.mp4", "pc", None, None, None, None, None, 0).unwrap();
    assert!(db.insert_frame("mac", None, 5, true, None, None, None, None, None).is_err());
    assert!(db.frames.is_empty());
    let id = db.insert_frame("pc", None, 5, true, Some(7), Some(6), None, None, None).unwrap();
    let frame = db.get_frame(id).unwrap();
    assert_eq!((frame.timestamp, frame.is_keyframe, frame.pts, frame.dts), (5, 1, Some(7), Some(6)));
    assert_eq!(db.get_current_chunk_id("pc"), Some(1));
    assert_eq!(db.get_current_chunk_id("mac"), None);
}

#[test]
fn the_latest_chunk_of_a_device_takes_the_frames() {
    let mut db = Database::new();
    db.insert_video_chunk("a.mp4", "pc", None, None, None, None, None, 0).unwrap();
    db.insert_video_chunk("b.mp4", "mac", None, None, None, None, None, 0).unwrap();
    db.insert_video_chunk("c.mp4", "pc", None, None, None, None, None, 0).unwrap();
    assert_eq!(db.get_current_chunk_id("pc"), Some(3));
    assert_eq!(db.get_current_chunk_id("mac"), Some(2));
    add_frame(&mut db, "pc", 0);
    assert_eq!(db.get_frames_by_chunk(3).len(), 1);
    assert_eq!(db.get_frames_by_chunk(1).len(), 0);
}

#[test]
fn deleting_a_chunk_deletes_its_frames() {
    let mut db = Database::new();
    let a = db.insert_video_chunk("a.mp4", "pc", None, Some("T"), None, None, None, 0).unwrap();
    add_frame(&mut db, "pc", 0);
    add_frame(&mut db, "pc", 1);
    let b = db.insert_video_chunk("b.mp4", "pc", None, Some("T"), None, None, None, 1).unwrap();
    add_frame(&mut db, "pc", 2);
    db.delete_chunk(a);
    assert_eq!(db.chunks.len(), 1);
    assert_eq!(db.chunks[0].id, b);
    assert_eq!(db.frames.len(), 1);
    assert_eq!(db.frames[0].video_chunk_id, b);
    assert_eq!(db.frames[0].offset_index, 0);
    db.delete_chunk(77);
    assert_eq!(db.chunks.len(), 1);
    let next = add_frame(&mut db, "pc", 3);
    assert_eq!(next, 4);
    assert_eq!(db.get_frame(next).unwrap().offset_index, 1);
    let c = db.insert_video_chunk("c.mp4", "pc", None, None, None, None, None, 2).unwrap();
    assert_eq!(c, 3);
}

#[test]
fn chunks_of_a_task_come_in_order_of_creation() {
    let mut db = Database::new();
    db.insert_video_chunk("late.mp4", "pc", None, Some("T"), Some(0), None, Some(30), 300).unwrap();
    db.insert_video_chunk("other.mp4", "pc", None, Some("U"), Some(0), None, Some(30), 50).unwrap();
    db.insert_video_chunk("early.mp4", "pc", None, Some("T"), Some(1), None, None, 100).unwrap();
    db.insert_video_chunk("tie-a.mp4", "pc", None, Some("T"), Some(2), None, None, 200).unwrap();
    db.insert_video_chunk("none.mp4", "pc", None, None, Some(3), None, None, 10).unwrap();
    db.insert_video_chunk("tie-b.mp4", "pc", None, Some("T"), Some(4), None, None, 200).unwrap();
    let files: Vec<String> = db.get_chunks_by_task_id("T").into_iter().map(|c| c.file_path).collect();
    assert_eq!(files, vec!["early.mp4", "tie-a.mp4", "tie-b.mp4", "late.mp4"]);
    assert!(db.get_chunks_by_task_id("missing").is_empty());
    assert_eq!(db.get_chunks_by_task_id("U").len(), 1);
}

#[test]
fn frames_of_a_task_come_by_chunk_time_then_offset() {
    let mut db = Database::new();
    db.insert_video_chunk("second.mp4", "pc", None, Some("T"), None, None, None, 200).unwrap();
    add_frame(&mut db, "pc", 1);
    add_frame(&mut db, "pc", 2);
    db.insert_video_chunk("first.mp4", "pc", None, Some("T"), None, None, None, 100).unwrap();
    add_frame(&mut db, "pc", 3);
    db.insert_video_chunk("other.mp4", "pc", None, Some("U"), None, None, None, 50).unwrap();
    add_frame(&mut db, "pc", 4);
    let got: Vec<(String, i64)> =
        db.get_frames_by_task_id("T").into_iter().map(|f| (f.file_path, f.offset_index)).collect();
    assert_eq!(
        got,
        vec![("first.mp4".to_string(), 0), ("second.mp4".to_string(), 0), ("second.mp4".to_string(), 1)]
    );
}

#[test]
fn recording_time_sums_the_complete_sessions() {
    let mut db = Database::new();
    let s1 = db.create_recording_session("T", "pc", 1_000).unwrap();
    let s2 = db.create_recording_session("T", "pc", 10_000).unwrap();
    let s3 = db.create_recording_session("U", "pc", 20_000).unwrap();
    let s4 = db.create_recording_session("T", "pc", 30_000).unwrap();
    assert_eq!((s1, s2, s3, s4), (1, 2, 3, 4));
    assert_eq!(db.get_total_recording_time("T"), Ok(0));
    db.end_recording_session(s1, 4_500);
    db.end_recording_session(s3, 99_000);
    db.end_recording_session(s4, 31_250);
    assert_eq!(db.get_total_recording_time("T"), Ok(3_500 + 1_250));
    assert_eq!(db.get_total_recording_time("U"), Ok(79_000));
    assert_eq!(db.get_total_recording_time("none"), Ok(0));
    let sessions = db.get_sessions_for_task("T");
    assert_eq!(sessions.len(), 3);
    assert_eq!(sessions[0].ended_at, Some(4_500));
    assert_eq!(sessions[1].ended_at, None);
    assert!(sessions.iter().all(|s| s.ended_at.map_or(true, |e| e > s.started_at)));
    db.end_recording_session(s1, 5_000);
    db.end_recording_session(99, 5_000);
    assert_eq!(db.get_total_recording_time("T"), Ok(4_000 + 1_250));
}

#[test]
fn recording_time_out_of_range_is_an_error() {
    let mut db = Database::new();
    let a = db.create_recording_session("T", "pc", i64::MIN).unwrap();
    db.end_recording_session(a, i64::MAX);
    assert!(db.get_total_recording_time("T").is_err());
    let b = db.create_recording_session("T", "pc", i64::MAX).unwrap();
    db.end_recording_session(b, i64::MIN + 5);
    assert!(db.get_total_recording_time("T").is_err());
    let mut backwards = Database::new();
    let c = backwards.create_recording_session("T", "pc", 10).unwrap();
    backwards.end_recording_session(c, 0);
    let d = backwards.create_recording_session("T", "pc", 0).unwrap();
    backwards.end_recording_session(d, 14);
    assert_eq!(backwards.get_total_recording_time("T"), Ok(4));
}

#[test]
fn migration_adds_only_the_missing_columns() {
    let old: Vec<String> = ["id", "video_chunk_id", "offset_index", "timestamp"].iter().map(|s| s.to_string()).collect();
    assert_eq!(
        migration_statements(&old),
        vec![
            "ALTER TABLE frames ADD COLUMN display_index INTEGER DEFAULT 0",
            "ALTER TABLE frames ADD COLUMN display_width INTEGER",
            "ALTER TABLE frames ADD COLUMN display_height INTEGER",
        ]
    );
    let partial: Vec<String> = ["id", "display_width"].iter().map(|s| s.to_string()).collect();
    assert_eq!(
        migration_statements(&partial),
        vec![
            "ALTER TABLE frames ADD COLUMN display_index INTEGER DEFAULT 0",
            "ALTER TABLE frames ADD COLUMN display_height INTEGER",
        ]
    );
    let current: Vec<String> =
        ["display_height", "display_index", "display_width"].iter().map(|s| s.to_string()).collect();
    assert!(migration_statements(&current).is_empty());
    assert_eq!(migration_statements(&migration_statements(&current)).len(), 3);
}

#[test]
fn the_schema_has_three_tables_and_two_indexes() {
    let statements = screenrec::db::schema_statements();
    assert_eq!(statements.len(), 5);
    assert!(statements[0].starts_with("CREATE TABLE IF NOT EXISTS recording_sessions ("));
    assert!(statements[1].starts_with("CREATE TABLE IF NOT EXISTS video_chunks ("));
    assert!(statements[2].starts_with("CREATE TABLE IF NOT EXISTS frames ("));
    assert!(statements[2].contains("ON DELETE CASCADE"));
    assert_eq!(statements[3], "CREATE INDEX IF NOT EXISTS idx_frames_video_chunk_id ON frames(video_chunk_id)");
    assert_eq!(
        statements[4],
        "CREATE INDEX IF NOT EXISTS idx_frames_keyframe ON frames(is_keyframe) WHERE is_keyframe = 1"
    );
}

#[test]
fn every_stored_frame_has_one_row_and_one_chunk() {
    let mut db = Database::new();
    db.insert_video_chunk("a.mp4", "mac", Some("task"), Some("A"), Some(0), None, Some(30), 10).unwrap();
    let mut ids = Vec::new();
    for n in 0..7 {
        if n == 4 {
            db.insert_video_chunk("b.mp4", "mac", Some("task"), Some("A"), Some(1), None, Some(30), 20)
                .unwrap();
        }
        ids.push(add_frame(&mut db, "mac", n));
    }
    assert_eq!(ids, vec![1, 2, 3, 4, 5, 6, 7]);
    for id in ids {
        let rows = db.frames.iter().filter(|f| f.id == id).collect::<Vec<_>>();
        assert_eq!(rows.len(), 1);
        let chunks = db.chunks.iter().filter(|c| c.id == rows[0].video_chunk_id).count();
        assert_eq!(chunks, 1);
    }
    assert_eq!(db.get_frames_by_chunk(1).len() + db.get_frames_by_chunk(2).len(), 7);
}
