//! The recording catalog: sessions, chunks and frames, with the rules that
//! keep frame offsets within a chunk free of gaps and session times
//! summable.  Times are milliseconds since the Unix epoch.

use crate::error::ScreenRecError;
use crate::sorting::{is_sorted_order, key_before, lists, sorted_order, SortKey};
use crate::text::{push_text, str_eq, texts};
use vstd::prelude::*;
use vstd::string::*;

verus! {

/// A chunk row.
#[derive(Debug, Clone, PartialEq, Eq)]
pub struct VideoChunkInfo {
    pub id: i64,
    pub file_path: String,
    pub device_name: String,
    pub recording_type: Option<String>,
    pub task_id: Option<String>,
    pub chunk_index: Option<i64>,
    pub session_id: Option<i64>,
    pub fps: Option<i64>,
    pub created_at: i64,
}

/// A frame row, with the file of its chunk.
#[derive(Debug, Clone, PartialEq, Eq)]
pub struct FrameInfo {
    pub id: i64,
    pub video_chunk_id: i64,
    pub offset_index: i64,
    pub timestamp: i64,
    pub device_name: Option<String>,
    pub file_path: String,
    pub is_keyframe: i32,
    pub pts: Option<i64>,
    pub dts: Option<i64>,
    pub display_index: Option<i64>,
    pub display_width: Option<i64>,
    pub display_height: Option<i64>,
}

/// A recording session: complete once it has an end time.
#[derive(Debug, Clone, PartialEq, Eq)]
pub struct SessionInfo {
    pub id: i64,
    pub task_id: String,
    pub device_name: String,
    pub started_at: i64,
    pub ended_at: Option<i64>,
}

/// A text that may be absent, as a mathematical value.
pub open spec fn opt_text(s: Option<String>) -> Option<Seq<char>> {
    match s {
        Some(t) => Some(t@),
        None => None,
    }
}

/// A chunk row as a mathematical value.
pub struct ChunkRow {
    pub id: i64,
    pub file_path: Seq<char>,
    pub device_name: Seq<char>,
    pub recording_type: Option<Seq<char>>,
    pub task_id: Option<Seq<char>>,
    pub chunk_index: Option<i64>,
    pub session_id: Option<i64>,
    pub fps: Option<i64>,
    pub created_at: i64,
}

/// A frame row as a mathematical value.
pub struct FrameRow {
    pub id: i64,
    pub video_chunk_id: i64,
    pub offset_index: i64,
    pub timestamp: i64,
    pub device_name: Option<Seq<char>>,
    pub file_path: Seq<char>,
    pub is_keyframe: i32,
    pub pts: Option<i64>,
    pub dts: Option<i64>,
    pub display_index: Option<i64>,
    pub display_width: Option<i64>,
    pub display_height: Option<i64>,
}

/// A session row as a mathematical value.
pub struct SessionRow {
    pub id: i64,
    pub task_id: Seq<char>,
    pub device_name: Seq<char>,
    pub started_at: i64,
    pub ended_at: Option<i64>,
}

impl View for VideoChunkInfo {
    type V = ChunkRow;

    open spec fn view(&self) -> ChunkRow {
        ChunkRow {
            id: self.id,
            file_path: self.file_path@,
            device_name: self.device_name@,
            recording_type: opt_text(self.recording_type),
            task_id: opt_text(self.task_id),
            chunk_index: self.chunk_index,
            session_id: self.session_id,
            fps: self.fps,
            created_at: self.created_at,
        }
    }
}

impl View for FrameInfo {
    type V = FrameRow;

    open spec fn view(&self) -> FrameRow {
        FrameRow {
            id: self.id,
            video_chunk_id: self.video_chunk_id,
            offset_index: self.offset_index,
            timestamp: self.timestamp,
            device_name: opt_text(self.device_name),
            file_path: self.file_path@,
            is_keyframe: self.is_keyframe,
            pts: self.pts,
            dts: self.dts,
            display_index: self.display_index,
            display_width: self.display_width,
            display_height: self.display_height,
        }
    }
}

impl View for SessionInfo {
    type V = SessionRow;

    open spec fn view(&self) -> SessionRow {
        SessionRow {
            id: self.id,
            task_id: self.task_id@,
            device_name: self.device_name@,
            started_at: self.started_at,
            ended_at: self.ended_at,
        }
    }
}

/// The chunk rows of a list as mathematical values.
pub open spec fn chunk_rows(list: Seq<VideoChunkInfo>) -> Seq<ChunkRow> {
    list.map_values(|c: VideoChunkInfo| c@)
}

/// The frame rows of a list as mathematical values.
pub open spec fn frame_rows(list: Seq<FrameInfo>) -> Seq<FrameRow> {
    list.map_values(|f: FrameInfo| f@)
}

/// The session rows of a list as mathematical values.
pub open spec fn session_rows(list: Seq<SessionInfo>) -> Seq<SessionRow> {
    list.map_values(|s: SessionInfo| s@)
}

fn copy_opt_text(s: &Option<String>) -> (r: Option<String>)
    ensures
        opt_text(r) == opt_text(*s),
{
    match s {
        Some(t) => Some(t.clone()),
        None => None,
    }
}

fn opt_from_str(s: Option<&str>) -> (r: Option<String>)
    ensures
        s is None ==> r is None,
        s matches Some(t) ==> opt_text(r) == Some(t@),
{
    match s {
        Some(t) => Some(String::from_str(t)),
        None => None,
    }
}

impl VideoChunkInfo {
    /// A copy of this row.
    pub fn duplicate(&self) -> (r: VideoChunkInfo)
        ensures
            r@ == self@,
    {
        VideoChunkInfo {
            id: self.id,
            file_path: self.file_path.clone(),
            device_name: self.device_name.clone(),
            recording_type: copy_opt_text(&self.recording_type),
            task_id: copy_opt_text(&self.task_id),
            chunk_index: self.chunk_index,
            session_id: self.session_id,
            fps: self.fps,
            created_at: self.created_at,
        }
    }
}

impl FrameInfo {
    /// A copy of this row.
    pub fn duplicate(&self) -> (r: FrameInfo)
        ensures
            r@ == self@,
    {
        FrameInfo {
            id: self.id,
            video_chunk_id: self.video_chunk_id,
            offset_index: self.offset_index,
            timestamp: self.timestamp,
            device_name: copy_opt_text(&self.device_name),
            file_path: self.file_path.clone(),
            is_keyframe: self.is_keyframe,
            pts: self.pts,
            dts: self.dts,
            display_index: self.display_index,
            display_width: self.display_width,
            display_height: self.display_height,
        }
    }
}

impl SessionInfo {
    /// A copy of this row.
    pub fn duplicate(&self) -> (r: SessionInfo)
        ensures
            r@ == self@,
    {
        SessionInfo {
            id: self.id,
            task_id: self.task_id.clone(),
            device_name: self.device_name.clone(),
            started_at: self.started_at,
            ended_at: self.ended_at,
        }
    }
}

/// The frames of one chunk, in the order in which they were appended.
pub open spec fn frames_of(frames: Seq<FrameRow>, chunk_id: i64) -> Seq<FrameRow>
    decreases frames.len(),
{
    if frames.len() == 0 {
        seq![]
    } else {
        let rest = frames_of(frames.drop_last(), chunk_id);
        if frames.last().video_chunk_id == chunk_id {
            rest.push(frames.last())
        } else {
            rest
        }
    }
}

/// The frames that are left when a chunk's frames are deleted.
pub open spec fn without_chunk(frames: Seq<FrameRow>, chunk_id: i64) -> Seq<FrameRow>
    decreases frames.len(),
{
    if frames.len() == 0 {
        seq![]
    } else {
        let rest = without_chunk(frames.drop_last(), chunk_id);
        if frames.last().video_chunk_id == chunk_id {
            rest
        } else {
            rest.push(frames.last())
        }
    }
}

/// The offsets of a chunk's frames count up from 0 without gaps: the
/// frame at position `k` has offset `k`.
pub open spec fn contiguous(frames: Seq<FrameRow>) -> bool {
    forall|k: int| 0 <= k < frames.len() ==> (#[trigger] frames[k]).offset_index == k
}

/// Appending a frame adds it to the frames of its own chunk and leaves the
/// frames of every other chunk as they are.
pub proof fn lemma_frames_of_push(frames: Seq<FrameRow>, f: FrameRow, chunk_id: i64)
    ensures
        frames_of(frames.push(f), chunk_id) == if f.video_chunk_id == chunk_id {
            frames_of(frames, chunk_id).push(f)
        } else {
            frames_of(frames, chunk_id)
        },
{
    assert(frames.push(f).drop_last() =~= frames);
}

/// Deleting a chunk's frames empties that chunk and leaves the frames of
/// every other chunk as they are.
pub proof fn lemma_frames_of_without(frames: Seq<FrameRow>, deleted: i64, chunk_id: i64)
    ensures
        frames_of(without_chunk(frames, deleted), chunk_id) == if chunk_id == deleted {
            Seq::<FrameRow>::empty()
        } else {
            frames_of(frames, chunk_id)
        },
    decreases frames.len(),
{
    if frames.len() > 0 {
        lemma_frames_of_without(frames.drop_last(), deleted, chunk_id);
        if frames.last().video_chunk_id != deleted {
            lemma_frames_of_push(
                without_chunk(frames.drop_last(), deleted),
                frames.last(),
                chunk_id,
            );
        }
    }
}

/// A chunk has no more frames than the catalog.
pub proof fn lemma_frames_of_len(frames: Seq<FrameRow>, chunk_id: i64)
    ensures
        frames_of(frames, chunk_id).len() <= frames.len(),
    decreases frames.len(),
{
    if frames.len() > 0 {
        lemma_frames_of_len(frames.drop_last(), chunk_id);
    }
}

/// The largest offset among frames, or -1 where there is none.
pub open spec fn max_offset(frames: Seq<FrameRow>) -> int
    decreases frames.len(),
{
    if frames.len() == 0 {
        -1
    } else {
        let rest = max_offset(frames.drop_last());
        if frames.last().offset_index > rest {
            frames.last().offset_index as int
        } else {
            rest
        }
    }
}

/// Where offsets count up from 0 without gaps, the largest offset plus one
/// is the number of frames.
pub proof fn lemma_max_offset_contiguous(frames: Seq<FrameRow>)
    requires
        contiguous(frames),
    ensures
        max_offset(frames) + 1 == frames.len(),
    decreases frames.len(),
{
    if frames.len() > 0 {
        let rest = frames.drop_last();
        assert forall|k: int| 0 <= k < rest.len() implies (#[trigger] rest[k]).offset_index
            == k by {
            assert(rest[k] == frames[k]);
        }
        lemma_max_offset_contiguous(rest);
        assert(frames.last() == frames[frames.len() - 1]);
    }
}

/// `i` is the position of the last chunk that was recorded on `device`.
pub open spec fn is_latest_for(chunks: Seq<ChunkRow>, device: Seq<char>, i: int) -> bool {
    &&& 0 <= i < chunks.len()
    &&& chunks[i].device_name == device
    &&& forall|j: int| i < j < chunks.len() ==> (#[trigger] chunks[j]).device_name != device
}

/// Some chunk was recorded on `device`.
pub open spec fn has_chunk_for(chunks: Seq<ChunkRow>, device: Seq<char>) -> bool {
    exists|i: int| 0 <= i < chunks.len() && (#[trigger] chunks[i]).device_name == device
}

/// The chunks that are left when the chunk with an id is deleted.
pub open spec fn chunks_without(chunks: Seq<ChunkRow>, chunk_id: i64) -> Seq<ChunkRow>
    decreases chunks.len(),
{
    if chunks.len() == 0 {
        seq![]
    } else {
        let rest = chunks_without(chunks.drop_last(), chunk_id);
        if chunks.last().id == chunk_id {
            rest
        } else {
            rest.push(chunks.last())
        }
    }
}

/// The sessions of a task, in the order in which they were created.
pub open spec fn sessions_of(sessions: Seq<SessionRow>, task_id: Seq<char>) -> Seq<SessionRow>
    decreases sessions.len(),
{
    if sessions.len() == 0 {
        seq![]
    } else {
        let rest = sessions_of(sessions.drop_last(), task_id);
        if sessions.last().task_id == task_id {
            rest.push(sessions.last())
        } else {
            rest
        }
    }
}

/// The time that a session contributes to its task: its duration, if it
/// is complete; nothing while it has no end time.
pub open spec fn session_time(s: SessionRow) -> int {
    match s.ended_at {
        Some(end) => end - s.started_at,
        None => 0,
    }
}

/// The recording time of a list of sessions: the sum of the durations of
/// the complete ones.
pub open spec fn total_time(sessions: Seq<SessionRow>) -> int
    decreases sessions.len(),
{
    if sessions.len() == 0 {
        0
    } else {
        total_time(sessions.drop_last()) + session_time(sessions.last())
    }
}

/// Every complete session of the list ended after it started.
pub open spec fn ends_after_starts(sessions: Seq<SessionRow>) -> bool {
    forall|i: int|
        0 <= i < sessions.len() ==> ((#[trigger] sessions[i]).ended_at matches Some(end)
            ==> end > sessions[i].started_at)
}

/// The sum as 64-bit arithmetic yields it when sessions are added one by
/// one: the total, unless it or a sum on the way leaves the range.
pub open spec fn running_total(sessions: Seq<SessionRow>) -> Option<i64>
    decreases sessions.len(),
{
    if sessions.len() == 0 {
        Some(0i64)
    } else {
        match running_total(sessions.drop_last()) {
            Some(sum) => {
                let next = sum + session_time(sessions.last());
                if i64::MIN <= next <= i64::MAX {
                    Some(next as i64)
                } else {
                    None
                }
            },
            None => None,
        }
    }
}

/// The total of sessions that ended after they started is not negative.
pub proof fn lemma_total_time_nonnegative(sessions: Seq<SessionRow>)
    requires
        forall|i: int|
            0 <= i < sessions.len() ==> ((#[trigger] sessions[i]).ended_at matches Some(end)
                ==> end > sessions[i].started_at),
    ensures
        0 <= total_time(sessions),
    decreases sessions.len(),
{
    if sessions.len() > 0 {
        let rest = sessions.drop_last();
        assert forall|i: int| 0 <= i < rest.len() implies ((#[trigger] rest[i]).ended_at matches Some(
            end,
        ) ==> end > rest[i].started_at) by {
            assert(rest[i] == sessions[i]);
        }
        lemma_total_time_nonnegative(rest);
        assert(sessions.last() == sessions[sessions.len() - 1]);
    }
}

/// For sessions that all ended after they started, the recording time is
/// the plain sum of their durations whenever that sum fits in 64 bits: no
/// sum on the way can leave the range.
pub proof fn lemma_recording_time_is_sum(sessions: Seq<SessionRow>)
    requires
        ends_after_starts(sessions),
        total_time(sessions) <= i64::MAX,
    ensures
        running_total(sessions) == Some(total_time(sessions) as i64),
    decreases sessions.len(),
{
    if sessions.len() > 0 {
        let rest = sessions.drop_last();
        assert forall|i: int| 0 <= i < rest.len() implies ((#[trigger] rest[i]).ended_at matches Some(
            end,
        ) ==> end > rest[i].started_at) by {
            assert(rest[i] == sessions[i]);
        }
        assert(sessions.last() == sessions[sessions.len() - 1]);
        lemma_total_time_nonnegative(rest);
        lemma_recording_time_is_sum(rest);
    }
}

/// The catalog of a recorder.
pub struct Database {
    pub sessions: Vec<SessionInfo>,
    pub chunks: Vec<VideoChunkInfo>,
    pub frames: Vec<FrameInfo>,
    pub next_session_id: i64,
    pub next_chunk_id: i64,
    pub next_frame_id: i64,
}

impl Database {
    /// The chunk rows.
    pub open spec fn chunk_rows(self) -> Seq<ChunkRow> {
        chunk_rows(self.chunks@)
    }

    /// The frame rows.
    pub open spec fn frame_rows(self) -> Seq<FrameRow> {
        frame_rows(self.frames@)
    }

    /// The session rows.
    pub open spec fn session_rows(self) -> Seq<SessionRow> {
        session_rows(self.sessions@)
    }

    /// A chunk with this id is catalogued.
    pub open spec fn has_chunk(self, chunk_id: i64) -> bool {
        exists|i: int| 0 <= i < self.chunks@.len() && (#[trigger] self.chunks@[i]).id == chunk_id
    }

    /// The catalog's rules: ids are handed out in rising order and never
    /// twice; every frame belongs to a catalogued chunk; and within every
    /// chunk the frame offsets count up from 0 without gaps.
    pub open spec fn wf(self) -> bool {
        &&& 1 <= self.next_session_id
        &&& 1 <= self.next_chunk_id
        &&& 1 <= self.next_frame_id
        &&& self.frames@.len() < self.next_frame_id
        &&& forall|i: int|
            0 <= i < self.sessions@.len() ==> 1 <= (#[trigger] self.sessions@[i]).id
                < self.next_session_id
        &&& forall|i: int, j: int|
            0 <= i < j < self.sessions@.len() ==> (#[trigger] self.sessions@[i]).id < (
            #[trigger] self.sessions@[j]).id
        &&& forall|i: int|
            0 <= i < self.chunks@.len() ==> 1 <= (#[trigger] self.chunks@[i]).id
                < self.next_chunk_id
        &&& forall|i: int, j: int|
            0 <= i < j < self.chunks@.len() ==> (#[trigger] self.chunks@[i]).id < (
            #[trigger] self.chunks@[j]).id
        &&& forall|i: int|
            0 <= i < self.frames@.len() ==> 1 <= (#[trigger] self.frames@[i]).id
                < self.next_frame_id
        &&& forall|i: int, j: int|
            0 <= i < j < self.frames@.len() ==> (#[trigger] self.frames@[i]).id < (
            #[trigger] self.frames@[j]).id
        &&& forall|i: int|
            0 <= i < self.frames@.len() ==> self.has_chunk(
                (#[trigger] self.frames@[i]).video_chunk_id,
            )
        &&& forall|chunk_id: i64| contiguous(#[trigger] frames_of(self.frame_rows(), chunk_id))
    }

    /// An empty catalog.
    pub fn new() -> (r: Database)
        ensures
            r.wf(),
            r.sessions@.len() == 0,
            r.chunks@.len() == 0,
            r.frames@.len() == 0,
    {
        let r = Database {
            sessions: Vec::new(),
            chunks: Vec::new(),
            frames: Vec::new(),
            next_session_id: 1,
            next_chunk_id: 1,
            next_frame_id: 1,
        };
        assert(r.frame_rows() =~= seq![]);
        r
    }
}

impl Database {
    /// Adds a chunk row and returns its id.  Fails, and changes nothing,
    /// when the ids are used up.
    pub fn insert_video_chunk(
        &mut self,
        file_path: &str,
        device_name: &str,
        recording_type: Option<&str>,
        task_id: Option<&str>,
        chunk_index: Option<i64>,
        session_id: Option<i64>,
        fps: Option<i64>,
        created_at: i64,
    ) -> (r: Result<i64, ScreenRecError>)
        requires
            old(self).wf(),
        ensures
            final(self).wf(),
            final(self).sessions == old(self).sessions,
            final(self).frames == old(self).frames,
            old(self).next_chunk_id == i64::MAX ==> (r matches Err(ScreenRecError::DatabaseError(_)))
                && final(self).chunks == old(self).chunks,
            old(self).next_chunk_id < i64::MAX ==> r == Ok::<i64, ScreenRecError>(
                old(self).next_chunk_id,
            ) && final(self).chunk_rows() == old(self).chunk_rows().push(
                ChunkRow {
                    id: old(self).next_chunk_id,
                    file_path: file_path@,
                    device_name: device_name@,
                    recording_type: match recording_type {
                        Some(t) => Some(t@),
                        None => None,
                    },
                    task_id: match task_id {
                        Some(t) => Some(t@),
                        None => None,
                    },
                    chunk_index,
                    session_id,
                    fps,
                    created_at,
                },
            ),
    {
        if self.next_chunk_id == i64::MAX {
            return Err(ScreenRecError::DatabaseError(String::from_str("chunk ids are used up")));
        }
        let id = self.next_chunk_id;
        let row = VideoChunkInfo {
            id,
            file_path: String::from_str(file_path),
            device_name: String::from_str(device_name),
            recording_type: opt_from_str(recording_type),
            task_id: opt_from_str(task_id),
            chunk_index,
            session_id,
            fps,
            created_at,
        };
        let ghost before = self.chunk_rows();
        self.chunks.push(row);
        self.next_chunk_id = id + 1;
        proof {
            assert(self.chunk_rows() =~= before.push(row@));
            assert forall|c: i64| contiguous(#[trigger] frames_of(self.frame_rows(), c)) by {
                assert(self.frame_rows() == old(self).frame_rows());
                assert(contiguous(frames_of(old(self).frame_rows(), c)));
            }
            assert forall|i: int| 0 <= i < self.frames@.len() implies self.has_chunk(
                (#[trigger] self.frames@[i]).video_chunk_id,
            ) by {
                let c = self.frames@[i].video_chunk_id;
                assert(old(self).has_chunk(c));
                let k = choose|k: int|
                    0 <= k < old(self).chunks@.len() && (#[trigger] old(self).chunks@[k]).id == c;
                assert(self.chunks@[k].id == c);
            }
        }
        Ok(id)
    }

    /// The id of the chunk that was opened last on a device.
    pub fn get_current_chunk_id(&self, device_name: &str) -> (r: Option<i64>)
        ensures
            r is None ==> !has_chunk_for(self.chunk_rows(), device_name@),
            r matches Some(id) ==> exists|i: int|
                is_latest_for(self.chunk_rows(), device_name@, i) && self.chunks@[i].id == id,
    {
        match self.latest_chunk_position(device_name) {
            Some(i) => Some(self.chunks[i].id),
            None => None,
        }
    }

    fn latest_chunk_position(&self, device_name: &str) -> (r: Option<usize>)
        ensures
            r is None ==> !has_chunk_for(self.chunk_rows(), device_name@),
            r matches Some(i) ==> is_latest_for(self.chunk_rows(), device_name@, i as int),
    {
        let mut i: usize = self.chunks.len();
        while i > 0
            invariant
                i <= self.chunks@.len(),
                forall|j: int|
                    i <= j < self.chunks@.len() ==> (#[trigger] self.chunk_rows()[j]).device_name
                        != device_name@,
            decreases i,
        {
            i -= 1;
            if str_eq(self.chunks[i].device_name.as_str(), device_name) {
                assert(self.chunk_rows()[i as int].device_name == device_name@);
                return Some(i);
            }
        }
        None
    }

    /// Appends a frame to the chunk that was opened last on the device, at
    /// the offset after the chunk's largest one, and returns the frame's
    /// id.  The frame's time is `timestamp`, or `now` where none is given.
    /// Fails, and changes nothing, where the device has no chunk or the ids
    /// are used up.
    pub fn insert_frame(
        &mut self,
        device_name: &str,
        timestamp: Option<i64>,
        now: i64,
        is_keyframe: bool,
        pts: Option<i64>,
        dts: Option<i64>,
        display_index: Option<i64>,
        display_width: Option<i64>,
        display_height: Option<i64>,
    ) -> (r: Result<i64, ScreenRecError>)
        requires
            old(self).wf(),
        ensures
            final(self).wf(),
            final(self).sessions == old(self).sessions,
            final(self).chunks == old(self).chunks,
            !has_chunk_for(old(self).chunk_rows(), device_name@) || old(self).next_frame_id
                == i64::MAX ==> (r matches Err(ScreenRecError::DatabaseError(_))) && final(self).frames
                == old(self).frames,
            has_chunk_for(old(self).chunk_rows(), device_name@) && old(self).next_frame_id
                < i64::MAX ==> r == Ok::<i64, ScreenRecError>(old(self).next_frame_id)
                && exists|i: int|
                #![trigger is_latest_for(old(self).chunk_rows(), device_name@, i)]
                is_latest_for(old(self).chunk_rows(), device_name@, i) && final(self).frame_rows()
                    == old(self).frame_rows().push(
                    FrameRow {
                        id: old(self).next_frame_id,
                        video_chunk_id: old(self).chunks@[i].id,
                        offset_index: (max_offset(
                            frames_of(old(self).frame_rows(), old(self).chunks@[i].id),
                        ) + 1) as i64,
                        timestamp: match timestamp {
                            Some(t) => t,
                            None => now,
                        },
                        device_name: Some(device_name@),
                        file_path: old(self).chunks@[i].file_path@,
                        is_keyframe: if is_keyframe {
                            1i32
                        } else {
                            0i32
                        },
                        pts,
                        dts,
                        display_index,
                        display_width,
                        display_height,
                    },
                ),
    {
        let position = match self.latest_chunk_position(device_name) {
            Some(i) => i,
            None => {
                return Err(
                    ScreenRecError::DatabaseError(
                        String::from_str("no video chunk for this device"),
                    ),
                );
            },
        };
        if self.next_frame_id == i64::MAX {
            return Err(ScreenRecError::DatabaseError(String::from_str("frame ids are used up")));
        }
        let chunk_id = self.chunks[position].id;
        let ghost rows = self.frame_rows();
        let mut largest: i64 = -1;
        let mut i: usize = 0;
        while i < self.frames.len()
            invariant
                i <= self.frames@.len(),
                rows == self.frame_rows(),
                largest == max_offset(frames_of(rows.take(i as int), chunk_id)),
            decreases self.frames.len() - i,
        {
            proof {
                assert(rows.take(i + 1) =~= rows.take(i as int).push(rows[i as int]));
                lemma_frames_of_push(rows.take(i as int), rows[i as int], chunk_id);
                if rows[i as int].video_chunk_id == chunk_id {
                    assert(frames_of(rows.take(i as int), chunk_id).push(
                        rows[i as int],
                    ).drop_last() =~= frames_of(rows.take(i as int), chunk_id));
                }
            }
            if self.frames[i].video_chunk_id == chunk_id && self.frames[i].offset_index > largest {
                largest = self.frames[i].offset_index;
            }
            i += 1;
        }
        proof {
            assert(rows.take(i as int) =~= rows);
            assert(contiguous(frames_of(rows, chunk_id)));
            lemma_max_offset_contiguous(frames_of(rows, chunk_id));
            lemma_frames_of_len(rows, chunk_id);
        }
        let id = self.next_frame_id;
        let row = FrameInfo {
            id,
            video_chunk_id: chunk_id,
            offset_index: largest + 1,
            timestamp: match timestamp {
                Some(t) => t,
                None => now,
            },
            device_name: Some(String::from_str(device_name)),
            file_path: self.chunks[position].file_path.clone(),
            is_keyframe: if is_keyframe {
                1
            } else {
                0
            },
            pts,
            dts,
            display_index,
            display_width,
            display_height,
        };
        self.frames.push(row);
        self.next_frame_id = id + 1;
        proof {
            assert(self.frame_rows() =~= rows.push(row@));
            assert(self.has_chunk(chunk_id)) by {
                assert(self.chunks@[position as int].id == chunk_id);
            }
            assert forall|k: int| 0 <= k < self.frames@.len() implies self.has_chunk(
                (#[trigger] self.frames@[k]).video_chunk_id,
            ) by {
                if k < rows.len() {
                    assert(self.frames@[k] == old(self).frames@[k]);
                    assert(old(self).has_chunk(old(self).frames@[k].video_chunk_id));
                }
            }
            assert forall|c: i64| contiguous(#[trigger] frames_of(self.frame_rows(), c)) by {
                lemma_frames_of_push(rows, row@, c);
                assert(contiguous(frames_of(rows, c)));
                if c == chunk_id {
                    let fs = frames_of(rows, c).push(row@);
                    assert forall|k: int| 0 <= k < fs.len() implies (#[trigger] fs[k]).offset_index
                        == k by {
                        if k < fs.len() - 1 {
                            assert(fs[k] == frames_of(rows, c)[k]);
                        }
                    }
                }
            }
            assert(is_latest_for(old(self).chunk_rows(), device_name@, position as int));
        }
        Ok(id)
    }

    /// The frame with an id.  Fails where there is none.
    pub fn get_frame(&self, frame_id: i64) -> (r: Result<FrameInfo, ScreenRecError>)
        ensures
            r matches Ok(f) ==> f.id == frame_id && exists|i: int|
                0 <= i < self.frames@.len() && f@ == (#[trigger] self.frames@[i])@,
            r is Err ==> (r matches Err(ScreenRecError::DatabaseError(_))) && forall|i: int|
                0 <= i < self.frames@.len() ==> (#[trigger] self.frames@[i]).id != frame_id,
    {
        let mut i: usize = 0;
        while i < self.frames.len()
            invariant
                i <= self.frames@.len(),
                forall|j: int| 0 <= j < i ==> (#[trigger] self.frames@[j]).id != frame_id,
            decreases self.frames.len() - i,
        {
            if self.frames[i].id == frame_id {
                return Ok(self.frames[i].duplicate());
            }
            i += 1;
        }
        Err(ScreenRecError::DatabaseError(String::from_str("no such frame")))
    }

    /// The frames of a chunk in the order of their offsets.
    pub fn get_frames_by_chunk(&self, video_chunk_id: i64) -> (r: Vec<FrameInfo>)
        ensures
            frame_rows(r@) == frames_of(self.frame_rows(), video_chunk_id),
    {
        let ghost rows = self.frame_rows();
        let mut out: Vec<FrameInfo> = Vec::new();
        let mut i: usize = 0;
        assert(frame_rows(out@) =~= frames_of(rows.take(0), video_chunk_id));
        while i < self.frames.len()
            invariant
                i <= self.frames@.len(),
                rows == self.frame_rows(),
                frame_rows(out@) == frames_of(rows.take(i as int), video_chunk_id),
            decreases self.frames.len() - i,
        {
            proof {
                assert(rows.take(i + 1) =~= rows.take(i as int).push(rows[i as int]));
                lemma_frames_of_push(rows.take(i as int), rows[i as int], video_chunk_id);
            }
            if self.frames[i].video_chunk_id == video_chunk_id {
                let ghost before = frame_rows(out@);
                out.push(self.frames[i].duplicate());
                assert(frame_rows(out@) =~= before.push(rows[i as int]));
            }
            i += 1;
        }
        assert(rows.take(i as int) =~= rows);
        out
    }

    /// Deletes a chunk together with its frames.  Deleting a chunk that is
    /// not catalogued changes nothing.
    pub fn delete_chunk(&mut self, chunk_id: i64)
        requires
            old(self).wf(),
        ensures
            final(self).wf(),
            final(self).sessions == old(self).sessions,
            final(self).chunk_rows() == chunks_without(old(self).chunk_rows(), chunk_id),
            final(self).frame_rows() == without_chunk(old(self).frame_rows(), chunk_id),
            final(self).next_session_id == old(self).next_session_id,
            final(self).next_chunk_id == old(self).next_chunk_id,
            final(self).next_frame_id == old(self).next_frame_id,
    {
        let ghost old_chunks = self.chunk_rows();
        let ghost old_frames = self.frame_rows();
        let mut chunks: Vec<VideoChunkInfo> = Vec::new();
        let mut i: usize = 0;
        assert(chunk_rows(chunks@) =~= chunks_without(old_chunks.take(0), chunk_id));
        while i < self.chunks.len()
            invariant
                i <= self.chunks@.len(),
                *self == *old(self),
                old_chunks == self.chunk_rows(),
                self.wf(),
                chunk_rows(chunks@) == chunks_without(old_chunks.take(i as int), chunk_id),
                forall|k: int|
                    0 <= k < chunks@.len() ==> 1 <= (#[trigger] chunks@[k]).id
                        < self.next_chunk_id && chunks@[k].id != chunk_id,
                forall|k: int, l: int|
                    0 <= k < l < chunks@.len() ==> (#[trigger] chunks@[k]).id < (
                    #[trigger] chunks@[l]).id,
                forall|k: int|
                    0 <= k < chunks@.len() && i < self.chunks@.len() ==> (#[trigger] chunks@[k]).id
                        < self.chunks@[i as int].id,
                forall|j: int|
                    0 <= j < i && self.chunks@[j].id != chunk_id ==> exists|k: int|
                        0 <= k < chunks@.len() && (#[trigger] chunks@[k]).id
                            == self.chunks@[j].id,
            decreases self.chunks.len() - i,
        {
            proof {
                assert(old_chunks.take(i + 1) =~= old_chunks.take(i as int).push(
                    old_chunks[i as int],
                ));
                assert(old_chunks.take(i + 1).drop_last() =~= old_chunks.take(i as int));
            }
            if self.chunks[i].id != chunk_id {
                let ghost before = chunk_rows(chunks@);
                let ghost kept = chunks@;
                chunks.push(self.chunks[i].duplicate());
                proof {
                    assert(chunk_rows(chunks@) =~= before.push(old_chunks[i as int]));
                    assert forall|j: int|
                        0 <= j < i + 1 && self.chunks@[j].id != chunk_id implies exists|k: int|
                        0 <= k < chunks@.len() && (#[trigger] chunks@[k]).id
                            == self.chunks@[j].id by {
                        if j < i {
                            let k = choose|k: int|
                                0 <= k < kept.len() && (#[trigger] kept[k]).id
                                    == self.chunks@[j].id;
                            assert(chunks@[k].id == self.chunks@[j].id);
                        } else {
                            assert(chunks@[chunks@.len() - 1].id == self.chunks@[j].id);
                        }
                    }
                }
            }
            i += 1;
        }
        let mut frames: Vec<FrameInfo> = Vec::new();
        let mut j: usize = 0;
        assert(old_chunks.take(i as int) =~= old_chunks);
        assert(frame_rows(frames@) =~= without_chunk(old_frames.take(0), chunk_id));
        while j < self.frames.len()
            invariant
                j <= self.frames@.len(),
                *self == *old(self),
                old_frames == self.frame_rows(),
                self.wf(),
                frame_rows(frames@) == without_chunk(old_frames.take(j as int), chunk_id),
                frames@.len() <= j,
                forall|k: int|
                    0 <= k < frames@.len() ==> 1 <= (#[trigger] frames@[k]).id
                        < self.next_frame_id && frames@[k].video_chunk_id != chunk_id
                        && self.has_chunk(frames@[k].video_chunk_id),
                forall|k: int, l: int|
                    0 <= k < l < frames@.len() ==> (#[trigger] frames@[k]).id < (
                    #[trigger] frames@[l]).id,
                forall|k: int|
                    0 <= k < frames@.len() && j < self.frames@.len() ==> (#[trigger] frames@[k]).id
                        < self.frames@[j as int].id,
            decreases self.frames.len() - j,
        {
            proof {
                assert(old_frames.take(j + 1) =~= old_frames.take(j as int).push(
                    old_frames[j as int],
                ));
                assert(old_frames.take(j + 1).drop_last() =~= old_frames.take(j as int));
            }
            if self.frames[j].video_chunk_id != chunk_id {
                let ghost before = frame_rows(frames@);
                frames.push(self.frames[j].duplicate());
                assert(frame_rows(frames@) =~= before.push(old_frames[j as int]));
            }
            j += 1;
        }
        proof {
            assert(old_frames.take(j as int) =~= old_frames);
        }
        let ghost kept_chunks = chunks@;
        self.chunks = chunks;
        self.frames = frames;
        proof {
            assert forall|k: int| 0 <= k < self.frames@.len() implies self.has_chunk(
                (#[trigger] self.frames@[k]).video_chunk_id,
            ) by {
                let c = self.frames@[k].video_chunk_id;
                assert(old(self).has_chunk(c));
                let p = choose|p: int|
                    0 <= p < old(self).chunks@.len() && (#[trigger] old(self).chunks@[p]).id == c;
                let q = choose|q: int|
                    0 <= q < kept_chunks.len() && (#[trigger] kept_chunks[q]).id == old(self).chunks@[p].id;
                assert(self.chunks@[q].id == c);
            }
            assert forall|c: i64| contiguous(#[trigger] frames_of(self.frame_rows(), c)) by {
                lemma_frames_of_without(old_frames, chunk_id, c);
                assert(contiguous(frames_of(old_frames, c)));
            }
        }
    }

    /// Opens a session for a task and returns its id.  Fails, and changes
    /// nothing, when the ids are used up.
    pub fn create_recording_session(&mut self, task_id: &str, device_name: &str, started_at: i64) -> (r:
        Result<i64, ScreenRecError>)
        requires
            old(self).wf(),
        ensures
            final(self).wf(),
            final(self).chunks == old(self).chunks,
            final(self).frames == old(self).frames,
            old(self).next_session_id == i64::MAX ==> (r matches Err(ScreenRecError::DatabaseError(_)))
                && final(self).sessions == old(self).sessions,
            old(self).next_session_id < i64::MAX ==> r == Ok::<i64, ScreenRecError>(
                old(self).next_session_id,
            ) && final(self).session_rows() == old(self).session_rows().push(
                SessionRow {
                    id: old(self).next_session_id,
                    task_id: task_id@,
                    device_name: device_name@,
                    started_at,
                    ended_at: None,
                },
            ),
    {
        if self.next_session_id == i64::MAX {
            return Err(ScreenRecError::DatabaseError(String::from_str("session ids are used up")));
        }
        let id = self.next_session_id;
        let row = SessionInfo {
            id,
            task_id: String::from_str(task_id),
            device_name: String::from_str(device_name),
            started_at,
            ended_at: None,
        };
        let ghost before = self.session_rows();
        self.sessions.push(row);
        self.next_session_id = id + 1;
        proof {
            assert(self.session_rows() =~= before.push(row@));
            assert forall|c: i64| contiguous(#[trigger] frames_of(self.frame_rows(), c)) by {
                assert(self.frame_rows() == old(self).frame_rows());
                assert(contiguous(frames_of(old(self).frame_rows(), c)));
            }
            assert forall|i: int| 0 <= i < self.frames@.len() implies self.has_chunk(
                (#[trigger] self.frames@[i]).video_chunk_id,
            ) by {
                let c = self.frames@[i].video_chunk_id;
                assert(old(self).has_chunk(c));
                let k = choose|k: int|
                    0 <= k < old(self).chunks@.len() && (#[trigger] old(self).chunks@[k]).id == c;
                assert(self.chunks@[k].id == c);
            }
        }
        Ok(id)
    }

    /// Sets the end time of the session with an id; the other sessions
    /// stay as they are.  Without such a session nothing changes.
    pub fn end_recording_session(&mut self, session_id: i64, ended_at: i64)
        requires
            old(self).wf(),
        ensures
            final(self).wf(),
            final(self).chunks == old(self).chunks,
            final(self).frames == old(self).frames,
            final(self).session_rows().len() == old(self).session_rows().len(),
            forall|i: int|
                0 <= i < old(self).session_rows().len() ==> (#[trigger] final(self).session_rows()[i])
                    == if old(self).session_rows()[i].id == session_id {
                    SessionRow { ended_at: Some(ended_at), ..old(self).session_rows()[i] }
                } else {
                    old(self).session_rows()[i]
                },
            ends_after_starts(old(self).session_rows()) && (forall|i: int|
                0 <= i < old(self).session_rows().len()
                    && (#[trigger] old(self).session_rows()[i]).id == session_id ==> ended_at
                    > old(self).session_rows()[i].started_at) ==> ends_after_starts(
                final(self).session_rows(),
            ),
    {
        let mut i: usize = 0;
        while i < self.sessions.len()
            invariant
                i <= self.sessions@.len(),
                self.wf(),
                self.chunks == old(self).chunks,
                self.frames == old(self).frames,
                self.next_session_id == old(self).next_session_id,
                self.sessions@.len() == old(self).sessions@.len(),
                forall|k: int|
                    0 <= k < self.sessions@.len() ==> (#[trigger] self.session_rows()[k]) == if k
                        < i && old(self).session_rows()[k].id == session_id {
                        SessionRow { ended_at: Some(ended_at), ..old(self).session_rows()[k] }
                    } else {
                        old(self).session_rows()[k]
                    },
            decreases self.sessions.len() - i,
        {
            if self.sessions[i].id == session_id {
                let ghost before = self.session_rows();
                let ghost before_rows = self.sessions@;
                let ghost snap = *self;
                let mut row = self.sessions[i].duplicate();
                row.ended_at = Some(ended_at);
                self.sessions[i] = row;
                proof {
                    assert forall|k: int| 0 <= k < self.sessions@.len() implies (
                    #[trigger] self.session_rows()[k]) == if k < i + 1
                        && old(self).session_rows()[k].id == session_id {
                        SessionRow { ended_at: Some(ended_at), ..old(self).session_rows()[k] }
                    } else {
                        old(self).session_rows()[k]
                    } by {
                        if k != i {
                            assert(self.sessions@[k] == before_rows[k]);
                            assert(self.session_rows()[k] == before[k]);
                        }
                    }
                    assert forall|k: int| 0 <= k < self.sessions@.len() implies 1 <= (
                    #[trigger] self.sessions@[k]).id < self.next_session_id by {
                        assert(self.session_rows()[k].id == old(self).session_rows()[k].id);
                        assert(old(self).sessions@[k].id == old(self).session_rows()[k].id);
                    }
                    assert forall|k: int, l: int|
                        0 <= k < l < self.sessions@.len() implies (#[trigger] self.sessions@[k]).id
                        < (#[trigger] self.sessions@[l]).id by {
                        assert(self.session_rows()[k].id == old(self).session_rows()[k].id);
                        assert(self.session_rows()[l].id == old(self).session_rows()[l].id);
                        assert(old(self).sessions@[k].id < old(self).sessions@[l].id);
                    }
                assert forall|c: i64| contiguous(#[trigger] frames_of(self.frame_rows(), c)) by {
                    assert(self.frame_rows() == snap.frame_rows());
                    assert(contiguous(frames_of(snap.frame_rows(), c)));
                }
                    assert forall|k: int| 0 <= k < self.frames@.len() implies self.has_chunk(
                        (#[trigger] self.frames@[k]).video_chunk_id,
                    ) by {
                        let c = self.frames@[k].video_chunk_id;
                        assert(snap.has_chunk(c));
                        let p = choose|p: int|
                            0 <= p < snap.chunks@.len() && (#[trigger] snap.chunks@[p]).id == c;
                        assert(self.chunks@[p].id == c);
                    }
                }
            }
            i += 1;
        }
    }

    /// The sessions of a task.
    pub fn get_sessions_for_task(&self, task_id: &str) -> (r: Vec<SessionInfo>)
        ensures
            session_rows(r@) == sessions_of(self.session_rows(), task_id@),
    {
        let ghost rows = self.session_rows();
        let mut out: Vec<SessionInfo> = Vec::new();
        let mut i: usize = 0;
        assert(session_rows(out@) =~= sessions_of(rows.take(0), task_id@));
        while i < self.sessions.len()
            invariant
                i <= self.sessions@.len(),
                rows == self.session_rows(),
                session_rows(out@) == sessions_of(rows.take(i as int), task_id@),
            decreases self.sessions.len() - i,
        {
            proof {
                assert(rows.take(i + 1).drop_last() =~= rows.take(i as int));
                assert(rows.take(i + 1).last() == rows[i as int]);
            }
            if str_eq(self.sessions[i].task_id.as_str(), task_id) {
                let ghost before = session_rows(out@);
                out.push(self.sessions[i].duplicate());
                assert(session_rows(out@) =~= before.push(rows[i as int]));
            }
            i += 1;
        }
        assert(rows.take(i as int) =~= rows);
        out
    }

    /// The recording time of a task in milliseconds: the sum of the
    /// durations of its complete sessions.  Fails where the sum, added up
    /// session by session, leaves the 64-bit range.
    pub fn get_total_recording_time(&self, task_id: &str) -> (r: Result<i64, ScreenRecError>)
        ensures
            match running_total(sessions_of(self.session_rows(), task_id@)) {
                Some(total) => r == Ok::<i64, ScreenRecError>(total),
                None => r matches Err(ScreenRecError::DatabaseError(_)),
            },
    {
        let sessions = self.get_sessions_for_task(task_id);
        recording_time(&sessions)
    }
}

/// The recording time of sessions in milliseconds: the sum of the
/// durations of the complete ones.  Fails where the sum, added up session
/// by session, leaves the 64-bit range.
pub fn recording_time(sessions: &Vec<SessionInfo>) -> (r: Result<i64, ScreenRecError>)
    ensures
        match running_total(session_rows(sessions@)) {
            Some(total) => r == Ok::<i64, ScreenRecError>(total),
            None => r matches Err(ScreenRecError::DatabaseError(_)),
        },
{
    let ghost rows = session_rows(sessions@);
    let mut sum: i64 = 0;
    let mut i: usize = 0;
    assert(rows.take(0) =~= seq![]);
    while i < sessions.len()
        invariant
            i <= sessions@.len(),
            rows == session_rows(sessions@),
            running_total(rows.take(i as int)) == Some(sum),
        decreases sessions.len() - i,
    {
        proof {
            assert(rows.take(i + 1).drop_last() =~= rows.take(i as int));
            assert(rows.take(i + 1).last() == rows[i as int]);
        }
        if let Some(end) = sessions[i].ended_at {
            let next: i128 = sum as i128 + (end as i128 - sessions[i].started_at as i128);
            assert(session_time(rows[i as int]) == end - sessions[i as int].started_at);
            if next < i64::MIN as i128 || next > i64::MAX as i128 {
                proof {
                    assert(running_total(rows.take(i + 1)) is None);
                    lemma_running_total_stays_none(rows, i + 1);
                }
                return Err(
                    ScreenRecError::DatabaseError(
                        String::from_str("recording time is out of range"),
                    ),
                );
            }
            sum = next as i64;
        }
        i += 1;
    }
    assert(rows.take(i as int) =~= rows);
    Ok(sum)
}

/// Once a sum has left the range, adding further sessions does not bring
/// it back.
pub proof fn lemma_running_total_stays_none(sessions: Seq<SessionRow>, k: int)
    requires
        0 <= k <= sessions.len(),
        running_total(sessions.take(k)) is None,
    ensures
        running_total(sessions) is None,
    decreases sessions.len() - k,
{
    if k == sessions.len() {
        assert(sessions.take(k) =~= sessions);
    } else {
        assert(sessions.take(k + 1).drop_last() =~= sessions.take(k));
        lemma_running_total_stays_none(sessions, k + 1);
    }
}

/// The chunk belongs to the task.
pub open spec fn of_task(chunk: ChunkRow, task_id: Seq<char>) -> bool {
    chunk.task_id == Some(task_id)
}

/// Chunk `a` comes before chunk `b` in concatenation order: it was created
/// earlier, or at the same time and catalogued earlier.
pub open spec fn chunk_before(a: ChunkRow, b: ChunkRow) -> bool {
    a.created_at < b.created_at || (a.created_at == b.created_at && a.id < b.id)
}

/// `list` holds the chunks of a task out of `all`, each once, in
/// concatenation order.
pub open spec fn is_task_chunks(list: Seq<ChunkRow>, all: Seq<ChunkRow>, task_id: Seq<char>) -> bool {
    &&& forall|a: int|
        0 <= a < list.len() ==> all.contains(#[trigger] list[a]) && of_task(list[a], task_id)
    &&& forall|k: int|
        0 <= k < all.len() && of_task(#[trigger] all[k], task_id) ==> list.contains(all[k])
    &&& forall|a: int, b: int|
        0 <= a < b < list.len() ==> chunk_before(#[trigger] list[a], #[trigger] list[b])
}

impl Database {
    /// The time at which the chunk with an id was created.
    pub open spec fn created_at_of(self, chunk_id: i64) -> i64 {
        let i = choose|i: int|
            0 <= i < self.chunks@.len() && (#[trigger] self.chunks@[i]).id == chunk_id;
        self.chunks@[i].created_at
    }

    /// The task of the chunk with an id.
    pub open spec fn task_of(self, chunk_id: i64) -> Option<Seq<char>> {
        let i = choose|i: int|
            0 <= i < self.chunks@.len() && (#[trigger] self.chunks@[i]).id == chunk_id;
        opt_text(self.chunks@[i].task_id)
    }

    /// The key by which a task's frames are ordered: the creation time of
    /// the frame's chunk, then the frame's offset, then the chunk's id.
    pub open spec fn frame_key(self, f: FrameRow) -> SortKey {
        SortKey {
            first: self.created_at_of(f.video_chunk_id),
            second: f.offset_index,
            third: f.video_chunk_id,
        }
    }

    /// `list` holds the frames of a task, each once, ordered by the
    /// creation time of their chunks and then by their offsets.
    pub open spec fn is_task_frames(self, list: Seq<FrameRow>, task_id: Seq<char>) -> bool {
        &&& forall|a: int|
            0 <= a < list.len() ==> self.frame_rows().contains(#[trigger] list[a]) && self.task_of(
                list[a].video_chunk_id,
            ) == Some(task_id)
        &&& forall|k: int|
            0 <= k < self.frame_rows().len() && self.task_of(
                (#[trigger] self.frame_rows()[k]).video_chunk_id,
            ) == Some(task_id) ==> list.contains(self.frame_rows()[k])
        &&& forall|a: int, b: int|
            0 <= a < b < list.len() ==> !key_before(
                self.frame_key(#[trigger] list[b]),
                self.frame_key(#[trigger] list[a]),
            )
    }

    fn chunk_position(&self, chunk_id: i64) -> (r: Option<usize>)
        requires
            self.wf(),
        ensures
            r is None ==> !self.has_chunk(chunk_id),
            r matches Some(i) ==> i < self.chunks@.len() && self.chunks@[i as int].id == chunk_id
                && self.created_at_of(chunk_id) == self.chunks@[i as int].created_at
                && self.task_of(chunk_id) == opt_text(self.chunks@[i as int].task_id),
    {
        let mut i: usize = 0;
        while i < self.chunks.len()
            invariant
                i <= self.chunks@.len(),
                self.wf(),
                forall|j: int| 0 <= j < i ==> (#[trigger] self.chunks@[j]).id != chunk_id,
            decreases self.chunks.len() - i,
        {
            if self.chunks[i].id == chunk_id {
                proof {
                    let c = choose|c: int|
                        0 <= c < self.chunks@.len() && (#[trigger] self.chunks@[c]).id == chunk_id;
                    if c < i {
                        assert(self.chunks@[c].id < self.chunks@[i as int].id);
                    } else if i < c {
                        assert(self.chunks@[i as int].id < self.chunks@[c].id);
                    }
                }
                return Some(i);
            }
            i += 1;
        }
        None
    }

    fn belongs_to(task: &Option<String>, task_id: &str) -> (r: bool)
        ensures
            r == (opt_text(*task) == Some(task_id@)),
    {
        match task {
            Some(t) => str_eq(t.as_str(), task_id),
            None => false,
        }
    }

    /// The chunks of a task in concatenation order: by creation time,
    /// chunks created at the same time in the order of their ids.
    pub fn get_chunks_by_task_id(&self, task_id: &str) -> (r: Vec<VideoChunkInfo>)
        requires
            self.wf(),
        ensures
            is_task_chunks(chunk_rows(r@), self.chunk_rows(), task_id@),
    {
        let ghost all = self.chunk_rows();
        let mut picked: Vec<usize> = Vec::new();
        let mut keys: Vec<SortKey> = Vec::new();
        let mut i: usize = 0;
        while i < self.chunks.len()
            invariant
                i <= self.chunks@.len(),
                all == self.chunk_rows(),
                picked@.len() == keys@.len(),
                forall|a: int|
                    0 <= a < picked@.len() ==> (#[trigger] picked@[a]) < i && of_task(
                        all[picked@[a] as int],
                        task_id@,
                    ) && keys@[a] == (SortKey {
                        first: all[picked@[a] as int].created_at,
                        second: all[picked@[a] as int].id,
                        third: 0,
                    }),
                forall|a: int, b: int|
                    0 <= a < b < picked@.len() ==> (#[trigger] picked@[a]) < (
                    #[trigger] picked@[b]),
                forall|k: int|
                    0 <= k < i && of_task(#[trigger] all[k], task_id@) ==> lists(picked@, k),
            decreases self.chunks.len() - i,
        {
            if Self::belongs_to(&self.chunks[i].task_id, task_id) {
                let ghost before = picked@;
                picked.push(i);
                keys.push(
                    SortKey { first: self.chunks[i].created_at, second: self.chunks[i].id, third: 0 },
                );
                proof {
                    assert forall|k: int|
                        0 <= k < i + 1 && of_task(#[trigger] all[k], task_id@) implies lists(
                        picked@,
                        k,
                    ) by {
                        if k < i {
                            assert(lists(before, k));
                            let a = choose|a: int| 0 <= a < before.len() && #[trigger] before[a] == k;
                            assert(picked@[a] == k);
                        } else {
                            assert(picked@[picked@.len() - 1] == k);
                        }
                    }
                }
            }
            i += 1;
        }
        let order = sorted_order(&keys);
        let mut out: Vec<VideoChunkInfo> = Vec::new();
        let mut a: usize = 0;
        while a < order.len()
            invariant
                a <= order@.len(),
                all == self.chunk_rows(),
                is_sorted_order(order@, keys@),
                picked@.len() == keys@.len(),
                forall|x: int| 0 <= x < picked@.len() ==> (#[trigger] picked@[x]) < self.chunks@.len(),
                out@.len() == a,
                forall|x: int|
                    0 <= x < a ==> (#[trigger] chunk_rows(out@)[x]) == all[picked@[order@[x] as int] as int],
            decreases order.len() - a,
        {
            let ghost before = chunk_rows(out@);
            out.push(self.chunks[picked[order[a]]].duplicate());
            proof {
                assert(chunk_rows(out@) =~= before.push(all[picked@[order@[a as int] as int] as int]));
            }
            a += 1;
        }
        proof {
            let list = chunk_rows(out@);
            assert forall|x: int| 0 <= x < list.len() implies all.contains(#[trigger] list[x])
                && of_task(list[x], task_id@) by {
                let p = picked@[order@[x] as int] as int;
                assert(all[p] == list[x]);
            }
            assert forall|k: int|
                0 <= k < all.len() && of_task(#[trigger] all[k], task_id@) implies list.contains(
                all[k],
            ) by {
                assert(lists(picked@, k));
                let x = choose|x: int| 0 <= x < picked@.len() && #[trigger] picked@[x] == k;
                assert(lists(order@, x));
                let y = choose|y: int| 0 <= y < order@.len() && #[trigger] order@[y] == x;
                assert(list[y] == all[k]);
            }
            assert forall|x: int, y: int| 0 <= x < y < list.len() implies chunk_before(
                #[trigger] list[x],
                #[trigger] list[y],
            ) by {
                let ox = order@[x] as int;
                let oy = order@[y] as int;
                let px = picked@[ox] as int;
                let py = picked@[oy] as int;
                assert(crate::sorting::row_before(keys@, ox, oy));
                assert(list[x] == all[px] && list[y] == all[py]);
                assert(all[px].id == self.chunks@[px].id && all[py].id == self.chunks@[py].id);
                if ox < oy {
                    assert(picked@[ox] < picked@[oy]);
                    assert(self.chunks@[px].id < self.chunks@[py].id);
                } else if oy < ox {
                    assert(picked@[oy] < picked@[ox]);
                    assert(self.chunks@[py].id < self.chunks@[px].id);
                } else {
                    assert(false) by {
                        assert(crate::sorting::row_before(keys@, ox, oy));
                    }
                }
            }
        }
        out
    }

    /// The frames of a task in canonical order: by the creation time of
    /// their chunks, then by their offsets.
    pub fn get_frames_by_task_id(&self, task_id: &str) -> (r: Vec<FrameInfo>)
        requires
            self.wf(),
        ensures
            self.is_task_frames(frame_rows(r@), task_id@),
    {
        let ghost all = self.frame_rows();
        let mut picked: Vec<usize> = Vec::new();
        let mut keys: Vec<SortKey> = Vec::new();
        let mut i: usize = 0;
        while i < self.frames.len()
            invariant
                i <= self.frames@.len(),
                self.wf(),
                all == self.frame_rows(),
                picked@.len() == keys@.len(),
                forall|a: int|
                    0 <= a < picked@.len() ==> (#[trigger] picked@[a]) < i && self.task_of(
                        all[picked@[a] as int].video_chunk_id,
                    ) == Some(task_id@) && keys@[a] == self.frame_key(all[picked@[a] as int]),
                forall|k: int|
                    0 <= k < i && self.task_of((#[trigger] all[k]).video_chunk_id) == Some(
                        task_id@,
                    ) ==> lists(picked@, k),
            decreases self.frames.len() - i,
        {
            proof {
                assert(self.has_chunk(self.frames@[i as int].video_chunk_id));
                assert(all[i as int].video_chunk_id == self.frames@[i as int].video_chunk_id);
            }
            let position = self.chunk_position(self.frames[i].video_chunk_id);
            if let Some(c) = position {
                if Self::belongs_to(&self.chunks[c].task_id, task_id) {
                    let ghost before = picked@;
                    picked.push(i);
                    keys.push(
                        SortKey {
                            first: self.chunks[c].created_at,
                            second: self.frames[i].offset_index,
                            third: self.frames[i].video_chunk_id,
                        },
                    );
                    proof {
                        assert forall|k: int|
                            0 <= k < i + 1 && self.task_of((#[trigger] all[k]).video_chunk_id)
                                == Some(task_id@) implies lists(picked@, k) by {
                            if k < i {
                                assert(lists(before, k));
                                let a = choose|a: int|
                                    0 <= a < before.len() && #[trigger] before[a] == k;
                                assert(picked@[a] == k);
                            } else {
                                assert(picked@[picked@.len() - 1] == k);
                            }
                        }
                    }
                }
            }
            i += 1;
        }
        let order = sorted_order(&keys);
        let mut out: Vec<FrameInfo> = Vec::new();
        let mut a: usize = 0;
        while a < order.len()
            invariant
                a <= order@.len(),
                all == self.frame_rows(),
                is_sorted_order(order@, keys@),
                picked@.len() == keys@.len(),
                forall|x: int| 0 <= x < picked@.len() ==> (#[trigger] picked@[x]) < self.frames@.len(),
                out@.len() == a,
                forall|x: int|
                    0 <= x < a ==> (#[trigger] frame_rows(out@)[x]) == all[picked@[order@[x] as int] as int],
            decreases order.len() - a,
        {
            let ghost before = frame_rows(out@);
            out.push(self.frames[picked[order[a]]].duplicate());
            proof {
                assert(frame_rows(out@) =~= before.push(all[picked@[order@[a as int] as int] as int]));
            }
            a += 1;
        }
        proof {
            let list = frame_rows(out@);
            assert forall|x: int| 0 <= x < list.len() implies self.frame_rows().contains(
                #[trigger] list[x],
            ) && self.task_of(list[x].video_chunk_id) == Some(task_id@) by {
                let p = picked@[order@[x] as int] as int;
                assert(all[p] == list[x]);
            }
            assert forall|k: int|
                0 <= k < all.len() && self.task_of((#[trigger] all[k]).video_chunk_id) == Some(
                    task_id@,
                ) implies list.contains(all[k]) by {
                assert(lists(picked@, k));
                let x = choose|x: int| 0 <= x < picked@.len() && #[trigger] picked@[x] == k;
                assert(lists(order@, x));
                let y = choose|y: int| 0 <= y < order@.len() && #[trigger] order@[y] == x;
                assert(list[y] == all[k]);
            }
            assert forall|x: int, y: int| 0 <= x < y < list.len() implies !key_before(
                self.frame_key(#[trigger] list[y]),
                self.frame_key(#[trigger] list[x]),
            ) by {
                let ox = order@[x] as int;
                let oy = order@[y] as int;
                assert(crate::sorting::row_before(keys@, ox, oy));
                assert(list[x] == all[picked@[ox] as int] && list[y] == all[picked@[oy] as int]);
            }
        }
        out
    }
}

/// Some frame of the list has offset `n`.
pub open spec fn has_offset(frames: Seq<FrameRow>, n: int) -> bool {
    exists|k: int| 0 <= k < frames.len() && (#[trigger] frames[k]).offset_index == n
}

/// In a catalog that keeps its rules, the offsets of a chunk with `n`
/// frames are exactly the numbers from 0 to `n - 1`: every such number is
/// the offset of a frame, no other number is, and no two frames share an
/// offset.  The frames carry them in the order in which they were
/// appended.
pub proof fn lemma_chunk_offsets_have_no_gaps(db: Database, chunk_id: i64)
    requires
        db.wf(),
    ensures
        forall|n: int|
            #[trigger] has_offset(frames_of(db.frame_rows(), chunk_id), n) <==> 0 <= n
                < frames_of(db.frame_rows(), chunk_id).len(),
        forall|j: int, k: int|
            0 <= j < k < frames_of(db.frame_rows(), chunk_id).len() ==> (#[trigger] frames_of(
                db.frame_rows(),
                chunk_id,
            )[j]).offset_index != (#[trigger] frames_of(db.frame_rows(), chunk_id)[k]).offset_index,
        contiguous(frames_of(db.frame_rows(), chunk_id)),
{
    let fs = frames_of(db.frame_rows(), chunk_id);
    assert(contiguous(fs));
    assert forall|n: int| #[trigger] has_offset(fs, n) <==> 0 <= n < fs.len() by {
        if 0 <= n < fs.len() {
            assert(fs[n].offset_index == n);
        }
    }
}

/// Frame row `i` is the only row with its id, and exactly one catalogued
/// chunk has the id that the row names as its chunk.
pub open spec fn stands_once(db: Database, i: int) -> bool {
    &&& 0 <= i < db.frames@.len()
    &&& forall|k: int|
        0 <= k < db.frames@.len() && (#[trigger] db.frames@[k]).id == db.frames@[i].id ==> k == i
    &&& exists|j: int|
        {
            &&& 0 <= j < db.chunks@.len()
            &&& (#[trigger] db.chunks@[j]).id == db.frames@[i].video_chunk_id
            &&& forall|m: int|
                0 <= m < db.chunks@.len() && (#[trigger] db.chunks@[m]).id == db.chunks@[j].id
                    ==> m == j
        }
}

/// In a catalog that keeps its rules, every frame that was stored stands
/// in exactly one frame row and belongs to exactly one chunk.
pub proof fn lemma_frame_stands_once(db: Database, i: int)
    requires
        db.wf(),
        0 <= i < db.frames@.len(),
    ensures
        stands_once(db, i),
{
    assert forall|k: int|
        0 <= k < db.frames@.len() && (#[trigger] db.frames@[k]).id == db.frames@[i].id implies k
        == i by {
        if k < i {
            assert(db.frames@[k].id < db.frames@[i].id);
        } else if i < k {
            assert(db.frames@[i].id < db.frames@[k].id);
        }
    }
    assert(db.has_chunk(db.frames@[i].video_chunk_id));
    let j = choose|j: int|
        0 <= j < db.chunks@.len() && (#[trigger] db.chunks@[j]).id == db.frames@[i].video_chunk_id;
    assert forall|m: int|
        0 <= m < db.chunks@.len() && (#[trigger] db.chunks@[m]).id == db.chunks@[j].id implies m
        == j by {
        if m < j {
            assert(db.chunks@[m].id < db.chunks@[j].id);
        } else if j < m {
            assert(db.chunks@[j].id < db.chunks@[m].id);
        }
    }
}

/// The columns that frame rows got after the first release, each with the
/// statement that adds it.
pub open spec fn added_columns() -> Seq<(Seq<char>, Seq<char>)> {
    seq![
        ("display_index"@, "ALTER TABLE frames ADD COLUMN display_index INTEGER DEFAULT 0"@),
        ("display_width"@, "ALTER TABLE frames ADD COLUMN display_width INTEGER"@),
        ("display_height"@, "ALTER TABLE frames ADD COLUMN display_height INTEGER"@),
    ]
}

/// The statements that bring a frames table with the given columns up to
/// date: one for each later column that the table lacks, in the order of
/// the columns.  Nothing is ever dropped or renamed.
pub open spec fn migration_plan(existing: Seq<Seq<char>>, k: int) -> Seq<Seq<char>>
    decreases k,
{
    if k <= 0 {
        seq![]
    } else {
        let rest = migration_plan(existing, k - 1);
        if existing.contains(added_columns()[k - 1].0) {
            rest
        } else {
            rest.push(added_columns()[k - 1].1)
        }
    }
}

fn has_column(existing: &Vec<String>, name: &str) -> (r: bool)
    ensures
        r == texts(existing@).contains(name@),
{
    let mut i: usize = 0;
    while i < existing.len()
        invariant
            i <= existing@.len(),
            forall|j: int| 0 <= j < i ==> (#[trigger] texts(existing@)[j]) != name@,
        decreases existing.len() - i,
    {
        if str_eq(existing[i].as_str(), name) {
            assert(texts(existing@)[i as int] == name@);
            return true;
        }
        i += 1;
    }
    false
}

/// The statements that bring a frames table with the given columns up to
/// date.
pub fn migration_statements(existing_columns: &Vec<String>) -> (r: Vec<String>)
    ensures
        texts(r@) == migration_plan(texts(existing_columns@), 3),
{
    let mut out: Vec<String> = Vec::new();
    assert(texts(out@) =~= migration_plan(texts(existing_columns@), 0));
    if !has_column(existing_columns, "display_index") {
        push_text(&mut out, "ALTER TABLE frames ADD COLUMN display_index INTEGER DEFAULT 0");
    }
    assert(texts(out@) == migration_plan(texts(existing_columns@), 1));
    if !has_column(existing_columns, "display_width") {
        push_text(&mut out, "ALTER TABLE frames ADD COLUMN display_width INTEGER");
    }
    assert(texts(out@) == migration_plan(texts(existing_columns@), 2));
    if !has_column(existing_columns, "display_height") {
        push_text(&mut out, "ALTER TABLE frames ADD COLUMN display_height INTEGER");
    }
    out
}

/// The statements that create the catalog's tables and indexes where they
/// are missing: sessions, chunks and frames, the index of frames by chunk
/// and the partial index of keyframes.
pub open spec fn schema() -> Seq<Seq<char>> {
    seq![
        "CREATE TABLE IF NOT EXISTS recording_sessions (id INTEGER PRIMARY KEY AUTOINCREMENT, task_id TEXT NOT NULL, device_name TEXT NOT NULL, started_at TIMESTAMP NOT NULL, ended_at TIMESTAMP)"@,
        "CREATE TABLE IF NOT EXISTS video_chunks (id INTEGER PRIMARY KEY AUTOINCREMENT, file_path TEXT NOT NULL, device_name TEXT NOT NULL, recording_type TEXT, task_id TEXT, chunk_index INTEGER, session_id INTEGER, fps INTEGER, created_at TIMESTAMP DEFAULT CURRENT_TIMESTAMP)"@,
        "CREATE TABLE IF NOT EXISTS frames (id INTEGER PRIMARY KEY AUTOINCREMENT, video_chunk_id INTEGER NOT NULL, offset_index INTEGER NOT NULL, timestamp TIMESTAMP NOT NULL, device_name TEXT, is_keyframe INTEGER DEFAULT 0, pts INTEGER, dts INTEGER, display_index INTEGER DEFAULT 0, display_width INTEGER, display_height INTEGER, FOREIGN KEY (video_chunk_id) REFERENCES video_chunks(id) ON DELETE CASCADE)"@,
        "CREATE INDEX IF NOT EXISTS idx_frames_video_chunk_id ON frames(video_chunk_id)"@,
        "CREATE INDEX IF NOT EXISTS idx_frames_keyframe ON frames(is_keyframe) WHERE is_keyframe = 1"@,
    ]
}

/// The statements that create the catalog's tables and indexes.
pub fn schema_statements() -> (r: Vec<String>)
    ensures
        texts(r@) == schema(),
{
    let mut out: Vec<String> = Vec::new();
    assert(texts(out@) =~= seq![]);
    push_text(
        &mut out,
        "CREATE TABLE IF NOT EXISTS recording_sessions (id INTEGER PRIMARY KEY AUTOINCREMENT, task_id TEXT NOT NULL, device_name TEXT NOT NULL, started_at TIMESTAMP NOT NULL, ended_at TIMESTAMP)",
    );
    push_text(
        &mut out,
        "CREATE TABLE IF NOT EXISTS video_chunks (id INTEGER PRIMARY KEY AUTOINCREMENT, file_path TEXT NOT NULL, device_name TEXT NOT NULL, recording_type TEXT, task_id TEXT, chunk_index INTEGER, session_id INTEGER, fps INTEGER, created_at TIMESTAMP DEFAULT CURRENT_TIMESTAMP)",
    );
    push_text(
        &mut out,
        "CREATE TABLE IF NOT EXISTS frames (id INTEGER PRIMARY KEY AUTOINCREMENT, video_chunk_id INTEGER NOT NULL, offset_index INTEGER NOT NULL, timestamp TIMESTAMP NOT NULL, device_name TEXT, is_keyframe INTEGER DEFAULT 0, pts INTEGER, dts INTEGER, display_index INTEGER DEFAULT 0, display_width INTEGER, display_height INTEGER, FOREIGN KEY (video_chunk_id) REFERENCES video_chunks(id) ON DELETE CASCADE)",
    );
    push_text(
        &mut out,
        "CREATE INDEX IF NOT EXISTS idx_frames_video_chunk_id ON frames(video_chunk_id)",
    );
    push_text(
        &mut out,
        "CREATE INDEX IF NOT EXISTS idx_frames_keyframe ON frames(is_keyframe) WHERE is_keyframe = 1",
    );
    assert(texts(out@) =~= schema());
    out
}

} // verus!
