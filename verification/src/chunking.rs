//! The chunking encoder's bookkeeping: the state of the chunk that is
//! being written, what is recorded of each encoded frame, and when a
//! recording rolls over to the next chunk.

use crate::capture::Frame;
use crate::encoder::{EncoderInfo, FrameMetadata, RecordingOutput};
use crate::error::ScreenRecError;
use crate::pixels::{is_fitted, is_yuv_of, rgb_to_yuv420p, scale_and_pad_frame, Yuv420};
use chrono::TimeZone;
use vstd::arithmetic::div_mod::{lemma_fundamental_div_mod, lemma_fundamental_div_mod_converse};
use vstd::prelude::*;
use vstd::string::*;

verus! {

/// Where a chunk is in its life.
#[derive(Debug, Clone, Copy, PartialEq, Eq, Structural)]
pub enum ChunkState {
    /// The output file is open; no frame was submitted yet.
    Opening,
    /// Frames are being submitted.
    Running,
    /// The encoder is being drained; no more frames are taken.
    Flushing,
    /// The trailer is written and the file is read-only.
    Closed,
}

impl ChunkState {
    /// Frames can be submitted: the chunk is open and not yet flushing.
    pub open spec fn accepts_frames(self) -> bool {
        self == ChunkState::Opening || self == ChunkState::Running
    }
}

/// A frame as the encoder takes it: planar YUV at the encoder's size, with
/// its presentation timestamp in the encoder's time base.
pub struct PreparedFrame {
    pub planes: Yuv420,
    pub pts: i64,
}

/// Seconds since the Unix epoch at the end of the year 9999.
pub const LAST_STAMP_SECS: i64 = 253_402_300_799;

/// Largest offset from UTC, in seconds, that a time zone can have.
pub const MAX_OFFSET_SECS: i32 = 86_399;

/// The date and time, as `YYYY-MM-DD_HH-MM-SS`, of the instant `secs`
/// seconds after the Unix epoch in the time zone `offset_secs` east of UTC.
pub uninterp spec fn stamp_text(secs: i64, offset_secs: i32) -> Seq<char>;

/// chrono's `FixedOffset::east_opt`, `TimeZone::timestamp_opt` and
/// `DateTime::format` with the pattern `%Y-%m-%d_%H-%M-%S`: the local date
/// and time of an instant in a time zone given by its offset.  For an
/// offset of less than a day and an instant between the epoch and the end
/// of the year 9999 chrono has a date and time.  The result depends on the
/// two numbers alone.
#[verifier::external_body]
fn format_stamp(secs: i64, offset_secs: i32) -> (r: Option<String>)
    requires
        0 <= secs <= LAST_STAMP_SECS,
        -MAX_OFFSET_SECS <= offset_secs <= MAX_OFFSET_SECS,
    ensures
        r is Some,
        r matches Some(s) ==> s@ == stamp_text(secs, offset_secs),
{
    let zone = chrono::FixedOffset::east_opt(offset_secs)?;
    let at = zone.timestamp_opt(secs, 0).single()?;
    Some(at.format("%Y-%m-%d_%H-%M-%S").to_string())
}

/// Whether a chunk opened at this instant in this time zone gets a file
/// name: the instant lies between the epoch and the end of the year 9999,
/// and the offset is less than a day.
pub open spec fn has_stamp(secs: i64, offset_secs: i32) -> bool {
    0 <= secs <= LAST_STAMP_SECS && -MAX_OFFSET_SECS <= offset_secs <= MAX_OFFSET_SECS
}

/// The file name of a chunk that was opened at the stamped local time.
pub fn chunk_file_name_of(stamp: &str) -> (r: String)
    ensures
        r@ == stamp@ + ".mp4"@,
{
    let mut name = String::from_str(stamp);
    name.append(".mp4");
    name
}

/// The file name of a chunk opened `secs` seconds after the Unix epoch in
/// a time zone `offset_secs` east of UTC: the local date and time followed
/// by `.mp4`.  There is none for an instant before the epoch or after the
/// year 9999, nor for an offset of a day or more.
pub fn chunk_file_name(secs: i64, offset_secs: i32) -> (r: Option<String>)
    ensures
        !has_stamp(secs, offset_secs) ==> r is None,
        has_stamp(secs, offset_secs) ==> (r matches Some(name) && name@ == stamp_text(
            secs,
            offset_secs,
        ) + ".mp4"@),
{
    if secs < 0 || secs > LAST_STAMP_SECS || offset_secs < -MAX_OFFSET_SECS || offset_secs
        > MAX_OFFSET_SECS {
        return None;
    }
    match format_stamp(secs, offset_secs) {
        Some(stamp) => Some(chunk_file_name_of(stamp.as_str())),
        None => None,
    }
}

/// The encoder of one chunk, as far as the recorder's own bookkeeping
/// goes; the codec itself is driven next to it.
pub struct VideoEncoder {
    pub output_path: String,
    /// Frames submitted to this chunk.
    pub frame_count: u64,
    /// Logical number of this chunk's first frame within the recording.
    pub pts_offset: i64,
    pub width: usize,
    pub height: usize,
    pub fps: u32,
    pub last_packet_keyframe: bool,
    pub last_packet_pts: Option<i64>,
    pub last_packet_dts: Option<i64>,
    /// The backend in use.
    pub encoder_info: EncoderInfo,
    pub state: ChunkState,
}

impl VideoEncoder {
    /// The frame numbers of this chunk fit the timestamp type, and a frame
    /// of the encoder's size fits in memory.
    pub open spec fn wf(self) -> bool {
        &&& 0 <= self.pts_offset
        &&& self.pts_offset + self.frame_count <= i64::MAX
        &&& self.width * self.height * 3 <= usize::MAX
    }

    /// The encoder of a chunk that was just opened with the selected
    /// backend.
    pub fn new_with_pts_offset(
        output_path: &str,
        width: usize,
        height: usize,
        fps: u32,
        pts_offset: i64,
        encoder_info: EncoderInfo,
    ) -> (r: VideoEncoder)
        ensures
            r.output_path@ == output_path@,
            r.frame_count == 0,
            r.pts_offset == pts_offset,
            r.width == width,
            r.height == height,
            r.fps == fps,
            !r.last_packet_keyframe,
            r.last_packet_pts is None,
            r.last_packet_dts is None,
            r.encoder_info == encoder_info,
            r.state == ChunkState::Opening,
            0 <= pts_offset && width * height * 3 <= usize::MAX ==> r.wf(),
    {
        VideoEncoder {
            output_path: String::from_str(output_path),
            frame_count: 0,
            pts_offset,
            width,
            height,
            fps,
            last_packet_keyframe: false,
            last_packet_pts: None,
            last_packet_dts: None,
            encoder_info,
            state: ChunkState::Opening,
        }
    }

    /// The frame's pixels at the encoder's size.  A frame of another size
    /// than the encoder's is fitted into it, scaled and padded; one of the
    /// encoder's size goes through as it is.
    pub fn fit_frame(&self, frame: Frame) -> (rgb: Vec<u8>)
        requires
            self.wf(),
        ensures
            frame.width == self.width && frame.height == self.height ==> rgb@ == frame.data@,
            !(frame.width == self.width && frame.height == self.height) ==> is_fitted(
                rgb@,
                frame.data@,
                frame.width as int,
                frame.height as int,
                self.width as int,
                self.height as int,
            ),
    {
        if frame.width != self.width || frame.height != self.height {
            scale_and_pad_frame(
                frame.data.as_slice(),
                frame.width,
                frame.height,
                self.width,
                self.height,
            )
        } else {
            frame.data
        }
    }

    /// Gets a frame of the encoder's size ready for the codec: planar YUV
    /// with the frame's number within the chunk as its timestamp.  A chunk
    /// that is flushing or closed takes no frame.
    pub fn prepare_frame(&self, rgb: &[u8]) -> (r: Result<PreparedFrame, ScreenRecError>)
        requires
            self.wf(),
            rgb@.len() >= self.width * self.height * 3,
        ensures
            !self.state.accepts_frames() ==> (r matches Err(ScreenRecError::EncodingError(m))
                && m@ == "Chunk is not accepting frames"@),
            self.state.accepts_frames() ==> (r matches Ok(p) && p.pts == self.frame_count
                && is_yuv_of(p.planes, rgb@, self.width as int, self.height as int)),
    {
        match self.state {
            ChunkState::Opening | ChunkState::Running => {},
            _ => {
                return Err(
                    ScreenRecError::EncodingError(String::from_str("Chunk is not accepting frames")),
                );
            },
        }
        let pts: i64 = self.frame_count as i64;
        let planes = rgb_to_yuv420p(rgb, self.width, self.height);
        Ok(PreparedFrame { planes, pts })
    }

    /// Notes the flags and timestamps of a packet that the codec gave out,
    /// as they are before rescaling to the stream's time base.
    pub fn record_packet(&mut self, is_keyframe: bool, pts: Option<i64>, dts: Option<i64>)
        ensures
            final(self).last_packet_keyframe == is_keyframe,
            final(self).last_packet_pts == pts,
            final(self).last_packet_dts == dts,
            final(self).output_path == old(self).output_path,
            final(self).frame_count == old(self).frame_count,
            final(self).pts_offset == old(self).pts_offset,
            final(self).width == old(self).width,
            final(self).height == old(self).height,
            final(self).fps == old(self).fps,
            final(self).encoder_info == old(self).encoder_info,
            final(self).state == old(self).state,
    {
        self.last_packet_keyframe = is_keyframe;
        self.last_packet_pts = pts;
        self.last_packet_dts = dts;
    }

    /// Counts a frame that the codec took and describes it by the latest
    /// packet and by its source.  The chunk is running from then on.
    pub fn frame_submitted(&mut self, display_index: usize, width: usize, height: usize) -> (r:
        FrameMetadata)
        requires
            old(self).wf(),
            old(self).state.accepts_frames(),
            old(self).pts_offset + old(self).frame_count < i64::MAX,
        ensures
            final(self).wf(),
            final(self).frame_count == old(self).frame_count + 1,
            final(self).state == ChunkState::Running,
            r == (FrameMetadata {
                is_keyframe: old(self).last_packet_keyframe,
                pts: old(self).last_packet_pts,
                dts: old(self).last_packet_dts,
                display_index,
                width,
                height,
            }),
            final(self).output_path == old(self).output_path,
            final(self).pts_offset == old(self).pts_offset,
            final(self).width == old(self).width,
            final(self).height == old(self).height,
            final(self).fps == old(self).fps,
            final(self).last_packet_keyframe == old(self).last_packet_keyframe,
            final(self).last_packet_pts == old(self).last_packet_pts,
            final(self).last_packet_dts == old(self).last_packet_dts,
            final(self).encoder_info == old(self).encoder_info,
    {
        let metadata = FrameMetadata {
            is_keyframe: self.last_packet_keyframe,
            pts: self.last_packet_pts,
            dts: self.last_packet_dts,
            display_index,
            width,
            height,
        };
        self.frame_count = self.frame_count + 1;
        self.state = ChunkState::Running;
        metadata
    }

    /// The logical number of the frame that follows this chunk's last one;
    /// the next chunk starts there.
    pub fn get_next_pts(&self) -> (r: i64)
        requires
            self.wf(),
        ensures
            r == self.pts_offset + self.frame_count,
    {
        self.pts_offset + (self.frame_count as i64)
    }

    /// Puts a fallback backend in the place of the failed one.
    pub fn swap_encoder(&mut self, fallback: EncoderInfo)
        ensures
            final(self).encoder_info == fallback,
            final(self).output_path == old(self).output_path,
            final(self).frame_count == old(self).frame_count,
            final(self).pts_offset == old(self).pts_offset,
            final(self).width == old(self).width,
            final(self).height == old(self).height,
            final(self).fps == old(self).fps,
            final(self).last_packet_keyframe == old(self).last_packet_keyframe,
            final(self).last_packet_pts == old(self).last_packet_pts,
            final(self).last_packet_dts == old(self).last_packet_dts,
            final(self).state == old(self).state,
    {
        self.encoder_info = fallback;
    }

    /// Starts the flush: on rollover or shutdown a chunk that takes frames
    /// stops taking them.  A chunk that is already flushing or closed
    /// stays as it is.  Returns whether the codec is to be drained now.
    pub fn begin_flush(&mut self) -> (r: bool)
        ensures
            r == old(self).state.accepts_frames(),
            final(self).state == if old(self).state.accepts_frames() {
                ChunkState::Flushing
            } else {
                old(self).state
            },
            final(self).output_path == old(self).output_path,
            final(self).frame_count == old(self).frame_count,
            final(self).pts_offset == old(self).pts_offset,
            final(self).width == old(self).width,
            final(self).height == old(self).height,
            final(self).fps == old(self).fps,
            final(self).last_packet_keyframe == old(self).last_packet_keyframe,
            final(self).last_packet_pts == old(self).last_packet_pts,
            final(self).last_packet_dts == old(self).last_packet_dts,
            final(self).encoder_info == old(self).encoder_info,
    {
        match self.state {
            ChunkState::Opening | ChunkState::Running => {
                self.state = ChunkState::Flushing;
                true
            },
            _ => false,
        }
    }

    /// Closes the chunk once the trailer is written and names its file.
    pub fn finish(self) -> (r: RecordingOutput)
        requires
            self.state == ChunkState::Flushing,
        ensures
            r.video_file == self.output_path,
    {
        RecordingOutput { video_file: self.output_path }
    }
}

/// What is to be done with a frame that arrived.
#[derive(Debug, Clone, Copy, PartialEq, Eq, Structural)]
pub enum FrameStep {
    /// Encode it into the current chunk.
    Encode,
    /// Finish the current chunk, open the chunk with this index and this
    /// logical number for its first frame, then encode the frame into it.
    Rollover { chunk_index: i64, pts_offset: i64 },
}

/// Counts frames and decides when a recording rolls over to a new chunk.
#[derive(Debug, Clone, Copy, PartialEq, Eq, Structural)]
pub struct ChunkPlanner {
    /// Frames that make a full chunk.
    pub frames_per_chunk: u64,
    /// Index of the current chunk within the recording, from 0.
    pub chunk_index: i64,
    pub frames_in_current_chunk: u64,
    /// Logical number of the current chunk's first frame.
    pub next_pts_offset: i64,
    pub total_frames_encoded: u64,
}

/// Frames in a chunk of `chunk_duration_secs` seconds at `fps` frames per
/// second, limited to the largest number that fits.
pub open spec fn frames_per_chunk_of(fps: u32, chunk_duration_secs: u64) -> u64 {
    if fps * chunk_duration_secs <= u64::MAX {
        (fps * chunk_duration_secs) as u64
    } else {
        u64::MAX
    }
}

impl ChunkPlanner {
    /// With a positive chunk length, the frames encoded so far fill the
    /// chunks in order: before the first frame chunk 0 is empty; after
    /// frame number `n` (counted from 0) the current chunk is number
    /// `n / frames_per_chunk` and holds `n % frames_per_chunk + 1` frames.
    pub open spec fn filled_in_order(self) -> bool {
        self.frames_per_chunk > 0 ==> if self.total_frames_encoded == 0 {
            self.chunk_index == 0 && self.frames_in_current_chunk == 0
        } else {
            let last = self.total_frames_encoded - 1;
            self.chunk_index == last / (self.frames_per_chunk as int)
                && self.frames_in_current_chunk == last % (self.frames_per_chunk as int) + 1
        }
    }

    /// The current chunk and the count of its frames are those that the
    /// number `n` of the next frame names: chunk `n / frames_per_chunk`
    /// with `n % frames_per_chunk` frames before it.
    pub open spec fn next_frame_placed(self) -> bool {
        let n = self.total_frames_encoded as int;
        let per = self.frames_per_chunk as int;
        self.chunk_index == n / per && self.frames_in_current_chunk == n % per
    }

    /// The planner at the start of a recording: chunk 0 is open and empty.
    pub fn new(fps: u32, chunk_duration_secs: u64) -> (r: ChunkPlanner)
        ensures
            r.frames_per_chunk == frames_per_chunk_of(fps, chunk_duration_secs),
            r.chunk_index == 0,
            r.frames_in_current_chunk == 0,
            r.next_pts_offset == 0,
            r.total_frames_encoded == 0,
            r.filled_in_order(),
    {
        let frames_per_chunk: u64 = match (fps as u64).checked_mul(chunk_duration_secs) {
            Some(n) => n,
            None => u64::MAX,
        };
        ChunkPlanner {
            frames_per_chunk,
            chunk_index: 0,
            frames_in_current_chunk: 0,
            next_pts_offset: 0,
            total_frames_encoded: 0,
        }
    }

    /// A frame arrived.  Where the current chunk is full, the recording
    /// rolls over: the next chunk gets the next index and starts at the
    /// logical frame number that the current encoder reports.  The frame
    /// that arrived, number `n` of the recording, then goes into chunk
    /// `n / frames_per_chunk` as its frame `n % frames_per_chunk`.
    pub fn on_frame(&mut self, encoder_next_pts: i64) -> (r: FrameStep)
        requires
            old(self).chunk_index < i64::MAX,
        ensures
            final(self).frames_per_chunk == old(self).frames_per_chunk,
            final(self).total_frames_encoded == old(self).total_frames_encoded,
            old(self).frames_in_current_chunk >= old(self).frames_per_chunk ==> r
                == (FrameStep::Rollover {
                chunk_index: (old(self).chunk_index + 1) as i64,
                pts_offset: encoder_next_pts,
            }) && final(self).chunk_index == old(self).chunk_index + 1
                && final(self).frames_in_current_chunk == 0
                && final(self).next_pts_offset == encoder_next_pts,
            old(self).frames_in_current_chunk < old(self).frames_per_chunk ==> r
                == FrameStep::Encode && *final(self) == *old(self),
            old(self).filled_in_order() && old(self).frames_per_chunk > 0 ==> final(self).next_frame_placed(),
    {
        proof {
            if self.filled_in_order() && self.frames_per_chunk > 0
                && self.total_frames_encoded > 0 {
                let per = self.frames_per_chunk as int;
                let last = self.total_frames_encoded - 1;
                lemma_fundamental_div_mod(last, per);
                if last % per + 1 == per {
                    assert(last + 1 == per * (last / per + 1) + 0) by (nonlinear_arith)
                        requires
                            last == per * (last / per) + last % per,
                            last % per + 1 == per,
                    ;
                    lemma_fundamental_div_mod_converse(last + 1, per, last / per + 1, 0);
                } else {
                    lemma_fundamental_div_mod_converse(
                        last + 1,
                        per,
                        last / per,
                        last % per + 1,
                    );
                }
            }
            if self.frames_per_chunk > 0 && self.total_frames_encoded == 0 {
                lemma_fundamental_div_mod_converse(0, self.frames_per_chunk as int, 0, 0);
            }
        }
        if self.frames_in_current_chunk >= self.frames_per_chunk {
            self.next_pts_offset = encoder_next_pts;
            self.chunk_index = self.chunk_index + 1;
            self.frames_in_current_chunk = 0;
            FrameStep::Rollover { chunk_index: self.chunk_index, pts_offset: encoder_next_pts }
        } else {
            FrameStep::Encode
        }
    }

    /// The frame that arrived last was encoded into the current chunk.
    pub fn on_encoded(&mut self)
        requires
            old(self).total_frames_encoded < u64::MAX,
            old(self).frames_in_current_chunk < u64::MAX,
        ensures
            final(self).frames_per_chunk == old(self).frames_per_chunk,
            final(self).chunk_index == old(self).chunk_index,
            final(self).next_pts_offset == old(self).next_pts_offset,
            final(self).frames_in_current_chunk == old(self).frames_in_current_chunk + 1,
            final(self).total_frames_encoded == old(self).total_frames_encoded + 1,
            old(self).frames_per_chunk > 0 && old(self).next_frame_placed() ==> final(self).filled_in_order(),
    {
        self.frames_in_current_chunk = self.frames_in_current_chunk + 1;
        self.total_frames_encoded = self.total_frames_encoded + 1;
    }
}

} // verus!
