//! The figures that go into a task's manifest: what the probe reports of
//! the final video, and the statistics of the task's frames.

use crate::concat::{largest_resolution, Resolution, ResolutionUse, ToolOutput};
use crate::db::{chunk_rows, frame_rows, ChunkRow, FrameInfo, FrameRow, VideoChunkInfo};
use crate::durations::{read_seconds, seconds_reading, MAX_SECONDS};
use crate::text::{
    decimal, parse_i64, parse_i64_spec, push_decimal, str_eq, texts,
};
use chrono::TimeZone;
use vstd::prelude::*;
use vstd::string::*;

verus! {

/// The string at a JSON pointer in a JSON document; none where the
/// document does not parse or the pointer does not lead to a string.
pub uninterp spec fn json_text_at(document: Seq<char>, pointer: Seq<char>) -> Option<Seq<char>>;

/// The length of the array at a JSON pointer in a JSON document; none
/// where the document does not parse or the pointer does not lead to an
/// array.
pub uninterp spec fn json_array_len(document: Seq<char>, pointer: Seq<char>) -> Option<nat>;

/// serde_json's `from_str`, `Value::pointer` and `Value::as_str`: parses
/// the document, follows the pointer and hands out the string found there.
/// The result depends on the two texts alone.
#[verifier::external_body]
fn json_string(document: &str, pointer: &str) -> (r: Option<String>)
    ensures
        r is Some == json_text_at(document@, pointer@) is Some,
        r matches Some(s) ==> s@ == json_text_at(document@, pointer@)->0,
{
    let value: serde_json::Value = serde_json::from_str(document).ok()?;
    value.pointer(pointer)?.as_str().map(String::from)
}

/// serde_json's `from_str`, `Value::pointer` and `Value::as_array`: parses
/// the document, follows the pointer and counts the elements of the array
/// found there.  The result depends on the two texts alone.
#[verifier::external_body]
fn json_array_length(document: &str, pointer: &str) -> (r: Option<usize>)
    ensures
        r is Some == json_array_len(document@, pointer@) is Some,
        r matches Some(n) ==> n == json_array_len(document@, pointer@)->0,
{
    let value: serde_json::Value = serde_json::from_str(document).ok()?;
    Some(value.pointer(pointer)?.as_array()?.len())
}

/// The number that a probe field holds: the field's text read as a signed
/// decimal number, 0 where the field is absent or is no number.
pub open spec fn number_of(field: Option<Seq<char>>) -> i64 {
    match field {
        Some(text) => match parse_i64_spec(text) {
            Some(n) => n,
            None => 0,
        },
        None => 0,
    }
}

/// The number that a probe field holds.
pub fn number_or_zero(field: &Option<String>) -> (r: i64)
    ensures
        r == number_of(
            match *field {
                Some(s) => Some(s@),
                None => None,
            },
        ),
{
    match field {
        Some(text) => match parse_i64(text.as_str()) {
            Some(n) => n,
            None => 0,
        },
        None => 0,
    }
}

/// The type and the codec name of one stream, as far as the probe names
/// them.
pub struct StreamEntry {
    pub codec_type: Option<String>,
    pub codec_name: Option<String>,
}

/// A stream entry as a mathematical value.
pub struct StreamSpec {
    pub codec_type: Option<Seq<char>>,
    pub codec_name: Option<Seq<char>>,
}

impl View for StreamEntry {
    type V = StreamSpec;

    open spec fn view(&self) -> StreamSpec {
        StreamSpec {
            codec_type: match self.codec_type {
                Some(t) => Some(t@),
                None => None,
            },
            codec_name: match self.codec_name {
                Some(n) => Some(n@),
                None => None,
            },
        }
    }
}

/// The stream entries of a list as mathematical values.
pub open spec fn stream_specs(list: Seq<StreamEntry>) -> Seq<StreamSpec> {
    list.map_values(|e: StreamEntry| e@)
}

/// The codec of the first video stream at or after position `from`: its
/// name, `unknown` where the stream has none, and the empty text where no
/// video stream follows.
pub open spec fn video_codec_from(streams: Seq<StreamSpec>, from: int) -> Seq<char>
    decreases streams.len() - from,
{
    if from < 0 || from >= streams.len() {
        seq![]
    } else if streams[from].codec_type == Some("video"@) {
        match streams[from].codec_name {
            Some(n) => n,
            None => "unknown"@,
        }
    } else {
        video_codec_from(streams, from + 1)
    }
}

/// The codec of the first video stream.
pub fn video_codec_of(streams: &Vec<StreamEntry>) -> (r: String)
    ensures
        r@ == video_codec_from(stream_specs(streams@), 0),
{
    let ghost specs = stream_specs(streams@);
    let mut i: usize = 0;
    while i < streams.len()
        invariant
            i <= streams@.len(),
            specs == stream_specs(streams@),
            video_codec_from(specs, 0) == video_codec_from(specs, i as int),
        decreases streams.len() - i,
    {
        assert(specs[i as int] == streams@[i as int]@);
        let is_video = match &streams[i].codec_type {
            Some(t) => str_eq(t.as_str(), "video"),
            None => false,
        };
        if is_video {
            return match &streams[i].codec_name {
                Some(n) => n.clone(),
                None => String::from_str("unknown"),
            };
        }
        i += 1;
    }
    String::new()
}

/// What the probe reports of the final video.
pub struct ProbeSummary {
    /// The duration as the probe printed it, in seconds.
    pub duration_text: Option<String>,
    pub bit_rate: i64,
    pub size: i64,
    pub codec: String,
}

/// The pointer to a field of stream number `index`.
pub open spec fn stream_pointer(index: nat, field: Seq<char>) -> Seq<char> {
    "/streams/"@ + decimal(index) + "/"@ + field
}

fn stream_field(document: &str, index: usize, field: &str) -> (r: Option<String>)
    ensures
        r is Some == json_text_at(document@, stream_pointer(index as nat, field@)) is Some,
        r matches Some(s) ==> s@ == json_text_at(document@, stream_pointer(index as nat, field@))->0,
{
    let mut pointer = String::from_str("/streams/");
    push_decimal(&mut pointer, index as u64);
    pointer.append("/");
    pointer.append(field);
    json_string(document, pointer.as_str())
}

/// The streams that a report lists, each with its type and codec name.
pub open spec fn reported_streams(doc: Seq<char>) -> Seq<StreamSpec> {
    let count = match json_array_len(doc, "/streams"@) {
        Some(n) => n,
        None => 0,
    };
    Seq::new(
        count,
        |i: int|
            StreamSpec {
                codec_type: json_text_at(doc, stream_pointer(i as nat, "codec_type"@)),
                codec_name: json_text_at(doc, stream_pointer(i as nat, "codec_name"@)),
            },
    )
}

/// Reads the probe's JSON report of the final video.  A probe that did not
/// run or did not succeed reports nothing: no duration, zeros and no
/// codec.  Otherwise the duration, the bit rate and the size come from the
/// report's format section, and the codec from its first video stream.
pub fn read_probe(output: &ToolOutput) -> (r: ProbeSummary)
    ensures
        !(output.ran && output.success) ==> r.duration_text is None && r.bit_rate == 0 && r.size
            == 0 && r.codec@.len() == 0,
        output.ran && output.success ==> ({
            let doc = output.stdout@;
            &&& r.duration_text is Some == json_text_at(doc, "/format/duration"@) is Some
            &&& r.duration_text matches Some(d) ==> d@ == json_text_at(doc, "/format/duration"@)->0
            &&& r.bit_rate == number_of(json_text_at(doc, "/format/bit_rate"@))
            &&& r.size == number_of(json_text_at(doc, "/format/size"@))
            &&& r.codec@ == video_codec_from(reported_streams(doc), 0)
        }),
{
    if !(output.ran && output.success) {
        return ProbeSummary { duration_text: None, bit_rate: 0, size: 0, codec: String::new() };
    }
    let document = output.stdout.as_str();
    let duration_text = json_string(document, "/format/duration");
    let bit_rate_text = json_string(document, "/format/bit_rate");
    let size_text = json_string(document, "/format/size");
    let bit_rate = number_or_zero(&bit_rate_text);
    let size = number_or_zero(&size_text);
    let count: usize = match json_array_length(document, "/streams") {
        Some(n) => n,
        None => 0,
    };
    let mut streams: Vec<StreamEntry> = Vec::new();
    let mut i: usize = 0;
    while i < count
        invariant
            i <= count,
            document@ == output.stdout@,
            count == reported_streams(document@).len(),
            stream_specs(streams@) == reported_streams(document@).take(i as int),
        decreases count - i,
    {
        let ghost before = stream_specs(streams@);
        let entry = StreamEntry {
            codec_type: stream_field(document, i, "codec_type"),
            codec_name: stream_field(document, i, "codec_name"),
        };
        assert(entry@ == reported_streams(document@)[i as int]);
        streams.push(entry);
        assert(stream_specs(streams@) =~= before.push(entry@));
        assert(stream_specs(streams@) =~= reported_streams(document@).take(i + 1));
        i += 1;
    }
    assert(reported_streams(document@).take(i as int) =~= reported_streams(document@));
    let codec = video_codec_of(&streams);
    ProbeSummary { duration_text, bit_rate, size, codec }
}

/// The duration of the final video in microseconds: the seconds that the
/// probe printed, or 0 where it printed none that can be read.
pub open spec fn video_micros_of(duration_text: Option<Seq<char>>) -> u64 {
    match duration_text {
        Some(text) => match seconds_reading(text, (MAX_SECONDS + 1) as u64) {
            Some(micros) => micros,
            None => 0,
        },
        None => 0,
    }
}

/// The duration of the final video in microseconds.
pub fn video_micros(summary: &ProbeSummary) -> (r: u64)
    ensures
        r == video_micros_of(
            match summary.duration_text {
                Some(text) => Some(text@),
                None => None,
            },
        ),
{
    match &summary.duration_text {
        Some(text) => match read_seconds(text.as_str(), MAX_SECONDS + 1) {
            Some(micros) => micros,
            None => 0,
        },
        None => 0,
    }
}

/// The number of keyframes among frames.
pub open spec fn keyframes_in(frames: Seq<FrameRow>) -> nat
    decreases frames.len(),
{
    if frames.len() == 0 {
        0
    } else {
        keyframes_in(frames.drop_last()) + if frames.last().is_keyframe == 1 {
            1nat
        } else {
            0nat
        }
    }
}

/// `displays` lists the displays that the frames came from, each once.
pub open spec fn is_displays_of(displays: Seq<i64>, frames: Seq<FrameRow>) -> bool {
    &&& forall|a: int, b: int|
        0 <= a < b < displays.len() ==> (#[trigger] displays[a]) != (#[trigger] displays[b])
    &&& forall|a: int|
        0 <= a < displays.len() ==> exists|k: int|
            0 <= k < frames.len() && (#[trigger] frames[k]).display_index == Some(
                #[trigger] displays[a],
            )
    &&& forall|k: int|
        0 <= k < frames.len() && (#[trigger] frames[k]).display_index is Some
            ==> displays.contains(frames[k].display_index->0)
}

/// The statistics of a task's frames.
pub struct FrameStats {
    pub total_count: usize,
    pub keyframe_count: usize,
    /// Frames per keyframe, rounded down; 0 without keyframes.
    pub keyframe_interval: usize,
    /// The displays that frames came from, in the order of their first
    /// frame.
    pub displays: Vec<i64>,
}

/// The statistics of a task's frames.
pub fn frame_stats(frames: &Vec<FrameInfo>) -> (r: FrameStats)
    ensures
        r.total_count == frames@.len(),
        r.keyframe_count == keyframes_in(frame_rows(frames@)),
        r.keyframe_interval == if r.keyframe_count > 0 {
            (frames@.len() as int) / (r.keyframe_count as int)
        } else {
            0
        },
        is_displays_of(r.displays@, frame_rows(frames@)),
{
    let ghost rows = frame_rows(frames@);
    let mut keyframes: usize = 0;
    let mut displays: Vec<i64> = Vec::new();
    let mut i: usize = 0;
    assert(rows.take(0) =~= seq![]);
    while i < frames.len()
        invariant
            i <= frames@.len(),
            rows == frame_rows(frames@),
            keyframes == keyframes_in(rows.take(i as int)),
            keyframes <= i,
            is_displays_of(displays@, rows.take(i as int)),
        decreases frames.len() - i,
    {
        let ghost seen = rows.take(i as int);
        let ghost next = rows.take(i + 1);
        proof {
            assert(next.drop_last() =~= seen);
            assert(next.last() == rows[i as int]);
            assert forall|k: int| 0 <= k < seen.len() implies seen[k] == next[k] by {}
        }
        if frames[i].is_keyframe == 1 {
            keyframes = keyframes + 1;
        }
        let ghost before = displays@;
        if let Some(d) = frames[i].display_index {
            let mut a: usize = 0;
            let mut found = false;
            while a < displays.len() && !found
                invariant
                    a <= displays@.len(),
                    displays@ == before,
                    !found ==> forall|b: int| 0 <= b < a ==> (#[trigger] displays@[b]) != d,
                    found ==> a < displays@.len() && displays@[a as int] == d,
                decreases displays.len() - a + if found {
                    0int
                } else {
                    1int
                },
            {
                if displays[a] == d {
                    found = true;
                } else {
                    a += 1;
                }
            }
            if !found {
                displays.push(d);
            }
            proof {
                assert forall|x: int| 0 <= x < displays@.len() implies exists|k: int|
                    0 <= k < next.len() && (#[trigger] next[k]).display_index == Some(
                        #[trigger] displays@[x],
                    ) by {
                    if x < before.len() {
                        let k = choose|k: int|
                            0 <= k < seen.len() && (#[trigger] seen[k]).display_index == Some(
                                before[x],
                            );
                        assert(next[k].display_index == Some(displays@[x]));
                    } else {
                        assert(next[i as int].display_index == Some(displays@[x]));
                    }
                }
                assert forall|k: int|
                    0 <= k < next.len() && (#[trigger] next[k]).display_index is Some implies displays@.contains(
                    next[k].display_index->0,
                ) by {
                    if k < i {
                        assert(seen[k] == next[k]);
                        assert(before.contains(seen[k].display_index->0));
                        let x = choose|x: int|
                            0 <= x < before.len() && before[x] == seen[k].display_index->0;
                        assert(displays@[x] == next[k].display_index->0);
                    } else {
                        if found {
                            assert(displays@[a as int] == d);
                        } else {
                            assert(displays@[displays@.len() - 1] == d);
                        }
                    }
                }
            }
        } else {
            proof {
                assert forall|x: int| 0 <= x < displays@.len() implies exists|k: int|
                    0 <= k < next.len() && (#[trigger] next[k]).display_index == Some(
                        #[trigger] displays@[x],
                    ) by {
                    let k = choose|k: int|
                        0 <= k < seen.len() && (#[trigger] seen[k]).display_index == Some(before[x]);
                    assert(next[k].display_index == Some(displays@[x]));
                }
                assert forall|k: int|
                    0 <= k < next.len() && (#[trigger] next[k]).display_index is Some implies displays@.contains(
                    next[k].display_index->0,
                ) by {
                    assert(k < i);
                    assert(seen[k] == next[k]);
                }
            }
        }
        i += 1;
    }
    assert(rows.take(i as int) =~= rows);
    let keyframe_interval: usize = if keyframes > 0 {
        frames.len() / keyframes
    } else {
        0
    };
    FrameStats { total_count: frames.len(), keyframe_count: keyframes, keyframe_interval, displays }
}

/// The frame size of the final video: the normalization target where the
/// frames come in more than one size, else the one size they have, if any.
pub fn final_resolution(usage: &Vec<ResolutionUse>) -> (r: Option<Resolution>)
    ensures
        usage@.len() == 0 ==> r is None,
        usage@.len() == 1 ==> r == Some(usage@[0].resolution),
        usage@.len() > 1 ==> r == Some(largest_resolution(usage@)),
{
    if usage.len() == 0 {
        None
    } else if usage.len() == 1 {
        Some(usage[0].resolution)
    } else {
        crate::concat::normalization_target(usage)
    }
}

/// The recording time that is not in the video: the recording time less
/// the video's duration, 0 where the video is the longer one.
pub fn overhead_ms(recording_ms: i64, video_ms: i64) -> (r: i64)
    ensures
        r == if recording_ms > video_ms {
            if recording_ms - video_ms <= i64::MAX {
                recording_ms - video_ms
            } else {
                i64::MAX as int
            }
        } else {
            0
        },
{
    if recording_ms > video_ms {
        match recording_ms.checked_sub(video_ms) {
            Some(d) => d,
            None => i64::MAX,
        }
    } else {
        0
    }
}

/// A duration of `ms` milliseconds as hours, minutes and seconds, the
/// seconds rounded to tenths.
pub open spec fn hms_text(ms: u64) -> Seq<char> {
    let hours = ms / 3_600_000;
    let minutes = (ms % 3_600_000) / 60_000;
    let tenths = ((ms % 60_000) + 50) / 100;
    decimal(hours as nat) + "h "@ + decimal(minutes as nat) + "m "@ + decimal((tenths / 10) as nat)
        + "."@ + decimal((tenths % 10) as nat) + "s"@
}

/// A duration as it is written in the manifest.
pub fn format_hms(ms: u64) -> (r: String)
    ensures
        r@ == hms_text(ms),
{
    let hours: u64 = ms / 3_600_000;
    let minutes: u64 = (ms % 3_600_000) / 60_000;
    let tenths: u64 = ((ms % 60_000) + 50) / 100;
    let mut out = String::new();
    push_decimal(&mut out, hours);
    out.append("h ");
    push_decimal(&mut out, minutes);
    out.append("m ");
    push_decimal(&mut out, tenths / 10);
    out.append(".");
    push_decimal(&mut out, tenths % 10);
    out.append("s");
    assert(out@ =~= hms_text(ms));
    out
}

/// Name of the concatenated video in a task's directory.
pub const FINAL_VIDEO_NAME: &'static str = "final.mp4";

/// Name of the manifest in a task's directory.
pub const METADATA_NAME: &'static str = "metadata.json";

/// Name of the frame export in a task's directory.
pub const FRAMES_NAME: &'static str = "frames.json";

/// Version of the manifest's layout.
pub const MANIFEST_VERSION: &'static str = "1.0";

/// Quality that the manifest reports for the final video.
pub const MANIFEST_QUALITY: u8 = 8;

/// Frame rate that the manifest reports for the final video.
pub const MANIFEST_FPS: i64 = 30;

/// The instant `ms` milliseconds after the Unix epoch, in UTC, as RFC 3339
/// writes it; none where the instant is out of the calendar's range.
pub uninterp spec fn rfc3339_text(ms: i64) -> Option<Seq<char>>;

/// chrono's `TimeZone::timestamp_millis_opt` on `Utc` and
/// `DateTime::to_rfc3339`: the instant as a date and time in UTC, or
/// nothing where chrono cannot represent it.  The result depends on the
/// number alone.
#[verifier::external_body]
fn format_rfc3339(ms: i64) -> (r: Option<String>)
    ensures
        r is Some == rfc3339_text(ms) is Some,
        r matches Some(s) ==> s@ == rfc3339_text(ms)->0,
{
    chrono::Utc.timestamp_millis_opt(ms).single().map(|at| at.to_rfc3339())
}

/// A point in time as the manifest writes it: the date and time in UTC,
/// or the empty text for a time that no date stands for.
pub open spec fn time_text(ms: i64) -> Seq<char> {
    match rfc3339_text(ms) {
        Some(t) => t,
        None => seq![],
    }
}

/// The text for a point in time, given its date and time where it has one.
pub fn time_text_of(formatted: Option<String>) -> (r: String)
    ensures
        r@ == match formatted {
            Some(t) => t@,
            None => Seq::<char>::empty(),
        },
{
    match formatted {
        Some(t) => t,
        None => String::new(),
    }
}

/// A point in time as the manifest writes it.
pub fn timestamp_text(ms: i64) -> (r: String)
    ensures
        r@ == time_text(ms),
{
    time_text_of(format_rfc3339(ms))
}

/// One chunk as the manifest lists it.
#[derive(Debug, Clone, PartialEq, Eq)]
pub struct ChunkDetail {
    pub chunk_index: Option<i64>,
    pub file_path: String,
    pub created_at: String,
}

/// One frame as the frame export lists it.
#[derive(Debug, Clone, PartialEq, Eq)]
pub struct FrameEntry {
    pub offset: i64,
    pub timestamp: String,
    pub pts: Option<i64>,
    pub is_keyframe: bool,
    pub display_index: Option<i64>,
    pub display_width: Option<i64>,
    pub display_height: Option<i64>,
}

/// A frame of the frame export as a mathematical value.
pub struct FrameEntrySpec {
    pub offset: i64,
    pub timestamp: Seq<char>,
    pub pts: Option<i64>,
    pub is_keyframe: bool,
    pub display_index: Option<i64>,
    pub display_width: Option<i64>,
    pub display_height: Option<i64>,
}

impl View for FrameEntry {
    type V = FrameEntrySpec;

    open spec fn view(&self) -> FrameEntrySpec {
        FrameEntrySpec {
            offset: self.offset,
            timestamp: self.timestamp@,
            pts: self.pts,
            is_keyframe: self.is_keyframe,
            display_index: self.display_index,
            display_width: self.display_width,
            display_height: self.display_height,
        }
    }
}

/// The manifest's section on recording time, in milliseconds.
#[derive(Debug, Clone, PartialEq, Eq)]
pub struct RecordingTimeSection {
    pub total_ms: i64,
    pub total_formatted: String,
    pub overhead_ms: i64,
}

/// The manifest's section on the final video.
#[derive(Debug, Clone, PartialEq, Eq)]
pub struct VideoSection {
    pub path: String,
    pub duration_ms: i64,
    pub duration_formatted: String,
    pub size: i64,
    pub codec: String,
    pub bitrate: i64,
    pub fps: i64,
    pub quality: u8,
}

/// The manifest's section on frames.
#[derive(Debug, Clone, Copy, PartialEq, Eq, Structural)]
pub struct FrameSection {
    pub total_count: usize,
    pub keyframe_count: usize,
    pub keyframe_interval: usize,
}

/// The manifest's section on displays.
#[derive(Debug, Clone, PartialEq, Eq)]
pub struct DisplaySection {
    pub monitors_used: usize,
    pub unique_display_indices: Vec<i64>,
    pub normalized: bool,
    pub resolutions: Vec<ResolutionUse>,
    pub final_resolution: Option<Resolution>,
}

/// The manifest of a concatenated task.
#[derive(Debug, Clone, PartialEq, Eq)]
pub struct Manifest {
    pub version: String,
    pub task_id: String,
    pub device_name: String,
    pub recording_type: String,
    /// When the task's first chunk was created; empty without chunks.
    pub created_at: String,
    pub recording_time: RecordingTimeSection,
    pub video: VideoSection,
    pub chunk_count: usize,
    pub chunks: Vec<ChunkDetail>,
    pub frames: FrameSection,
    pub displays: DisplaySection,
}

/// A duration that is not negative, for writing it out.
pub open spec fn shown_ms(ms: i64) -> u64 {
    if ms < 0 {
        0
    } else {
        ms as u64
    }
}

/// The chunks as the manifest lists them.
pub open spec fn chunk_details_of(chunks: Seq<ChunkRow>) -> Seq<
    (Option<i64>, Seq<char>, Seq<char>),
> {
    chunks.map_values(|c: ChunkRow| (c.chunk_index, c.file_path, time_text(c.created_at)))
}

/// The chunk details of a list as mathematical values.
pub open spec fn detail_rows(list: Seq<ChunkDetail>) -> Seq<(Option<i64>, Seq<char>, Seq<char>)> {
    list.map_values(|d: ChunkDetail| (d.chunk_index, d.file_path@, d.created_at@))
}

/// The chunks as the manifest lists them, in concatenation order.
pub fn chunk_details(chunks: &Vec<VideoChunkInfo>) -> (r: Vec<ChunkDetail>)
    ensures
        detail_rows(r@) == chunk_details_of(chunk_rows(chunks@)),
{
    let mut out: Vec<ChunkDetail> = Vec::new();
    let mut i: usize = 0;
    while i < chunks.len()
        invariant
            i <= chunks@.len(),
            detail_rows(out@) == chunk_details_of(chunk_rows(chunks@)).take(i as int),
        decreases chunks.len() - i,
    {
        let ghost before = detail_rows(out@);
        let detail = ChunkDetail {
            chunk_index: chunks[i].chunk_index,
            file_path: chunks[i].file_path.clone(),
            created_at: timestamp_text(chunks[i].created_at),
        };
        out.push(detail);
        assert(detail_rows(out@) =~= before.push(
            (detail.chunk_index, detail.file_path@, detail.created_at@),
        ));
        assert(detail_rows(out@) =~= chunk_details_of(chunk_rows(chunks@)).take(i + 1));
        i += 1;
    }
    assert(chunk_details_of(chunk_rows(chunks@)).take(i as int) =~= chunk_details_of(
        chunk_rows(chunks@),
    ));
    out
}

/// A frame as the frame export lists it.
pub open spec fn entry_of(f: FrameRow) -> FrameEntrySpec {
    FrameEntrySpec {
        offset: f.offset_index,
        timestamp: time_text(f.timestamp),
        pts: f.pts,
        is_keyframe: f.is_keyframe == 1,
        display_index: f.display_index,
        display_width: f.display_width,
        display_height: f.display_height,
    }
}

/// The frames of a task as the frame export lists them, in the order
/// given.
pub fn frame_entries(frames: &Vec<FrameInfo>) -> (r: Vec<FrameEntry>)
    ensures
        r@.map_values(|e: FrameEntry| e@) == frame_rows(frames@).map_values(
            |f: FrameRow| entry_of(f),
        ),
{
    let ghost all = frame_rows(frames@).map_values(|f: FrameRow| entry_of(f));
    let mut out: Vec<FrameEntry> = Vec::new();
    let mut i: usize = 0;
    while i < frames.len()
        invariant
            i <= frames@.len(),
            all == frame_rows(frames@).map_values(|f: FrameRow| entry_of(f)),
            out@.map_values(|e: FrameEntry| e@) == all.take(i as int),
        decreases frames.len() - i,
    {
        let ghost before = out@.map_values(|e: FrameEntry| e@);
        let entry = FrameEntry {
            offset: frames[i].offset_index,
            timestamp: timestamp_text(frames[i].timestamp),
            pts: frames[i].pts,
            is_keyframe: frames[i].is_keyframe == 1,
            display_index: frames[i].display_index,
            display_width: frames[i].display_width,
            display_height: frames[i].display_height,
        };
        out.push(entry);
        assert(out@.map_values(|e: FrameEntry| e@) =~= before.push(entry@));
        assert(out@.map_values(|e: FrameEntry| e@) =~= all.take(i + 1));
        i += 1;
    }
    assert(all.take(i as int) =~= all);
    out
}

/// Puts the manifest of a concatenated task together from the task's
/// chunks and frames, what the probe reported of the final video, the
/// video's duration and the task's recording time.  The device is not
/// kept with a task and is reported as unknown; frame rate and quality are
/// reported with their usual values.
pub fn build_manifest(
    task_id: &str,
    chunks: &Vec<VideoChunkInfo>,
    frames: &Vec<FrameInfo>,
    usage: Vec<ResolutionUse>,
    summary: &ProbeSummary,
    video_file_name: &str,
    video_ms: i64,
    recording_ms: i64,
) -> (m: Manifest)
    ensures
        m.version@ == "1.0"@,
        m.task_id@ == task_id@,
        m.recording_type@ == "task"@,
        m.device_name@ == "unknown"@,
        m.created_at@ == if chunks@.len() > 0 {
            time_text(chunks@[0].created_at)
        } else {
            Seq::<char>::empty()
        },
        m.recording_time.total_ms == recording_ms,
        m.recording_time.total_formatted@ == hms_text(shown_ms(recording_ms)),
        m.recording_time.overhead_ms == if recording_ms > video_ms {
            if recording_ms - video_ms <= i64::MAX {
                recording_ms - video_ms
            } else {
                i64::MAX as int
            }
        } else {
            0
        },
        m.video.path@ == video_file_name@,
        m.video.duration_ms == video_ms,
        m.video.duration_formatted@ == hms_text(shown_ms(video_ms)),
        m.video.size == summary.size,
        m.video.codec@ == summary.codec@,
        m.video.bitrate == summary.bit_rate,
        m.video.fps == MANIFEST_FPS,
        m.video.quality == MANIFEST_QUALITY,
        m.chunk_count == chunks@.len(),
        detail_rows(m.chunks@) == chunk_details_of(chunk_rows(chunks@)),
        m.frames.total_count == frames@.len(),
        m.frames.keyframe_count == keyframes_in(frame_rows(frames@)),
        m.frames.keyframe_interval == if m.frames.keyframe_count > 0 {
            (frames@.len() as int) / (m.frames.keyframe_count as int)
        } else {
            0
        },
        is_displays_of(m.displays.unique_display_indices@, frame_rows(frames@)),
        m.displays.monitors_used == m.displays.unique_display_indices@.len(),
        m.displays.normalized == (usage@.len() > 1),
        m.displays.resolutions@ == usage@,
        usage@.len() == 0 ==> m.displays.final_resolution is None,
        usage@.len() == 1 ==> m.displays.final_resolution == Some(usage@[0].resolution),
        usage@.len() > 1 ==> m.displays.final_resolution == Some(largest_resolution(usage@)),
{
    let stats = frame_stats(frames);
    let final_size = final_resolution(&usage);
    let shown_recording: u64 = if recording_ms < 0 {
        0
    } else {
        recording_ms as u64
    };
    let shown_video: u64 = if video_ms < 0 {
        0
    } else {
        video_ms as u64
    };
    Manifest {
        version: String::from_str("1.0"),
        task_id: String::from_str(task_id),
        device_name: String::from_str("unknown"),
        recording_type: String::from_str("task"),
        created_at: if chunks.len() > 0 {
            timestamp_text(chunks[0].created_at)
        } else {
            String::new()
        },
        recording_time: RecordingTimeSection {
            total_ms: recording_ms,
            total_formatted: format_hms(shown_recording),
            overhead_ms: overhead_ms(recording_ms, video_ms),
        },
        video: VideoSection {
            path: String::from_str(video_file_name),
            duration_ms: video_ms,
            duration_formatted: format_hms(shown_video),
            size: summary.size,
            codec: summary.codec.clone(),
            bitrate: summary.bit_rate,
            fps: MANIFEST_FPS,
            quality: MANIFEST_QUALITY,
        },
        chunk_count: chunks.len(),
        chunks: chunk_details(chunks),
        frames: FrameSection {
            total_count: stats.total_count,
            keyframe_count: stats.keyframe_count,
            keyframe_interval: stats.keyframe_interval,
        },
        displays: DisplaySection {
            monitors_used: stats.displays.len(),
            unique_display_indices: stats.displays,
            normalized: usage.len() > 1,
            resolutions: usage,
            final_resolution: final_size,
        },
    }
}

} // verus!
