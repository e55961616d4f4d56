//! Planning the concatenation of a task's chunks: which chunks are fit to
//! be concatenated, the list file and the command line for the external
//! concatenator, the retry policy around it, and the check of its output.

use crate::db::{frame_rows, FrameInfo, FrameRow, VideoChunkInfo};
use crate::durations::{read_seconds, seconds_reading};
use crate::error::ScreenRecError;
use crate::text::{
    chars_of, decimal, join, joined, prefixed, push_decimal, push_signed_decimal,
    push_text, signed_decimal, str_eq, texts, trim, trimmed,
};
use vstd::prelude::*;
use vstd::string::*;

verus! {

/// A chunk file or a final video with fewer bytes than this is taken to be
/// corrupt.
pub const MIN_VALID_BYTES: u64 = 1024;

/// The frame rate assumed where no chunk records one.
pub const DEFAULT_FPS: i64 = 30;

/// How often a concatenation is attempted.
pub const MAX_ATTEMPTS: u32 = 3;

/// The wait before attempt number `attempt` in seconds: none before the
/// first, then 2 s, 4 s, 8 s, doubling with each further attempt.
pub open spec fn retry_wait(attempt: u32) -> int {
    if attempt <= 1 {
        0
    } else if attempt == 2 {
        2
    } else if attempt == 3 {
        4
    } else {
        8
    }
}

/// The wait before an attempt, for the attempts that are made.
pub fn retry_wait_secs(attempt: u32) -> (r: u64)
    requires
        attempt <= MAX_ATTEMPTS + 1,
    ensures
        r == retry_wait(attempt),
{
    if attempt <= 1 {
        0
    } else if attempt == 2 {
        2
    } else if attempt == 3 {
        4
    } else {
        8
    }
}

/// What follows an attempt at concatenation.
pub enum RetryStep {
    /// The attempt succeeded: nothing more to do.
    Done,
    /// Wait, then make this attempt.
    Retry { attempt: u32, wait_secs: u64 },
    /// All attempts failed: give up with the last failure.
    GiveUp(ScreenRecError),
}

/// What follows attempt number `attempt`, counted from 1, given the
/// failure it ended with, if any.  A failed attempt is followed by the
/// next one after its wait, until all attempts are used up.
pub fn after_attempt(attempt: u32, failure: Option<ScreenRecError>) -> (r: RetryStep)
    requires
        1 <= attempt <= MAX_ATTEMPTS,
    ensures
        failure is None ==> r is Done,
        failure is Some && attempt < MAX_ATTEMPTS ==> r == (RetryStep::Retry {
            attempt: (attempt + 1) as u32,
            wait_secs: retry_wait((attempt + 1) as u32) as u64,
        }),
        failure is Some && attempt == MAX_ATTEMPTS ==> r == RetryStep::GiveUp(failure->0),
{
    match failure {
        None => RetryStep::Done,
        Some(e) => {
            if attempt < MAX_ATTEMPTS {
                RetryStep::Retry { attempt: attempt + 1, wait_secs: retry_wait_secs(attempt + 1) }
            } else {
                RetryStep::GiveUp(e)
            }
        },
    }
}

/// `i` is the first chunk of the list that records a frame rate.
pub open spec fn is_first_with_fps(chunks: Seq<VideoChunkInfo>, i: int) -> bool {
    &&& 0 <= i < chunks.len()
    &&& chunks[i].fps is Some
    &&& forall|j: int| 0 <= j < i ==> (#[trigger] chunks[j]).fps is None
}

/// The frame rate that stands for a task: that of the first chunk that
/// records one, 30 where none does.
pub fn representative_fps(chunks: &Vec<VideoChunkInfo>) -> (r: i64)
    ensures
        (forall|i: int| 0 <= i < chunks@.len() ==> (#[trigger] chunks@[i]).fps is None) ==> r
            == DEFAULT_FPS,
        forall|i: int| is_first_with_fps(chunks@, i) ==> r == chunks@[i].fps->0,
{
    let mut i: usize = 0;
    while i < chunks.len()
        invariant
            i <= chunks@.len(),
            forall|j: int| 0 <= j < i ==> (#[trigger] chunks@[j]).fps is None,
        decreases chunks.len() - i,
    {
        if let Some(fps) = chunks[i].fps {
            proof {
                assert forall|k: int| is_first_with_fps(chunks@, k) implies k == i by {
                    if k < i {
                        assert(chunks@[k].fps is None);
                    } else if k > i {
                        assert(chunks@[i as int].fps is None);
                    }
                }
            }
            return fps;
        }
        i += 1;
    }
    assert forall|k: int| !is_first_with_fps(chunks@, k) by {
        if 0 <= k < chunks@.len() {
            assert(chunks@[k].fps is None);
        }
    }
    DEFAULT_FPS
}

/// A frame size in pixels.
#[derive(Debug, Clone, Copy, PartialEq, Eq, Structural)]
pub struct Resolution {
    pub width: i64,
    pub height: i64,
}

/// A frame size and the number of frames that have it.
#[derive(Debug, Clone, Copy, PartialEq, Eq, Structural)]
pub struct ResolutionUse {
    pub resolution: Resolution,
    pub frame_count: usize,
}

/// The source size of a frame, where both its width and its height are
/// recorded.
pub open spec fn resolution_of(f: FrameRow) -> Option<Resolution> {
    match (f.display_width, f.display_height) {
        (Some(w), Some(h)) => Some(Resolution { width: w, height: h }),
        _ => None,
    }
}

/// The number of frames with a given source size.
pub open spec fn frames_with(frames: Seq<FrameRow>, r: Resolution) -> nat
    decreases frames.len(),
{
    if frames.len() == 0 {
        0
    } else {
        frames_with(frames.drop_last(), r) + if resolution_of(frames.last()) == Some(r) {
            1nat
        } else {
            0nat
        }
    }
}

/// No more frames have a size than there are frames.
pub proof fn lemma_frames_with_bound(frames: Seq<FrameRow>, r: Resolution)
    ensures
        frames_with(frames, r) <= frames.len(),
    decreases frames.len(),
{
    if frames.len() > 0 {
        lemma_frames_with_bound(frames.drop_last(), r);
    }
}

/// `usage` tells how the frames are spread over sizes: every size that a
/// frame has is listed once, with the number of frames that have it, and
/// no size is listed that no frame has.
pub open spec fn is_usage_of(usage: Seq<ResolutionUse>, frames: Seq<FrameRow>) -> bool {
    &&& forall|a: int, b: int|
        0 <= a < b < usage.len() ==> (#[trigger] usage[a]).resolution != (
        #[trigger] usage[b]).resolution
    &&& forall|a: int|
        0 <= a < usage.len() ==> (#[trigger] usage[a]).frame_count == frames_with(
            frames,
            usage[a].resolution,
        ) && usage[a].frame_count > 0
    &&& forall|r: Resolution|
        #![trigger frames_with(frames, r)]
        frames_with(frames, r) > 0 ==> exists|a: int|
            0 <= a < usage.len() && (#[trigger] usage[a]).resolution == r
}

/// How the frames of a task are spread over source sizes, the sizes in the
/// order in which they first occur.
pub fn resolution_usage(frames: &Vec<FrameInfo>) -> (usage: Vec<ResolutionUse>)
    ensures
        is_usage_of(usage@, frame_rows(frames@)),
{
    let ghost rows = frame_rows(frames@);
    let mut usage: Vec<ResolutionUse> = Vec::new();
    let mut i: usize = 0;
    assert(rows.take(0) =~= seq![]);
    while i < frames.len()
        invariant
            i <= frames@.len(),
            rows == frame_rows(frames@),
            is_usage_of(usage@, rows.take(i as int)),
        decreases frames.len() - i,
    {
        let ghost seen = rows.take(i as int);
        let ghost next = rows.take(i + 1);
        proof {
            assert(next.drop_last() =~= seen);
            assert(next.last() == rows[i as int]);
        }
        let ghost before = usage@;
        match (frames[i].display_width, frames[i].display_height) {
            (Some(w), Some(h)) => {
                let target = Resolution { width: w, height: h };
                let mut a: usize = 0;
                let mut found = false;
                while a < usage.len() && !found
                    invariant
                        a <= usage@.len(),
                        usage@ == before,
                        target == (Resolution { width: w, height: h }),
                        !found ==> forall|b: int|
                            0 <= b < a ==> (#[trigger] usage@[b]).resolution != target,
                        found ==> a < usage@.len() && usage@[a as int].resolution == target,
                    decreases usage.len() - a + if found {
                        0int
                    } else {
                        1int
                    },
                {
                    if usage[a].resolution.width == w && usage[a].resolution.height == h {
                        found = true;
                    } else {
                        a += 1;
                    }
                }
                if found {
                    proof {
                        lemma_frames_with_bound(seen, target);
                    }
                    let entry = usage[a];
                    usage[a] = ResolutionUse {
                        resolution: entry.resolution,
                        frame_count: entry.frame_count + 1,
                    };
                    proof {
                        assert forall|b: int| 0 <= b < usage@.len() implies (
                        #[trigger] usage@[b]).frame_count == frames_with(
                            next,
                            usage@[b].resolution,
                        ) && usage@[b].frame_count > 0 by {
                            if b != a {
                                assert(usage@[b] == before[b]);
                                assert(before[b].resolution != before[a as int].resolution);
                            }
                        }
                        assert forall|b: int, c: int| 0 <= b < c < usage@.len() implies (
                        #[trigger] usage@[b]).resolution != (#[trigger] usage@[c]).resolution by {
                            assert(usage@[b].resolution == before[b].resolution);
                            assert(usage@[c].resolution == before[c].resolution);
                        }
                        assert forall|r: Resolution|
                            #![trigger frames_with(next, r)]
                            frames_with(next, r) > 0 implies exists|b: int|
                            0 <= b < usage@.len() && (#[trigger] usage@[b]).resolution == r by {
                            if r == target {
                                assert(usage@[a as int].resolution == r);
                            } else {
                                assert(frames_with(seen, r) > 0);
                                let b = choose|b: int|
                                    0 <= b < before.len() && (#[trigger] before[b]).resolution == r;
                                assert(usage@[b].resolution == r);
                            }
                        }
                    }
                } else {
                    proof {
                        if frames_with(seen, target) > 0 {
                            let b = choose|b: int|
                                0 <= b < before.len() && (#[trigger] before[b]).resolution
                                    == target;
                            assert(false);
                        }
                    }
                    usage.push(ResolutionUse { resolution: target, frame_count: 1 });
                    proof {
                        assert forall|b: int| 0 <= b < usage@.len() implies (
                        #[trigger] usage@[b]).frame_count == frames_with(
                            next,
                            usage@[b].resolution,
                        ) && usage@[b].frame_count > 0 by {
                            if b < before.len() {
                                assert(usage@[b] == before[b]);
                            }
                        }
                        assert forall|r: Resolution|
                            #![trigger frames_with(next, r)]
                            frames_with(next, r) > 0 implies exists|b: int|
                            0 <= b < usage@.len() && (#[trigger] usage@[b]).resolution == r by {
                            if r == target {
                                assert(usage@[usage@.len() - 1].resolution == r);
                            } else {
                                assert(frames_with(seen, r) > 0);
                                let b = choose|b: int|
                                    0 <= b < before.len() && (#[trigger] before[b]).resolution == r;
                                assert(usage@[b].resolution == r);
                            }
                        }
                    }
                }
            },
            _ => {
                proof {
                    assert(resolution_of(rows[i as int]) is None);
                    assert forall|r: Resolution|
                        #![trigger frames_with(next, r)]
                        frames_with(next, r) > 0 implies exists|b: int|
                        0 <= b < usage@.len() && (#[trigger] usage@[b]).resolution == r by {
                        assert(frames_with(seen, r) > 0);
                    }
                }
            },
        }
        i += 1;
    }
    assert(rows.take(i as int) =~= rows);
    usage
}

/// The largest width and the largest height among the sizes, neither
/// below 0.
pub open spec fn largest_resolution(usage: Seq<ResolutionUse>) -> Resolution
    decreases usage.len(),
{
    if usage.len() == 0 {
        Resolution { width: 0, height: 0 }
    } else {
        let rest = largest_resolution(usage.drop_last());
        let last = usage.last().resolution;
        Resolution {
            width: if last.width > rest.width {
                last.width
            } else {
                rest.width
            },
            height: if last.height > rest.height {
                last.height
            } else {
                rest.height
            },
        }
    }
}

/// The size to which all chunks are brought before they are joined: the
/// largest width and the largest height, where the frames come in more
/// than one size; nothing where they all have one size.
pub fn normalization_target(usage: &Vec<ResolutionUse>) -> (r: Option<Resolution>)
    ensures
        usage@.len() <= 1 ==> r is None,
        usage@.len() > 1 ==> r == Some(largest_resolution(usage@)),
{
    if usage.len() <= 1 {
        return None;
    }
    let mut width: i64 = 0;
    let mut height: i64 = 0;
    let mut i: usize = 0;
    while i < usage.len()
        invariant
            i <= usage@.len(),
            (Resolution { width, height }) == largest_resolution(usage@.take(i as int)),
        decreases usage.len() - i,
    {
        assert(usage@.take(i + 1).drop_last() =~= usage@.take(i as int));
        if usage[i].resolution.width > width {
            width = usage[i].resolution.width;
        }
        if usage[i].resolution.height > height {
            height = usage[i].resolution.height;
        }
        i += 1;
    }
    assert(usage@.take(i as int) =~= usage@);
    Some(Resolution { width, height })
}

/// What an inspection run of the probe tool gave back.
#[derive(Debug, Clone, PartialEq, Eq)]
pub struct ToolOutput {
    /// The tool could be started.
    pub ran: bool,
    /// It ended with success.
    pub success: bool,
    pub stdout: String,
    pub stderr: String,
}

/// What is known of a chunk file.
#[derive(Debug, Clone, PartialEq, Eq)]
pub struct ChunkProbe {
    pub exists: bool,
    pub file_size: u64,
    /// The probe's answer when asked for the duration.
    pub duration: ToolOutput,
    /// The probe's answer when asked for the type of the video stream.
    pub stream: ToolOutput,
    /// The probe's answer when asked for the codec of the video stream.
    pub codec: ToolOutput,
    /// The probe's answer to a full read pass.
    pub read: ToolOutput,
}

/// Whether a chunk is fit to be concatenated, and if not, why.
#[derive(Debug, Clone, Copy, PartialEq, Eq, Structural)]
pub enum ChunkVerdict {
    Valid,
    /// The file does not exist.
    Missing,
    /// The file is shorter than the smallest valid file.
    TooSmall,
    /// The file fails at least one check of its content.
    Invalid { no_video_stream: bool, bad_duration: bool, unsupported_codec: bool, has_errors: bool },
}

/// A chunk is shorter than this many seconds.
pub const MAX_CHUNK_SECONDS: u64 = 3600;

/// The duration of a chunk in microseconds, where the probe ran and
/// printed, apart from white space, a number of seconds that is greater
/// than zero and below one hour.
pub open spec fn duration_of(p: ChunkProbe) -> Option<u64> {
    if p.duration.ran {
        seconds_reading(trimmed(p.duration.stdout@), MAX_CHUNK_SECONDS)
    } else {
        None
    }
}

/// The duration of a chunk in microseconds, if the probe reported a
/// usable one.
pub fn chunk_duration(probe: &ChunkProbe) -> (r: Option<u64>)
    ensures
        r == duration_of(*probe),
{
    if !probe.duration.ran {
        return None;
    }
    let printed = trim(probe.duration.stdout.as_str());
    read_seconds(printed.as_str(), MAX_CHUNK_SECONDS)
}

/// The probe found a video stream: it succeeded and printed something.
pub open spec fn has_video_stream(p: ChunkProbe) -> bool {
    p.stream.ran && p.stream.success && p.stream.stdout@.len() > 0
}

/// The codec is one of the accepted ones: the probe succeeded and printed,
/// apart from white space, `h264` or `hevc`.
pub open spec fn has_accepted_codec(p: ChunkProbe) -> bool {
    p.codec.ran && p.codec.success && (trimmed(p.codec.stdout@) == "h264"@ || trimmed(
        p.codec.stdout@,
    ) == "hevc"@)
}

/// A full read pass succeeded without a word on the error stream.
pub open spec fn reads_cleanly(p: ChunkProbe) -> bool {
    p.read.ran && p.read.success && p.read.stderr@.len() == 0
}

/// The verdict on a chunk.  A file that is missing or too small is not
/// looked into; any other file is valid if and only if it passes all four
/// checks of its content.
pub open spec fn verdict_of(p: ChunkProbe) -> ChunkVerdict {
    if !p.exists {
        ChunkVerdict::Missing
    } else if p.file_size < MIN_VALID_BYTES {
        ChunkVerdict::TooSmall
    } else if has_video_stream(p) && duration_of(p) is Some && has_accepted_codec(p)
        && reads_cleanly(p) {
        ChunkVerdict::Valid
    } else {
        ChunkVerdict::Invalid {
            no_video_stream: !has_video_stream(p),
            bad_duration: duration_of(p) is None,
            unsupported_codec: !has_accepted_codec(p),
            has_errors: !reads_cleanly(p),
        }
    }
}

/// The verdict on a chunk.
pub fn validate_chunk(probe: &ChunkProbe) -> (r: ChunkVerdict)
    ensures
        r == verdict_of(*probe),
{
    if !probe.exists {
        return ChunkVerdict::Missing;
    }
    if probe.file_size < MIN_VALID_BYTES {
        return ChunkVerdict::TooSmall;
    }
    let stream_ok = probe.stream.ran && probe.stream.success && probe.stream.stdout.as_str().unicode_len()
        > 0;
    let codec_ok = if probe.codec.ran && probe.codec.success {
        let name = trim(probe.codec.stdout.as_str());
        str_eq(name.as_str(), "h264") || str_eq(name.as_str(), "hevc")
    } else {
        false
    };
    let read_ok = probe.read.ran && probe.read.success && probe.read.stderr.as_str().unicode_len()
        == 0;
    let duration_ok = chunk_duration(probe).is_some();
    if stream_ok && duration_ok && codec_ok && read_ok {
        ChunkVerdict::Valid
    } else {
        ChunkVerdict::Invalid {
            no_video_stream: !stream_ok,
            bad_duration: !duration_ok,
            unsupported_codec: !codec_ok,
            has_errors: !read_ok,
        }
    }
}

/// The reasons for which a chunk is skipped, as they are reported.
pub open spec fn reasons_of(v: ChunkVerdict) -> Seq<Seq<char>> {
    match v {
        ChunkVerdict::Invalid { no_video_stream, bad_duration, unsupported_codec, has_errors } => {
            (if no_video_stream {
                seq!["no video stream"@]
            } else {
                seq![]
            }) + (if bad_duration {
                seq!["invalid/missing duration"@]
            } else {
                seq![]
            }) + (if unsupported_codec {
                seq!["unsupported codec"@]
            } else {
                seq![]
            }) + (if has_errors {
                seq!["contains errors"@]
            } else {
                seq![]
            })
        },
        ChunkVerdict::TooSmall => seq!["file too small"@],
        ChunkVerdict::Missing => seq!["missing"@],
        ChunkVerdict::Valid => seq![],
    }
}

/// The reasons for which a chunk is skipped, separated by commas.
pub fn verdict_reasons(v: ChunkVerdict) -> (r: String)
    ensures
        r@ == joined(reasons_of(v), ", "@),
{
    let mut parts: Vec<String> = Vec::new();
    assert(texts(parts@) =~= seq![]);
    match v {
        ChunkVerdict::Invalid { no_video_stream, bad_duration, unsupported_codec, has_errors } => {
            if no_video_stream {
                push_text(&mut parts, "no video stream");
            }
            if bad_duration {
                push_text(&mut parts, "invalid/missing duration");
            }
            if unsupported_codec {
                push_text(&mut parts, "unsupported codec");
            }
            if has_errors {
                push_text(&mut parts, "contains errors");
            }
        },
        ChunkVerdict::TooSmall => {
            push_text(&mut parts, "file too small");
        },
        ChunkVerdict::Missing => {
            push_text(&mut parts, "missing");
        },
        ChunkVerdict::Valid => {},
    }
    assert(texts(parts@) =~= reasons_of(v));
    join(&parts, ", ")
}

/// A path as it stands between single quotes in the list file: each
/// single quote in it closes the quotes, adds an escaped quote and opens
/// them again.
pub open spec fn escaped(path: Seq<char>) -> Seq<char>
    decreases path.len(),
{
    if path.len() == 0 {
        seq![]
    } else if path.last() == '\'' {
        escaped(path.drop_last()) + "'\\''"@
    } else {
        escaped(path.drop_last()).push(path.last())
    }
}

/// The line of the list file that names a chunk.
pub open spec fn list_line(path: Seq<char>) -> Seq<char> {
    "file '"@ + escaped(path) + "'\n"@
}

/// Appends the list file's line for a chunk to `out`.
pub fn push_list_line(out: &mut String, path: &str)
    ensures
        final(out)@ == old(out)@ + list_line(path@),
{
    let v = chars_of(path);
    out.append("file '");
    let ghost start = out@;
    let mut i: usize = 0;
    assert(path@.take(0) =~= seq![]);
    while i < v.len()
        invariant
            i <= v.len(),
            v@ == path@,
            start == old(out)@ + "file '"@,
            out@ == start + escaped(path@.take(i as int)),
        decreases v.len() - i,
    {
        proof {
            assert(path@.take(i + 1).drop_last() =~= path@.take(i as int));
            assert(path@.take(i + 1).last() == path@[i as int]);
        }
        if v[i] == '\'' {
            out.append("'\\''");
        } else {
            let piece = path.substring_char(i, i + 1);
            assert(piece@ =~= seq![path@[i as int]]);
            out.append(piece);
        }
        assert(out@ =~= start + escaped(path@.take(i + 1)));
        i += 1;
    }
    assert(path@.take(i as int) =~= path@);
    out.append("'\n");
    assert(out@ =~= old(out)@ + list_line(path@));
}

/// The outcome of going through a task's chunks: the contents of the list
/// file and how many chunks were kept and skipped.
#[derive(Debug, Clone, PartialEq, Eq)]
pub struct ConcatPlan {
    /// The list file: one line for each valid chunk, in order.
    pub list: String,
    pub valid: usize,
    pub missing: usize,
    /// Chunks that are too small or fail a check of their content.
    pub invalid: usize,
    /// The durations of the valid chunks added up, in microseconds, at
    /// most the largest number that fits.
    pub total_duration_micros: u64,
}

/// The plan as a mathematical value.
pub struct PlanSpec {
    pub list: Seq<char>,
    pub valid: nat,
    pub missing: nat,
    pub invalid: nat,
    pub total_duration_micros: nat,
}

/// The plan for the first `k` chunks.
pub open spec fn plan_of(paths: Seq<Seq<char>>, probes: Seq<ChunkProbe>, k: int) -> PlanSpec
    decreases k,
{
    if k <= 0 {
        PlanSpec { list: seq![], valid: 0, missing: 0, invalid: 0, total_duration_micros: 0 }
    } else {
        let rest = plan_of(paths, probes, k - 1);
        match verdict_of(probes[k - 1]) {
            ChunkVerdict::Valid => PlanSpec {
                list: rest.list + list_line(paths[k - 1]),
                valid: rest.valid + 1,
                total_duration_micros: rest.total_duration_micros + (duration_of(
                    probes[k - 1],
                )->0) as nat,
                ..rest
            },
            ChunkVerdict::Missing => PlanSpec { missing: rest.missing + 1, ..rest },
            _ => PlanSpec { invalid: rest.invalid + 1, ..rest },
        }
    }
}

/// The counts of a plan add up to the number of chunks gone through.
pub proof fn lemma_plan_counts(paths: Seq<Seq<char>>, probes: Seq<ChunkProbe>, k: int)
    requires
        0 <= k,
    ensures
        plan_of(paths, probes, k).valid + plan_of(paths, probes, k).missing + plan_of(
            paths,
            probes,
            k,
        ).invalid == k,
    decreases k,
{
    if k > 0 {
        lemma_plan_counts(paths, probes, k - 1);
    }
}

/// The text that reports a task without chunks.
pub open spec fn no_chunks_text(task_id: Seq<char>) -> Seq<char> {
    "No chunks found for task_id: "@ + task_id
}

/// The text that reports a task without a single valid chunk.
pub open spec fn no_valid_chunks_text(task_id: Seq<char>) -> Seq<char> {
    "No valid chunk files found for task_id: "@ + task_id
}

/// Goes through the chunks of a task, in concatenation order, with what
/// the probe found of each.  Chunks that are missing, too small or invalid
/// are left out and counted.  A task without chunks, and one of which no
/// chunk is valid, is an invalid parameter.
pub fn plan_concat(task_id: &str, paths: &Vec<String>, probes: &Vec<ChunkProbe>) -> (r: Result<
    ConcatPlan,
    ScreenRecError,
>)
    requires
        paths@.len() == probes@.len(),
    ensures
        paths@.len() == 0 ==> (r matches Err(ScreenRecError::InvalidParameter(m)) && m@
            == no_chunks_text(task_id@)),
        paths@.len() > 0 && plan_of(texts(paths@), probes@, paths@.len() as int).valid == 0 ==> (
        r matches Err(ScreenRecError::InvalidParameter(m)) && m@ == no_valid_chunks_text(
            task_id@,
        )),
        paths@.len() > 0 && plan_of(texts(paths@), probes@, paths@.len() as int).valid > 0 ==> ({
            let spec = plan_of(texts(paths@), probes@, paths@.len() as int);
            &&& r matches Ok(plan)
            &&& plan.list@ == spec.list
            &&& plan.valid == spec.valid
            &&& plan.missing == spec.missing
            &&& plan.invalid == spec.invalid
            &&& plan.total_duration_micros == if spec.total_duration_micros <= u64::MAX {
                spec.total_duration_micros
            } else {
                u64::MAX as nat
            }
        }),
{
    if paths.len() == 0 {
        return Err(
            ScreenRecError::InvalidParameter(prefixed("No chunks found for task_id: ", task_id)),
        );
    }
    let ghost names = texts(paths@);
    let mut list = String::new();
    let mut valid: usize = 0;
    let mut missing: usize = 0;
    let mut invalid: usize = 0;
    let mut total: u64 = 0;
    let mut i: usize = 0;
    while i < paths.len()
        invariant
            i <= paths@.len(),
            paths@.len() == probes@.len(),
            names == texts(paths@),
            list@ == plan_of(names, probes@, i as int).list,
            valid == plan_of(names, probes@, i as int).valid,
            missing == plan_of(names, probes@, i as int).missing,
            invalid == plan_of(names, probes@, i as int).invalid,
            total == if plan_of(names, probes@, i as int).total_duration_micros <= u64::MAX {
                plan_of(names, probes@, i as int).total_duration_micros
            } else {
                u64::MAX as nat
            },
        decreases paths.len() - i,
    {
        proof {
            lemma_plan_counts(names, probes@, i as int);
            assert(names[i as int] == paths@[i as int]@);
        }
        match validate_chunk(&probes[i]) {
            ChunkVerdict::Valid => {
                push_list_line(&mut list, paths[i].as_str());
                valid = valid + 1;
                let d: u64 = match chunk_duration(&probes[i]) {
                    Some(d) => d,
                    None => 0,
                };
                total = match total.checked_add(d) {
                    Some(t) => t,
                    None => u64::MAX,
                };
            },
            ChunkVerdict::Missing => {
                missing = missing + 1;
            },
            _ => {
                invalid = invalid + 1;
            },
        }
        i += 1;
    }
    if valid == 0 {
        return Err(
            ScreenRecError::InvalidParameter(
                prefixed("No valid chunk files found for task_id: ", task_id),
            ),
        );
    }
    Ok(ConcatPlan { list, valid, missing, invalid, total_duration_micros: total })
}

/// The warning about skipped chunks: how many were skipped, how many of
/// them were missing and how many invalid, and how many are used.
pub open spec fn skipped_text(valid: nat, missing: nat, invalid: nat) -> Seq<char> {
    let parts = (if missing > 0 {
        seq![decimal(missing) + " missing"@]
    } else {
        seq![]
    }) + (if invalid > 0 {
        seq![decimal(invalid) + " invalid (no video streams)"@]
    } else {
        seq![]
    });
    decimal(missing + invalid) + " chunk files skipped ("@ + joined(parts, ", "@) + "), using "@
        + decimal(valid) + " valid chunks"@
}

/// The warning about skipped chunks, if any chunk was skipped.
pub fn skipped_warning(plan: &ConcatPlan) -> (r: Option<String>)
    requires
        plan.missing + plan.invalid <= u64::MAX,
    ensures
        plan.missing == 0 && plan.invalid == 0 ==> r is None,
        plan.missing > 0 || plan.invalid > 0 ==> (r matches Some(m) && m@ == skipped_text(
            plan.valid as nat,
            plan.missing as nat,
            plan.invalid as nat,
        )),
{
    if plan.missing == 0 && plan.invalid == 0 {
        return None;
    }
    let mut parts: Vec<String> = Vec::new();
    assert(texts(parts@) =~= seq![]);
    if plan.missing > 0 {
        let mut p = String::new();
        push_decimal(&mut p, plan.missing as u64);
        p.append(" missing");
        assert(p@ =~= decimal(plan.missing as nat) + " missing"@);
        let ghost before = texts(parts@);
        parts.push(p);
        assert(texts(parts@) =~= before.push(p@));
    }
    if plan.invalid > 0 {
        let mut p = String::new();
        push_decimal(&mut p, plan.invalid as u64);
        p.append(" invalid (no video streams)");
        assert(p@ =~= decimal(plan.invalid as nat) + " invalid (no video streams)"@);
        let ghost before = texts(parts@);
        parts.push(p);
        assert(texts(parts@) =~= before.push(p@));
    }
    let ghost spec_parts = (if plan.missing > 0 {
        seq![decimal(plan.missing as nat) + " missing"@]
    } else {
        seq![]
    }) + (if plan.invalid > 0 {
        seq![decimal(plan.invalid as nat) + " invalid (no video streams)"@]
    } else {
        seq![]
    });
    assert(texts(parts@) =~= spec_parts);
    let inner = join(&parts, ", ");
    let mut m = String::new();
    push_decimal(&mut m, (plan.missing as u64) + (plan.invalid as u64));
    m.append(" chunk files skipped (");
    m.append(inner.as_str());
    m.append("), using ");
    push_decimal(&mut m, plan.valid as u64);
    m.append(" valid chunks");
    assert(m@ =~= skipped_text(plan.valid as nat, plan.missing as nat, plan.invalid as nat));
    Some(m)
}

/// The video filter that brings every input to the target size: scaled
/// into it with the aspect kept, centred and padded with black.
pub open spec fn normalize_filter(target: Resolution) -> Seq<char> {
    let w = signed_decimal(target.width as int);
    let h = signed_decimal(target.height as int);
    "scale="@ + w + ":"@ + h + ":force_original_aspect_ratio=decrease,pad="@ + w + ":"@ + h
        + ":(ow-iw)/2:(oh-ih)/2:black"@
}

/// The arguments for the external concatenator.  Without a target size
/// the streams are copied, and no frame rate is given.  With one, the
/// inputs are re-encoded with software H.264 at preset medium and rate
/// factor 23 through the normalizing filter, at the constant frame rate
/// `fps`.
pub open spec fn concat_arguments(
    list_path: Seq<char>,
    output_path: Seq<char>,
    target: Option<Resolution>,
    fps: i64,
) -> Seq<Seq<char>> {
    seq!["-f"@, "concat"@, "-safe"@, "0"@, "-i"@, list_path] + (match target {
        Some(t) => seq![
            "-vf"@,
            normalize_filter(t),
            "-c:v"@,
            "libx264"@,
            "-preset"@,
            "medium"@,
            "-crf"@,
            "23"@,
            "-r"@,
            signed_decimal(fps as int),
            "-fps_mode"@,
            "cfr"@,
        ],
        None => seq!["-c"@, "copy"@],
    }) + seq![output_path]
}

/// The arguments for the external concatenator.
pub fn concat_args(list_path: &str, output_path: &str, target: Option<Resolution>, fps: i64) -> (r:
    Vec<String>)
    ensures
        texts(r@) == concat_arguments(list_path@, output_path@, target, fps),
{
    let mut args: Vec<String> = Vec::new();
    assert(texts(args@) =~= seq![]);
    push_text(&mut args, "-f");
    push_text(&mut args, "concat");
    push_text(&mut args, "-safe");
    push_text(&mut args, "0");
    push_text(&mut args, "-i");
    push_text(&mut args, list_path);
    match target {
        Some(t) => {
            let mut filter = String::from_str("scale=");
            push_signed_decimal(&mut filter, t.width);
            filter.append(":");
            push_signed_decimal(&mut filter, t.height);
            filter.append(":force_original_aspect_ratio=decrease,pad=");
            push_signed_decimal(&mut filter, t.width);
            filter.append(":");
            push_signed_decimal(&mut filter, t.height);
            filter.append(":(ow-iw)/2:(oh-ih)/2:black");
            assert(filter@ =~= normalize_filter(t));
            let mut rate = String::new();
            push_signed_decimal(&mut rate, fps);
            assert(rate@ =~= signed_decimal(fps as int));
            push_text(&mut args, "-vf");
            push_text(&mut args, filter.as_str());
            push_text(&mut args, "-c:v");
            push_text(&mut args, "libx264");
            push_text(&mut args, "-preset");
            push_text(&mut args, "medium");
            push_text(&mut args, "-crf");
            push_text(&mut args, "23");
            push_text(&mut args, "-r");
            push_text(&mut args, rate.as_str());
            push_text(&mut args, "-fps_mode");
            push_text(&mut args, "cfr");
        },
        None => {
            push_text(&mut args, "-c");
            push_text(&mut args, "copy");
        },
    }
    push_text(&mut args, output_path);
    assert(texts(args@) =~= concat_arguments(list_path@, output_path@, target, fps));
    args
}

/// What to do with the concatenator's output.
pub enum OutputCheck {
    /// The file is there and large enough.
    Accept,
    /// No file was produced: the attempt failed.
    Fail(ScreenRecError),
    /// A file was produced that is too small: delete it; the attempt
    /// failed.
    DeleteAndFail(ScreenRecError),
}

/// The text that reports an output file that is too small.
pub open spec fn small_output_text(size: u64) -> Seq<char> {
    "FFmpeg produced invalid output file ("@ + decimal(size as nat) + " bytes)"@
}

/// Checks the file that the concatenator left behind.
pub fn check_output(exists: bool, size: u64) -> (r: OutputCheck)
    ensures
        !exists ==> (r matches OutputCheck::Fail(ScreenRecError::EncodingError(m)) && m@
            == "FFmpeg did not create output file"@),
        exists && size < MIN_VALID_BYTES ==> (r matches OutputCheck::DeleteAndFail(
            ScreenRecError::EncodingError(m),
        ) && m@ == small_output_text(size)),
        exists && size >= MIN_VALID_BYTES ==> r is Accept,
{
    if !exists {
        return OutputCheck::Fail(
            ScreenRecError::EncodingError(String::from_str("FFmpeg did not create output file")),
        );
    }
    if size < MIN_VALID_BYTES {
        let mut m = String::from_str("FFmpeg produced invalid output file (");
        push_decimal(&mut m, size);
        m.append(" bytes)");
        return OutputCheck::DeleteAndFail(ScreenRecError::EncodingError(m));
    }
    OutputCheck::Accept
}

/// The failure for a concatenator that ended without success, with what
/// it wrote to its error stream.
pub fn concat_failed(stderr: &str) -> (r: ScreenRecError)
    ensures
        r matches ScreenRecError::EncodingError(m) && m@ == "FFmpeg concat failed: "@ + stderr@,
{
    ScreenRecError::EncodingError(prefixed("FFmpeg concat failed: ", stderr))
}

/// One second, in microseconds.
pub const SECOND_MICROS: u64 = 1_000_000;

/// The final video is as long as its chunks together: the two durations
/// differ by at most a second, or by at most two hundredths of the chunks'
/// total.
pub open spec fn durations_agree_spec(chunks_micros: u64, output_micros: u64) -> bool {
    let diff = if chunks_micros > output_micros {
        chunks_micros - output_micros
    } else {
        output_micros - chunks_micros
    };
    diff <= SECOND_MICROS || diff * 100 <= chunks_micros * 2
}

/// Whether the final video is as long as its chunks together.
pub fn durations_agree(chunks_micros: u64, output_micros: u64) -> (r: bool)
    ensures
        r == durations_agree_spec(chunks_micros, output_micros),
{
    let diff: u64 = if chunks_micros > output_micros {
        chunks_micros - output_micros
    } else {
        output_micros - chunks_micros
    };
    diff <= SECOND_MICROS || (diff as u128) * 100 <= (chunks_micros as u128) * 2
}

} // verus!
