//! What the controller of a recording decides before it starts the
//! pipeline and when it shuts it down.

use crate::capture::ScreenCapture;
use crate::cli::{AudioSource, RecordingType};
use crate::display_info::max_dimensions;
use crate::error::ScreenRecError;
use crate::text::{push_text, texts};
use vstd::prelude::*;
use vstd::string::*;

verus! {

/// Largest frame rate at which the pipeline records.
pub const MAX_RECORD_FPS: u32 = 60;

/// Seconds of frames that the bridge between capture and encoder holds.
pub const BRIDGE_SECONDS: u32 = 10;

/// Milliseconds that the encoder is given to finish its chunk before
/// capture is stopped.
pub const SHUTDOWN_GRACE_MS: u64 = 500;

/// Checks the inputs of a recording: a task recording needs a task id, and
/// the frame rate lies between 1 and 60.
pub fn validate_record_request(recording_type: RecordingType, has_task_id: bool, fps: u32) -> (r:
    Result<(), ScreenRecError>)
    ensures
        recording_type == RecordingType::Task && !has_task_id ==> (r matches Err(
            ScreenRecError::InvalidParameter(m),
        ) && m@ == "task_id is required when recording_type is 'task'"@),
        !(recording_type == RecordingType::Task && !has_task_id) && !(1 <= fps <= MAX_RECORD_FPS)
            ==> (r matches Err(ScreenRecError::InvalidParameter(m)) && m@
            == "FPS must be between 1 and 60"@),
        !(recording_type == RecordingType::Task && !has_task_id) && 1 <= fps <= MAX_RECORD_FPS
            ==> r is Ok,
{
    match recording_type {
        RecordingType::Task => {
            if !has_task_id {
                return Err(
                    ScreenRecError::InvalidParameter(
                        String::from_str("task_id is required when recording_type is 'task'"),
                    ),
                );
            }
        },
        RecordingType::AlwaysOn => {},
    }
    if fps == 0 || fps > MAX_RECORD_FPS {
        return Err(
            ScreenRecError::InvalidParameter(String::from_str("FPS must be between 1 and 60")),
        );
    }
    Ok(())
}

/// The audio source that is recorded: none where audio is switched off.
pub fn effective_audio(audio: AudioSource, no_audio: bool) -> (r: AudioSource)
    ensures
        r == if no_audio {
            AudioSource::Disabled
        } else {
            audio
        },
{
    if no_audio {
        AudioSource::Disabled
    } else {
        audio
    }
}

/// Where recordings go below the user's home directory: background
/// recordings into one directory, task recordings into one directory for
/// each task.
pub open spec fn output_directory(recording_type: RecordingType, task_id: Seq<char>) -> Seq<
    Seq<char>,
> {
    match recording_type {
        RecordingType::AlwaysOn => seq![".omega"@, "data"@, "always_on"@],
        RecordingType::Task => seq![".omega"@, "data"@, "tasks"@, task_id],
    }
}

/// Where recordings go below the user's home directory, one name for each
/// level.
pub fn default_output_directory(recording_type: RecordingType, task_id: &str) -> (r: Vec<String>)
    ensures
        texts(r@) == output_directory(recording_type, task_id@),
{
    let mut parts: Vec<String> = Vec::new();
    assert(texts(parts@) =~= seq![]);
    push_text(&mut parts, ".omega");
    push_text(&mut parts, "data");
    match recording_type {
        RecordingType::AlwaysOn => {
            push_text(&mut parts, "always_on");
        },
        RecordingType::Task => {
            push_text(&mut parts, "tasks");
            push_text(&mut parts, task_id);
        },
    }
    assert(texts(parts@) =~= output_directory(recording_type, task_id@));
    parts
}

/// Where the catalog lies below the user's home directory.
pub fn catalog_path() -> (r: Vec<String>)
    ensures
        texts(r@) == seq![".omega"@, "db.sqlite"@],
{
    let mut parts: Vec<String> = Vec::new();
    assert(texts(parts@) =~= seq![]);
    push_text(&mut parts, ".omega");
    push_text(&mut parts, "db.sqlite");
    assert(texts(parts@) =~= seq![".omega"@, "db.sqlite"@]);
    parts
}

/// A number rounded down to an even one.
pub open spec fn even_floor(n: usize) -> usize {
    (n - n % 2) as usize
}

/// One side of the encoder's frame before it is made even: the size that
/// was asked for, if any; else, where capture follows the cursor, the
/// largest such side among all displays; else that of the captured
/// display.
pub open spec fn requested_side(asked: u32, multi_monitor: bool, largest: usize, own: usize) -> usize {
    if asked > 0 {
        asked as usize
    } else if multi_monitor {
        largest
    } else {
        own
    }
}

/// The width and height at which the encoder works, both even.
pub fn capture_dimensions(width: u32, height: u32, capture: &ScreenCapture) -> (r: (usize, usize))
    ensures
        r.0 == even_floor(
            requested_side(
                width,
                capture.multi_monitor,
                max_dimensions(capture.displays@).0,
                if capture.display_index < capture.displays@.len() {
                    capture.displays@[capture.display_index as int].width
                } else {
                    crate::capture::FALLBACK_WIDTH
                },
            ),
        ),
        r.1 == even_floor(
            requested_side(
                height,
                capture.multi_monitor,
                max_dimensions(capture.displays@).1,
                if capture.display_index < capture.displays@.len() {
                    capture.displays@[capture.display_index as int].height
                } else {
                    crate::capture::FALLBACK_HEIGHT
                },
            ),
        ),
        r.0 % 2 == 0,
        r.1 % 2 == 0,
{
    let w: usize = if width > 0 {
        width as usize
    } else if capture.is_multi_monitor() {
        capture.get_max_dimensions().0
    } else {
        capture.width()
    };
    let h: usize = if height > 0 {
        height as usize
    } else if capture.is_multi_monitor() {
        capture.get_max_dimensions().1
    } else {
        capture.height()
    };
    (w - w % 2, h - h % 2)
}

/// The number of frames after which capture stops: none for a recording
/// that runs until it is interrupted, else the duration times the frame
/// rate, at most the largest number that fits.
pub fn target_frames(duration_secs: u64, fps: u32) -> (r: Option<u64>)
    ensures
        duration_secs == 0 ==> r is None,
        duration_secs > 0 ==> r == Some(
            if duration_secs * fps <= u64::MAX {
                (duration_secs * fps) as u64
            } else {
                u64::MAX
            },
        ),
{
    if duration_secs == 0 {
        return None;
    }
    match duration_secs.checked_mul(fps as u64) {
        Some(n) => Some(n),
        None => Some(u64::MAX),
    }
}

/// The number of frames that the bridge between capture and encoder
/// holds: ten seconds of them, and at least one.
pub fn bridge_capacity(fps: u32) -> (r: usize)
    ensures
        r == if fps == 0 {
            1
        } else if fps * BRIDGE_SECONDS <= usize::MAX {
            fps * BRIDGE_SECONDS
        } else {
            usize::MAX as int
        },
{
    if fps == 0 {
        return 1;
    }
    let wide: u64 = (fps as u64) * 10;
    if wide > usize::MAX as u64 {
        usize::MAX
    } else {
        wide as usize
    }
}

/// Whether a recording opens a session in the catalog: task recordings
/// with a task id do.
pub fn opens_session(recording_type: RecordingType, has_task_id: bool) -> (r: bool)
    ensures
        r == (recording_type == RecordingType::Task && has_task_id),
{
    match recording_type {
        RecordingType::Task => has_task_id,
        RecordingType::AlwaysOn => false,
    }
}

/// How mouse and keyboard are followed during a recording.
#[derive(Debug, Clone, Copy, PartialEq, Eq, Structural)]
pub enum InteractionMode {
    /// Every interaction goes to the task's line-delimited log.
    TaskLog,
    /// Interactions are collected and saved at the end.
    Collect,
    /// Only the cursor position is followed, for drawing the pointer.
    CursorOnly,
}

/// How interactions are followed: task recordings always log them,
/// background recordings collect them on request.
pub fn interaction_mode(recording_type: RecordingType, has_task_id: bool, track_interactions: bool) -> (r:
    InteractionMode)
    ensures
        r == if recording_type == RecordingType::Task && has_task_id {
            InteractionMode::TaskLog
        } else if track_interactions {
            InteractionMode::Collect
        } else {
            InteractionMode::CursorOnly
        },
{
    if opens_session(recording_type, has_task_id) {
        InteractionMode::TaskLog
    } else if track_interactions {
        InteractionMode::Collect
    } else {
        InteractionMode::CursorOnly
    }
}

/// One step of an orderly shutdown.
#[derive(Debug, Clone, Copy, PartialEq, Eq, Structural)]
pub enum ShutdownStep {
    /// Write the session's end time to the catalog.
    EndSession,
    /// Ask the encoder to finish its chunk.
    SignalEncoder,
    /// Give the encoder time to do so.
    Wait { millis: u64 },
    /// Tell capture to stop.
    StopCapture,
}

/// The steps of an orderly shutdown, in order: the session is ended
/// before the encoder is asked to flush, so that a crash during the flush
/// leaves no session without an end time; capture is stopped last, after
/// the grace period.
pub fn shutdown_steps(has_session: bool) -> (r: Vec<ShutdownStep>)
    ensures
        r@ == if has_session {
            seq![
                ShutdownStep::EndSession,
                ShutdownStep::SignalEncoder,
                ShutdownStep::Wait { millis: SHUTDOWN_GRACE_MS },
                ShutdownStep::StopCapture,
            ]
        } else {
            seq![
                ShutdownStep::SignalEncoder,
                ShutdownStep::Wait { millis: SHUTDOWN_GRACE_MS },
                ShutdownStep::StopCapture,
            ]
        },
{
    let mut steps: Vec<ShutdownStep> = Vec::new();
    if has_session {
        steps.push(ShutdownStep::EndSession);
    }
    steps.push(ShutdownStep::SignalEncoder);
    steps.push(ShutdownStep::Wait { millis: SHUTDOWN_GRACE_MS });
    steps.push(ShutdownStep::StopCapture);
    assert(steps@ =~= if has_session {
        seq![
            ShutdownStep::EndSession,
            ShutdownStep::SignalEncoder,
            ShutdownStep::Wait { millis: SHUTDOWN_GRACE_MS },
            ShutdownStep::StopCapture,
        ]
    } else {
        seq![
            ShutdownStep::SignalEncoder,
            ShutdownStep::Wait { millis: SHUTDOWN_GRACE_MS },
            ShutdownStep::StopCapture,
        ]
    });
    steps
}

} // verus!
