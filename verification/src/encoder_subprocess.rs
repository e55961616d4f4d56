//! The encoder that runs the external tool as a child process and feeds
//! it raw frames: the command line, the bookkeeping of frames, and what a
//! frame's metadata is where the tool does not report it.

use crate::capture::Frame;
use crate::concat::ToolOutput;
use crate::encoder::{
    bitrate_mbps, crf_of, encoder_specs, get_available_encoders, kept, listing_flags,
    priority_list, quality_to_bitrate, quality_to_crf, EncoderInfo, FrameMetadata, Platform,
    RecordingOutput,
};
use crate::error::ScreenRecError;
use crate::pixels::{is_fitted, scale_and_pad_frame};
use crate::text::{
    decimal, prefixed, push_decimal, push_number, push_signed_decimal, push_text, signed_decimal,
    str_eq, texts,
};
use vstd::prelude::*;
use vstd::string::*;

verus! {

/// The arguments with which the tool encodes raw RGB frames from its
/// standard input into a fragmented MP4 file.  The rate is given as a
/// bitrate to the VideoToolbox backend and as a rate factor to every other
/// one; the keyframe interval is two seconds of frames.
pub open spec fn encoder_arguments(
    encoder_name: Seq<char>,
    output_path: Seq<char>,
    width: usize,
    height: usize,
    fps: u32,
    quality: u8,
) -> Seq<Seq<char>> {
    let gop = decimal((2 * fps) as nat);
    let rate = decimal(crf_of(quality) as nat);
    seq![
        "-f"@,
        "rawvideo"@,
        "-pixel_format"@,
        "rgb24"@,
        "-video_size"@,
        decimal(width as nat) + "x"@ + decimal(height as nat),
        "-framerate"@,
        decimal(fps as nat),
        "-i"@,
        "pipe:0"@,
        "-c:v"@,
        encoder_name,
        "-fps_mode"@,
        "cfr"@,
        "-r"@,
        decimal(fps as nat),
    ] + (if encoder_name == "h264_videotoolbox"@ {
        seq![
            "-b:v"@,
            decimal(bitrate_mbps(quality, width, height, fps) as nat) + "M"@,
            "-profile:v"@,
            "high"@,
            "-allow_sw"@,
            "1"@,
            "-g"@,
            gop,
        ]
    } else if encoder_name == "libx264"@ {
        seq!["-crf"@, rate, "-preset"@, "slow"@, "-profile:v"@, "high"@, "-g"@, gop]
    } else {
        seq!["-crf"@, rate, "-preset"@, "medium"@, "-g"@, gop]
    }) + seq![
        "-pix_fmt"@,
        "yuv420p"@,
        "-movflags"@,
        "frag_keyframe+empty_moov"@,
        "-f"@,
        "mp4"@,
        output_path,
    ]
}

/// The arguments with which the tool is started as an encoder.
pub fn encoder_args(
    encoder_name: &str,
    output_path: &str,
    width: usize,
    height: usize,
    fps: u32,
    quality: u8,
) -> (r: Vec<String>)
    ensures
        texts(r@) == encoder_arguments(encoder_name@, output_path@, width, height, fps, quality),
{
    let gop: u64 = 2 * (fps as u64);
    let mut size = String::new();
    push_decimal(&mut size, width as u64);
    size.append("x");
    push_decimal(&mut size, height as u64);
    assert(size@ =~= decimal(width as nat) + "x"@ + decimal(height as nat));
    let mut args: Vec<String> = Vec::new();
    assert(texts(args@) =~= seq![]);
    push_text(&mut args, "-f");
    push_text(&mut args, "rawvideo");
    push_text(&mut args, "-pixel_format");
    push_text(&mut args, "rgb24");
    push_text(&mut args, "-video_size");
    push_text(&mut args, size.as_str());
    push_text(&mut args, "-framerate");
    push_number(&mut args, fps as u64);
    push_text(&mut args, "-i");
    push_text(&mut args, "pipe:0");
    push_text(&mut args, "-c:v");
    push_text(&mut args, encoder_name);
    push_text(&mut args, "-fps_mode");
    push_text(&mut args, "cfr");
    push_text(&mut args, "-r");
    push_number(&mut args, fps as u64);
    if str_eq(encoder_name, "h264_videotoolbox") {
        let bitrate = quality_to_bitrate(quality, width, height, fps);
        push_text(&mut args, "-b:v");
        push_text(&mut args, bitrate.as_str());
        push_text(&mut args, "-profile:v");
        push_text(&mut args, "high");
        push_text(&mut args, "-allow_sw");
        push_text(&mut args, "1");
        push_text(&mut args, "-g");
        push_number(&mut args, gop);
    } else if str_eq(encoder_name, "libx264") {
        push_text(&mut args, "-crf");
        push_number(&mut args, quality_to_crf(quality) as u64);
        push_text(&mut args, "-preset");
        push_text(&mut args, "slow");
        push_text(&mut args, "-profile:v");
        push_text(&mut args, "high");
        push_text(&mut args, "-g");
        push_number(&mut args, gop);
    } else {
        push_text(&mut args, "-crf");
        push_number(&mut args, quality_to_crf(quality) as u64);
        push_text(&mut args, "-preset");
        push_text(&mut args, "medium");
        push_text(&mut args, "-g");
        push_number(&mut args, gop);
    }
    push_text(&mut args, "-pix_fmt");
    push_text(&mut args, "yuv420p");
    push_text(&mut args, "-movflags");
    push_text(&mut args, "frag_keyframe+empty_moov");
    push_text(&mut args, "-f");
    push_text(&mut args, "mp4");
    push_text(&mut args, output_path);
    assert(texts(args@) =~= encoder_arguments(
        encoder_name@,
        output_path@,
        width,
        height,
        fps,
        quality,
    ));
    args
}

/// The backends that the tool's list of encoders names, from the answer
/// to the request for that list.  A tool that could not be started or
/// ended without success is a configuration error.
pub fn available_from_listing(output: &ToolOutput) -> (r: Result<Vec<EncoderInfo>, ScreenRecError>)
    ensures
        !output.ran ==> (r matches Err(ScreenRecError::ConfigError(m)) && m@
            == "Failed to run ffmpeg -encoders: "@ + output.stderr@),
        output.ran && !output.success ==> (r matches Err(ScreenRecError::ConfigError(m)) && m@
            == "Failed to get encoder list from FFmpeg"@),
        output.ran && output.success ==> (r matches Ok(list) && encoder_specs(list@) == kept(
            priority_list(Platform::MacOs),
            listing_flags(priority_list(Platform::MacOs), output.stdout@),
        )),
{
    if !output.ran {
        return Err(
            ScreenRecError::ConfigError(
                prefixed("Failed to run ffmpeg -encoders: ", output.stderr.as_str()),
            ),
        );
    }
    if !output.success {
        return Err(
            ScreenRecError::ConfigError(String::from_str("Failed to get encoder list from FFmpeg")),
        );
    }
    Ok(get_available_encoders(Platform::MacOs, output.stdout.as_str()))
}

/// The failure that ends the start of the encoder when no backend could be
/// started: the failure of the last one that was tried, if any was.
pub fn spawn_failure(last: Option<ScreenRecError>) -> (r: ScreenRecError)
    ensures
        last matches Some(e) ==> r == e,
        last is None ==> (r matches ScreenRecError::EncodingError(m) && m@ == "All encoders failed"@),
{
    match last {
        Some(e) => e,
        None => ScreenRecError::EncodingError(String::from_str("All encoders failed")),
    }
}

/// What is written to the tool for one frame.
pub struct EncodedInput {
    /// The frame's pixels at the encoder's size.
    pub data: Vec<u8>,
    /// The pipe is to be flushed after this frame.
    pub flush: bool,
    pub metadata: FrameMetadata,
}

/// Why writing a frame to the tool failed.
pub enum WriteFailure {
    /// The tool has gone away.
    BrokenPipe(String),
    /// Any other failure, by its description.
    Other(String),
}

/// How the tool ended.
pub enum ExitReport {
    /// It ended with success.
    Success,
    /// It ended with this exit code, or without one.
    Failure(Option<i32>),
    /// Waiting for it failed, for this reason.
    WaitFailed(String),
}

/// The encoder of one chunk that feeds the external tool.
pub struct SubprocessEncoder {
    pub output_path: String,
    pub width: usize,
    pub height: usize,
    pub fps: u32,
    /// Frames written to this chunk.
    pub frame_count: u64,
    /// Logical number of this chunk's first frame within the recording.
    pub pts_offset: i64,
    /// Frames from one keyframe to the next.
    pub gop_size: u32,
    pub encoder_info: EncoderInfo,
    pub ffmpeg_path: String,
}

impl SubprocessEncoder {
    /// The frame rate is positive, the keyframe interval is two seconds of
    /// frames, the frame numbers fit the timestamp type, and a frame of
    /// the encoder's size fits in memory.
    pub open spec fn wf(self) -> bool {
        &&& self.fps > 0
        &&& self.gop_size == 2 * self.fps
        &&& 0 <= self.pts_offset
        &&& self.pts_offset + self.frame_count <= i64::MAX
        &&& self.width * self.height * 3 <= usize::MAX
    }

    /// The encoder of a chunk for which the tool was just started with a
    /// backend.
    pub fn new_with_pts_offset(
        output_path: &str,
        width: usize,
        height: usize,
        fps: u32,
        pts_offset: i64,
        encoder_info: EncoderInfo,
        ffmpeg_path: &str,
    ) -> (r: SubprocessEncoder)
        requires
            0 < fps <= 0x7fff_ffff,
            0 <= pts_offset,
            width * height * 3 <= usize::MAX,
        ensures
            r.wf(),
            r.output_path@ == output_path@,
            r.width == width,
            r.height == height,
            r.fps == fps,
            r.frame_count == 0,
            r.pts_offset == pts_offset,
            r.encoder_info == encoder_info,
            r.ffmpeg_path@ == ffmpeg_path@,
    {
        SubprocessEncoder {
            output_path: String::from_str(output_path),
            width,
            height,
            fps,
            frame_count: 0,
            pts_offset,
            gop_size: fps * 2,
            encoder_info,
            ffmpeg_path: String::from_str(ffmpeg_path),
        }
    }

    /// What is written to the tool for a frame, and the frame's metadata.
    /// A frame of another size than the encoder's is fitted into it.  The
    /// pipe is flushed once a second.  Every frame at a multiple of the
    /// keyframe interval counts as a keyframe, and a frame's number within
    /// the chunk is both its presentation and its decode timestamp.
    pub fn encode_frame(&mut self, frame: Frame) -> (r: EncodedInput)
        requires
            old(self).wf(),
            old(self).pts_offset + old(self).frame_count < i64::MAX,
        ensures
            final(self).wf(),
            final(self).frame_count == old(self).frame_count + 1,
            final(self).output_path == old(self).output_path,
            final(self).width == old(self).width,
            final(self).height == old(self).height,
            final(self).fps == old(self).fps,
            final(self).pts_offset == old(self).pts_offset,
            final(self).encoder_info == old(self).encoder_info,
            final(self).ffmpeg_path == old(self).ffmpeg_path,
            frame.width == old(self).width && frame.height == old(self).height ==> r.data@
                == frame.data@,
            !(frame.width == old(self).width && frame.height == old(self).height) ==> is_fitted(
                r.data@,
                frame.data@,
                frame.width as int,
                frame.height as int,
                old(self).width as int,
                old(self).height as int,
            ),
            r.flush == (old(self).frame_count % (old(self).fps as u64) == 0),
            r.metadata == (FrameMetadata {
                is_keyframe: old(self).frame_count % (old(self).gop_size as u64) == 0,
                pts: Some(old(self).frame_count as i64),
                dts: Some(old(self).frame_count as i64),
                display_index: frame.display_index,
                width: frame.width,
                height: frame.height,
            }),
    {
        let metadata = FrameMetadata {
            is_keyframe: self.frame_count % (self.gop_size as u64) == 0,
            pts: Some(self.frame_count as i64),
            dts: Some(self.frame_count as i64),
            display_index: frame.display_index,
            width: frame.width,
            height: frame.height,
        };
        let flush = self.frame_count % (self.fps as u64) == 0;
        let data = if frame.width != self.width || frame.height != self.height {
            scale_and_pad_frame(
                frame.data.as_slice(),
                frame.width,
                frame.height,
                self.width,
                self.height,
            )
        } else {
            frame.data
        };
        self.frame_count = self.frame_count + 1;
        EncodedInput { data, flush, metadata }
    }

    /// The failure for a frame that could not be written to the tool: a
    /// runtime failure of the encoder where the tool has gone away, an
    /// encoding error otherwise.
    pub fn write_failed(failure: &WriteFailure) -> (r: ScreenRecError)
        ensures
            failure matches WriteFailure::BrokenPipe(e) ==> (r matches ScreenRecError::EncoderRuntimeFailure(
                m,
            ) && m@ == "FFmpeg process died: "@ + e@),
            failure matches WriteFailure::Other(e) ==> (r matches ScreenRecError::EncodingError(m)
                && m@ == "Failed to write frame to stdin: "@ + e@),
    {
        match failure {
            WriteFailure::BrokenPipe(e) => ScreenRecError::EncoderRuntimeFailure(
                prefixed("FFmpeg process died: ", e.as_str()),
            ),
            WriteFailure::Other(e) => ScreenRecError::EncodingError(
                prefixed("Failed to write frame to stdin: ", e.as_str()),
            ),
        }
    }

    /// The logical number of the frame that follows this chunk's last one.
    pub fn get_next_pts(&self) -> (r: i64)
        requires
            self.wf(),
        ensures
            r == self.pts_offset + self.frame_count,
    {
        self.pts_offset + (self.frame_count as i64)
    }

    /// The text that reports a tool that ended without success.
    pub open spec fn exit_text(code: Option<i32>) -> Seq<char> {
        "FFmpeg process exited with code "@ + signed_decimal(
            match code {
                Some(c) => c as int,
                None => -1,
            },
        )
    }

    /// Closes the chunk after the tool has ended.  The chunk's file is the
    /// result where the tool ended with success and the file exists.
    pub fn finish(self, exit: &ExitReport, output_exists: bool) -> (r: Result<
        RecordingOutput,
        ScreenRecError,
    >)
        ensures
            exit matches ExitReport::WaitFailed(e) ==> (r matches Err(ScreenRecError::EncodingError(m))
                && m@ == "Failed to wait for FFmpeg process: "@ + e@),
            exit matches ExitReport::Failure(code) ==> (r matches Err(ScreenRecError::EncodingError(m))
                && m@ == Self::exit_text(*code)),
            exit is Success && !output_exists ==> (r matches Err(ScreenRecError::EncodingError(m))
                && m@ == "Output file was not created: "@ + self.output_path@),
            exit is Success && output_exists ==> (r matches Ok(out) && out.video_file
                == self.output_path),
    {
        match exit {
            ExitReport::WaitFailed(e) => {
                return Err(
                    ScreenRecError::EncodingError(
                        prefixed("Failed to wait for FFmpeg process: ", e.as_str()),
                    ),
                );
            },
            ExitReport::Failure(code) => {
                let shown: i64 = match code {
                    Some(c) => *c as i64,
                    None => -1,
                };
                let mut m = String::from_str("FFmpeg process exited with code ");
                push_signed_decimal(&mut m, shown);
                return Err(ScreenRecError::EncodingError(m));
            },
            ExitReport::Success => {},
        }
        if !output_exists {
            return Err(
                ScreenRecError::EncodingError(
                    prefixed("Output file was not created: ", self.output_path.as_str()),
                ),
            );
        }
        Ok(RecordingOutput { video_file: self.output_path })
    }
}

} // verus!
