//! Recording by handing the whole job to the external tool: the command
//! line for the platform's screen grabber, and what the tool's exit means.

use crate::cli::AudioSource;
use crate::encoder::Platform;
use crate::text::{
    chars_of, decimal, prefixed, push_number, push_signed_decimal, push_text, signed_decimal,
    starts_with, starts_with_seq, str_eq, texts,
};
use vstd::prelude::*;
use vstd::string::*;

verus! {

/// The container that a recording is written to.
#[derive(Debug, Clone, Copy, PartialEq, Eq, Structural)]
pub enum OutputFormat {
    Mp4,
    WebM,
}

/// Whether a text is `webm` in any mix of upper and lower case.
pub open spec fn is_webm_text(s: Seq<char>) -> bool {
    &&& s.len() == 4
    &&& (s[0] == 'w' || s[0] == 'W')
    &&& (s[1] == 'e' || s[1] == 'E')
    &&& (s[2] == 'b' || s[2] == 'B')
    &&& (s[3] == 'm' || s[3] == 'M')
}

/// Whether a text is `webm` in any mix of upper and lower case.
pub fn is_webm(extension: &str) -> (r: bool)
    ensures
        r == is_webm_text(extension@),
{
    let v = chars_of(extension);
    if v.len() != 4 {
        return false;
    }
    (v[0] == 'w' || v[0] == 'W') && (v[1] == 'e' || v[1] == 'E') && (v[2] == 'b' || v[2] == 'B')
        && (v[3] == 'm' || v[3] == 'M')
}

/// The container for an extension: WebM for `webm` in any case, MP4 for
/// everything else and for no extension.
pub open spec fn format_of(extension: Option<Seq<char>>) -> OutputFormat {
    if extension matches Some(e) && is_webm_text(e) {
        OutputFormat::WebM
    } else {
        OutputFormat::Mp4
    }
}

/// The container for an output file with the given extension: WebM for
/// `webm` in any case, MP4 for everything else and for no extension.
pub fn detect_output_format(extension: Option<&str>) -> (r: OutputFormat)
    ensures
        r == format_of(opt_view(extension)),
{
    match extension {
        Some(e) => if is_webm(e) {
            OutputFormat::WebM
        } else {
            OutputFormat::Mp4
        },
        None => OutputFormat::Mp4,
    }
}

/// The video codec arguments for a container on a platform.
pub open spec fn video_arguments(format: OutputFormat, fps: u32, hardware: Seq<Seq<char>>) -> Seq<
    Seq<char>,
> {
    match format {
        OutputFormat::WebM => seq![
            "-vcodec"@,
            "libvpx-vp9"@,
            "-b:v"@,
            "5M"@,
            "-deadline"@,
            "realtime"@,
            "-speed"@,
            "6"@,
            "-g"@,
            decimal((2 * fps) as nat),
            "-threads"@,
            "4"@,
            "-row-mt"@,
            "1"@,
            "-pix_fmt"@,
            "yuv420p"@,
        ],
        OutputFormat::Mp4 => seq!["-vcodec"@] + hardware + seq!["-b:v"@, "5M"@, "-pix_fmt"@, "yuv420p"@],
    }
}

/// The audio codec arguments for a container.
pub open spec fn audio_codec_arguments(format: OutputFormat) -> Seq<Seq<char>> {
    match format {
        OutputFormat::WebM => seq!["-acodec"@, "libopus"@, "-b:a"@, "192k"@, "-ar"@, "48000"@],
        OutputFormat::Mp4 => seq![
            "-acodec"@,
            "aac"@,
            "-b:a"@,
            "192k"@,
            "-ar"@,
            "48000"@,
            "-ac"@,
            "2"@,
        ],
    }
}

/// The muxer arguments that only WebM needs.
pub open spec fn mux_arguments(format: OutputFormat) -> Seq<Seq<char>> {
    match format {
        OutputFormat::WebM => seq![
            "-f"@,
            "webm"@,
            "-cluster_size_limit"@,
            "0"@,
            "-cluster_time_limit"@,
            "0"@,
        ],
        OutputFormat::Mp4 => seq![],
    }
}

/// The arguments that limit a recording to a duration.
pub open spec fn duration_arguments(duration: Option<u32>) -> Seq<Seq<char>> {
    match duration {
        Some(d) => seq!["-t"@, decimal(d as nat)],
        None => seq![],
    }
}

/// The filter arguments that scale the video to a resolution.
pub open spec fn scale_arguments(resolution: Option<Seq<char>>) -> Seq<Seq<char>> {
    match resolution {
        Some(r) => seq!["-vf"@, "scale="@ + r],
        None => seq![],
    }
}

/// The AVFoundation input: screen 1 with the audio device, or without
/// audio.  Without a named device, system audio is device 0 and the
/// microphone device 1.
pub open spec fn avfoundation_input(audio: AudioSource, device: Option<Seq<char>>) -> Seq<char> {
    if audio == AudioSource::Disabled {
        "1:none"@
    } else {
        "1"@ + (match device {
            Some(d) => d,
            None => if audio == AudioSource::Mic {
                ":1"@
            } else {
                ":0"@
            },
        })
    }
}

/// The DirectShow audio device.  A device given as an index stands for
/// the loopback capturer (`:0`), the default microphone (`:1`) or the
/// default for the audio source; any other is taken as a device name.
pub open spec fn dshow_device(audio: AudioSource, device: Option<Seq<char>>) -> Seq<char> {
    match device {
        Some(d) => if starts_with_seq(d, ":"@) {
            if d == ":0"@ {
                "audio=virtual-audio-capturer"@
            } else if d == ":1"@ {
                "audio=default"@
            } else if audio == AudioSource::System {
                "audio=virtual-audio-capturer"@
            } else {
                "audio=default"@
            }
        } else if starts_with_seq(d, "audio="@) {
            d
        } else {
            "audio="@ + d
        },
        None => if audio == AudioSource::Mic {
            "audio=default"@
        } else {
            "audio=virtual-audio-capturer"@
        },
    }
}

/// The arguments that open the screen grabber on macOS.
pub open spec fn macos_head(
    fps: u32,
    resolution: Option<Seq<char>>,
    audio: AudioSource,
    device: Option<Seq<char>>,
) -> Seq<Seq<char>> {
    seq![
        "-y"@,
        "-f"@,
        "avfoundation"@,
        "-pixel_format"@,
        "uyvy422"@,
        "-framerate"@,
        decimal(fps as nat),
    ] + (match resolution {
        Some(r) => seq!["-video_size"@, r],
        None => seq![],
    }) + seq!["-i"@, avfoundation_input(audio, device)]
}

/// The arguments that open the screen grabber on Windows.
pub open spec fn windows_head(fps: u32) -> Seq<Seq<char>> {
    seq!["-y"@, "-f"@, "gdigrab"@, "-framerate"@, decimal(fps as nat), "-i"@, "desktop"@]
}

/// The arguments that limit the duration, select the video stream and
/// scale it; on macOS the probe size is raised as well.
pub open spec fn middle_arguments(
    duration: Option<u32>,
    probe: bool,
    resolution: Option<Seq<char>>,
) -> Seq<Seq<char>> {
    duration_arguments(duration) + (if probe {
        seq!["-probesize"@, "50M"@]
    } else {
        seq![]
    }) + seq!["-map"@, "0:v:0"@] + scale_arguments(resolution)
}

/// The hardware encoder that MP4 recordings use on each platform, with its
/// options.
pub open spec fn hardware_codec(macos: bool) -> Seq<Seq<char>> {
    if macos {
        seq!["h264_videotoolbox"@, "-allow_sw"@, "1"@]
    } else {
        seq!["h264_nvenc"@]
    }
}

/// The audio arguments on macOS: none but `-an` without audio, else the
/// grabber's audio stream, resampled.
pub open spec fn macos_audio(audio: AudioSource, format: OutputFormat) -> Seq<Seq<char>> {
    if audio == AudioSource::Disabled {
        seq!["-an"@]
    } else {
        seq!["-map"@, "0:a:0"@, "-af"@, "aresample=48000"@] + audio_codec_arguments(format)
    }
}

/// The audio arguments on Windows: none but `-an` without audio, else a
/// DirectShow input of its own, resampled.
pub open spec fn windows_audio(
    audio: AudioSource,
    device: Option<Seq<char>>,
    format: OutputFormat,
) -> Seq<Seq<char>> {
    if audio == AudioSource::Disabled {
        seq!["-an"@]
    } else {
        seq![
            "-f"@,
            "dshow"@,
            "-i"@,
            dshow_device(audio, device),
            "-map"@,
            "1:a:0"@,
            "-af"@,
            "aresample=48000"@,
        ] + audio_codec_arguments(format)
    }
}

/// The arguments that end every command line: the muxer's and the output
/// file.
pub open spec fn tail_arguments(format: OutputFormat, output: Seq<char>) -> Seq<Seq<char>> {
    mux_arguments(format) + seq![output]
}

/// The tool's arguments for a recording on macOS.
pub open spec fn macos_arguments(
    output: Seq<char>,
    fps: u32,
    resolution: Option<Seq<char>>,
    duration: Option<u32>,
    audio: AudioSource,
    device: Option<Seq<char>>,
    format: OutputFormat,
) -> Seq<Seq<char>> {
    macos_head(fps, resolution, audio, device) + middle_arguments(duration, true, resolution)
        + video_arguments(format, fps, hardware_codec(true)) + macos_audio(audio, format)
        + tail_arguments(format, output)
}

/// The tool's arguments for a recording on Windows.
pub open spec fn windows_arguments(
    output: Seq<char>,
    fps: u32,
    resolution: Option<Seq<char>>,
    duration: Option<u32>,
    audio: AudioSource,
    device: Option<Seq<char>>,
    format: OutputFormat,
) -> Seq<Seq<char>> {
    windows_head(fps) + middle_arguments(duration, false, resolution) + video_arguments(
        format,
        fps,
        hardware_codec(false),
    ) + windows_audio(audio, device, format) + tail_arguments(format, output)
}

/// A text that may be absent, as a mathematical value.
pub open spec fn opt_view(s: Option<&str>) -> Option<Seq<char>> {
    match s {
        Some(t) => Some(t@),
        None => None,
    }
}

fn push_video(args: &mut Vec<String>, format: OutputFormat, fps: u32, macos: bool)
    ensures
        texts(final(args)@) == texts(old(args)@) + video_arguments(
            format,
            fps,
            hardware_codec(macos),
        ),
{
    match format {
        OutputFormat::WebM => {
            push_text(args, "-vcodec");
            push_text(args, "libvpx-vp9");
            push_text(args, "-b:v");
            push_text(args, "5M");
            push_text(args, "-deadline");
            push_text(args, "realtime");
            push_text(args, "-speed");
            push_text(args, "6");
            push_text(args, "-g");
            push_number(args, 2 * (fps as u64));
            push_text(args, "-threads");
            push_text(args, "4");
            push_text(args, "-row-mt");
            push_text(args, "1");
            push_text(args, "-pix_fmt");
            push_text(args, "yuv420p");
        },
        OutputFormat::Mp4 => {
            push_text(args, "-vcodec");
            if macos {
                push_text(args, "h264_videotoolbox");
                push_text(args, "-allow_sw");
                push_text(args, "1");
            } else {
                push_text(args, "h264_nvenc");
            }
            push_text(args, "-b:v");
            push_text(args, "5M");
            push_text(args, "-pix_fmt");
            push_text(args, "yuv420p");
        },
    }
    assert(texts(args@) =~= texts(old(args)@) + video_arguments(
        format,
        fps,
        hardware_codec(macos),
    ));
}

fn push_audio_codec(args: &mut Vec<String>, format: OutputFormat)
    ensures
        texts(final(args)@) == texts(old(args)@) + audio_codec_arguments(format),
{
    push_text(args, "-acodec");
    match format {
        OutputFormat::WebM => {
            push_text(args, "libopus");
            push_text(args, "-b:a");
            push_text(args, "192k");
            push_text(args, "-ar");
            push_text(args, "48000");
        },
        OutputFormat::Mp4 => {
            push_text(args, "aac");
            push_text(args, "-b:a");
            push_text(args, "192k");
            push_text(args, "-ar");
            push_text(args, "48000");
            push_text(args, "-ac");
            push_text(args, "2");
        },
    }
    assert(texts(args@) =~= texts(old(args)@) + audio_codec_arguments(format));
}

fn push_tail(args: &mut Vec<String>, format: OutputFormat, output: &str)
    ensures
        texts(final(args)@) == texts(old(args)@) + tail_arguments(format, output@),
{
    match format {
        OutputFormat::WebM => {
            push_text(args, "-f");
            push_text(args, "webm");
            push_text(args, "-cluster_size_limit");
            push_text(args, "0");
            push_text(args, "-cluster_time_limit");
            push_text(args, "0");
        },
        OutputFormat::Mp4 => {},
    }
    push_text(args, output);
    assert(texts(args@) =~= texts(old(args)@) + tail_arguments(format, output@));
}

fn push_middle(args: &mut Vec<String>, duration: Option<u32>, probe: bool, resolution: Option<&str>)
    ensures
        texts(final(args)@) == texts(old(args)@) + middle_arguments(
            duration,
            probe,
            opt_view(resolution),
        ),
{
    if let Some(d) = duration {
        push_text(args, "-t");
        push_number(args, d as u64);
    }
    if probe {
        push_text(args, "-probesize");
        push_text(args, "50M");
    }
    push_text(args, "-map");
    push_text(args, "0:v:0");
    if let Some(r) = resolution {
        push_text(args, "-vf");
        let filter = prefixed("scale=", r);
        push_text(args, filter.as_str());
    }
    assert(texts(args@) =~= texts(old(args)@) + middle_arguments(
        duration,
        probe,
        opt_view(resolution),
    ));
}

fn avfoundation_input_name(audio: AudioSource, device: Option<&str>) -> (r: String)
    ensures
        r@ == avfoundation_input(audio, opt_view(device)),
{
    match audio {
        AudioSource::Disabled => String::from_str("1:none"),
        _ => {
            match device {
                Some(d) => prefixed("1", d),
                None => match audio {
                    AudioSource::Mic => prefixed("1", ":1"),
                    _ => prefixed("1", ":0"),
                },
            }
        },
    }
}

fn dshow_device_name(audio: AudioSource, device: Option<&str>) -> (r: String)
    ensures
        r@ == dshow_device(audio, opt_view(device)),
{
    match device {
        Some(d) => {
            if starts_with(d, ":") {
                if str_eq(d, ":0") {
                    String::from_str("audio=virtual-audio-capturer")
                } else if str_eq(d, ":1") {
                    String::from_str("audio=default")
                } else {
                    match audio {
                        AudioSource::System => String::from_str("audio=virtual-audio-capturer"),
                        _ => String::from_str("audio=default"),
                    }
                }
            } else if starts_with(d, "audio=") {
                String::from_str(d)
            } else {
                prefixed("audio=", d)
            }
        },
        None => match audio {
            AudioSource::Mic => String::from_str("audio=default"),
            _ => String::from_str("audio=virtual-audio-capturer"),
        },
    }
}

fn push_macos_head(
    args: &mut Vec<String>,
    fps: u32,
    resolution: Option<&str>,
    audio: AudioSource,
    device: Option<&str>,
)
    ensures
        texts(final(args)@) == texts(old(args)@) + macos_head(
            fps,
            opt_view(resolution),
            audio,
            opt_view(device),
        ),
{
    push_text(args, "-y");
    push_text(args, "-f");
    push_text(args, "avfoundation");
    push_text(args, "-pixel_format");
    push_text(args, "uyvy422");
    push_text(args, "-framerate");
    push_number(args, fps as u64);
    if let Some(r) = resolution {
        push_text(args, "-video_size");
        push_text(args, r);
    }
    let input = avfoundation_input_name(audio, device);
    push_text(args, "-i");
    push_text(args, input.as_str());
    assert(texts(args@) =~= texts(old(args)@) + macos_head(
        fps,
        opt_view(resolution),
        audio,
        opt_view(device),
    ));
}

fn push_windows_head(args: &mut Vec<String>, fps: u32)
    ensures
        texts(final(args)@) == texts(old(args)@) + windows_head(fps),
{
    push_text(args, "-y");
    push_text(args, "-f");
    push_text(args, "gdigrab");
    push_text(args, "-framerate");
    push_number(args, fps as u64);
    push_text(args, "-i");
    push_text(args, "desktop");
    assert(texts(args@) =~= texts(old(args)@) + windows_head(fps));
}

fn push_macos_audio(args: &mut Vec<String>, audio: AudioSource, format: OutputFormat)
    ensures
        texts(final(args)@) == texts(old(args)@) + macos_audio(audio, format),
{
    match audio {
        AudioSource::Disabled => {
            push_text(args, "-an");
        },
        _ => {
            push_text(args, "-map");
            push_text(args, "0:a:0");
            push_text(args, "-af");
            push_text(args, "aresample=48000");
            push_audio_codec(args, format);
        },
    }
    assert(texts(args@) =~= texts(old(args)@) + macos_audio(audio, format));
}

fn push_windows_audio(
    args: &mut Vec<String>,
    audio: AudioSource,
    device: Option<&str>,
    format: OutputFormat,
)
    ensures
        texts(final(args)@) == texts(old(args)@) + windows_audio(audio, opt_view(device), format),
{
    match audio {
        AudioSource::Disabled => {
            push_text(args, "-an");
        },
        _ => {
            let name = dshow_device_name(audio, device);
            push_text(args, "-f");
            push_text(args, "dshow");
            push_text(args, "-i");
            push_text(args, name.as_str());
            push_text(args, "-map");
            push_text(args, "1:a:0");
            push_text(args, "-af");
            push_text(args, "aresample=48000");
            push_audio_codec(args, format);
        },
    }
    assert(texts(args@) =~= texts(old(args)@) + windows_audio(audio, opt_view(device), format));
}

/// The tool's arguments for a recording, for the platforms that have a
/// screen grabber of their own; none for any other platform.
pub fn build_ffmpeg_cmd(
    platform: Platform,
    output: &str,
    fps: u32,
    resolution: Option<&str>,
    duration: Option<u32>,
    audio: AudioSource,
    audio_device: Option<&str>,
    format: OutputFormat,
) -> (r: Option<Vec<String>>)
    ensures
        platform == Platform::Linux ==> r is None,
        platform == Platform::MacOs ==> (r matches Some(args) && texts(args@) == macos_arguments(
            output@,
            fps,
            opt_view(resolution),
            duration,
            audio,
            opt_view(audio_device),
            format,
        )),
        platform == Platform::Windows ==> (r matches Some(args) && texts(args@)
            == windows_arguments(
            output@,
            fps,
            opt_view(resolution),
            duration,
            audio,
            opt_view(audio_device),
            format,
        )),
{
    let mut args: Vec<String> = Vec::new();
    assert(texts(args@) =~= seq![]);
    match platform {
        Platform::Linux => None,
        Platform::MacOs => {
            push_macos_head(&mut args, fps, resolution, audio, audio_device);
            push_middle(&mut args, duration, true, resolution);
            push_video(&mut args, format, fps, true);
            push_macos_audio(&mut args, audio, format);
            push_tail(&mut args, format, output);
            assert(texts(args@) =~= macos_arguments(
                output@,
                fps,
                opt_view(resolution),
                duration,
                audio,
                opt_view(audio_device),
                format,
            ));
            Some(args)
        },
        Platform::Windows => {
            push_windows_head(&mut args, fps);
            push_middle(&mut args, duration, false, resolution);
            push_video(&mut args, format, fps, false);
            push_windows_audio(&mut args, audio, audio_device, format);
            push_tail(&mut args, format, output);
            assert(texts(args@) =~= windows_arguments(
                output@,
                fps,
                opt_view(resolution),
                duration,
                audio,
                opt_view(audio_device),
                format,
            ));
            Some(args)
        },
    }
}

/// What a recorder needs to know of the machine it runs on.
#[derive(Debug, Clone, Copy, PartialEq, Eq, Structural)]
pub struct RecorderEnv {
    pub platform: Platform,
    /// The tool answered a request for its version.
    pub ffmpeg_available: bool,
}

/// A way of recording the screen to a file.
pub trait ScreenRecorder {
    /// What this recorder answers to a request for a recording: the
    /// command line that records with the given settings, or why there is
    /// none.
    spec fn recording_plan(
        &self,
        output: Seq<char>,
        extension: Option<Seq<char>>,
        duration: Option<u32>,
        fps: u32,
        resolution: Option<Seq<char>>,
        audio: AudioSource,
        audio_device: Option<Seq<char>>,
        env: RecorderEnv,
    ) -> Result<Seq<Seq<char>>, Seq<char>>;

    /// The command line that records with the given settings, or why there
    /// is none.
    fn start_recording(
        &self,
        output: &str,
        extension: Option<&str>,
        duration: Option<u32>,
        fps: u32,
        resolution: Option<&str>,
        audio: AudioSource,
        audio_device: Option<&str>,
        env: &RecorderEnv,
    ) -> (r: Result<Vec<String>, String>)
        ensures
            match self.recording_plan(
                output@,
                opt_view(extension),
                duration,
                fps,
                opt_view(resolution),
                audio,
                opt_view(audio_device),
                *env,
            ) {
                Ok(args) => r matches Ok(v) && texts(v@) == args,
                Err(m) => r matches Err(e) && e@ == m,
            },
    ;
}

/// The recorder that hands the job to the external tool.
pub struct FfmpegRecorder;

/// The text that reports a missing tool.
pub open spec fn tool_missing_text() -> Seq<char> {
    "ffmpeg not found in PATH.\nPlease install ffmpeg:\n- macOS: brew install ffmpeg\n- Windows: Download from https://www.gyan.dev/ffmpeg/builds/ and add to PATH"@
}

/// The text that reports a platform without a screen grabber.
pub open spec fn no_grabber_text() -> Seq<char> {
    "screen recording through ffmpeg is not supported on this platform"@
}

/// The text that reports a recording that ended without success.
pub open spec fn recording_failed_text(code: Option<i32>) -> Seq<char> {
    "ffmpeg recording failed with exit code: "@ + signed_decimal(
        match code {
            Some(c) => c as int,
            None => -1,
        },
    )
        + "\nThis may indicate:\n- Insufficient permissions (screen recording/microphone access)\n- Unsupported codec or format\n- Invalid audio device\n- Hardware encoder unavailable\nCheck ffmpeg output above for detailed error messages."@
}

/// What the recorder that uses the external tool answers to a request for
/// a recording: the tool's arguments for the platform's screen grabber,
/// with the container chosen by the output file's extension; no arguments
/// where the tool is missing or the platform has no screen grabber.
pub open spec fn ffmpeg_plan(
    output: Seq<char>,
    extension: Option<Seq<char>>,
    duration: Option<u32>,
    fps: u32,
    resolution: Option<Seq<char>>,
    audio: AudioSource,
    audio_device: Option<Seq<char>>,
    env: RecorderEnv,
) -> Result<Seq<Seq<char>>, Seq<char>> {
    if !env.ffmpeg_available {
        Err(tool_missing_text())
    } else {
        match env.platform {
            Platform::Linux => Err(no_grabber_text()),
            Platform::MacOs => Ok(
                macos_arguments(
                    output,
                    fps,
                    resolution,
                    duration,
                    audio,
                    audio_device,
                    format_of(extension),
                ),
            ),
            Platform::Windows => Ok(
                windows_arguments(
                    output,
                    fps,
                    resolution,
                    duration,
                    audio,
                    audio_device,
                    format_of(extension),
                ),
            ),
        }
    }
}

impl FfmpegRecorder {
    /// The recorder.
    pub fn new() -> (r: FfmpegRecorder) {
        FfmpegRecorder
    }

    /// The tool's arguments for a recording to `output`, whose file
    /// extension is `extension`.  There are none where the tool is missing
    /// or the platform has no screen grabber.
    pub fn start_recording(
        &self,
        output: &str,
        extension: Option<&str>,
        fps: u32,
        resolution: Option<&str>,
        duration: Option<u32>,
        audio: AudioSource,
        audio_device: Option<&str>,
        env: &RecorderEnv,
    ) -> (r: Result<Vec<String>, String>)
        ensures
            match ffmpeg_plan(
                output@,
                opt_view(extension),
                duration,
                fps,
                opt_view(resolution),
                audio,
                opt_view(audio_device),
                *env,
            ) {
                Ok(args) => r matches Ok(v) && texts(v@) == args,
                Err(m) => r matches Err(e) && e@ == m,
            },
    {
        if !env.ffmpeg_available {
            return Err(
                String::from_str(
                    "ffmpeg not found in PATH.\nPlease install ffmpeg:\n- macOS: brew install ffmpeg\n- Windows: Download from https://www.gyan.dev/ffmpeg/builds/ and add to PATH",
                ),
            );
        }
        let format = detect_output_format(extension);
        match build_ffmpeg_cmd(
            env.platform,
            output,
            fps,
            resolution,
            duration,
            audio,
            audio_device,
            format,
        ) {
            Some(args) => Ok(args),
            None => Err(
                String::from_str("screen recording through ffmpeg is not supported on this platform"),
            ),
        }
    }

    /// What the end of the tool means for the recording.
    pub fn finish_recording(&self, success: bool, exit_code: Option<i32>) -> (r: Result<(), String>)
        ensures
            success ==> r is Ok,
            !success ==> (r matches Err(m) && m@ == recording_failed_text(exit_code)),
    {
        if success {
            return Ok(());
        }
        let shown: i64 = match exit_code {
            Some(c) => c as i64,
            None => -1,
        };
        let mut m = String::from_str("ffmpeg recording failed with exit code: ");
        push_signed_decimal(&mut m, shown);
        m.append(
            "\nThis may indicate:\n- Insufficient permissions (screen recording/microphone access)\n- Unsupported codec or format\n- Invalid audio device\n- Hardware encoder unavailable\nCheck ffmpeg output above for detailed error messages.",
        );
        Err(m)
    }
}

impl ScreenRecorder for FfmpegRecorder {
    open spec fn recording_plan(
        &self,
        output: Seq<char>,
        extension: Option<Seq<char>>,
        duration: Option<u32>,
        fps: u32,
        resolution: Option<Seq<char>>,
        audio: AudioSource,
        audio_device: Option<Seq<char>>,
        env: RecorderEnv,
    ) -> Result<Seq<Seq<char>>, Seq<char>> {
        ffmpeg_plan(output, extension, duration, fps, resolution, audio, audio_device, env)
    }

    fn start_recording(
        &self,
        output: &str,
        extension: Option<&str>,
        duration: Option<u32>,
        fps: u32,
        resolution: Option<&str>,
        audio: AudioSource,
        audio_device: Option<&str>,
        env: &RecorderEnv,
    ) -> (r: Result<Vec<String>, String>) {
        FfmpegRecorder::start_recording(
            self,
            output,
            extension,
            fps,
            resolution,
            duration,
            audio,
            audio_device,
            env,
        )
    }
}

/// The recorder for this machine.
pub fn create_recorder() -> (r: FfmpegRecorder) {
    FfmpegRecorder::new()
}

} // verus!
