//! Error kinds of the recorder and the text each one is reported with.

use crate::text::{decimal, prefixed, push_decimal, texts};
use vstd::prelude::*;
use vstd::string::*;

verus! {

/// Failures of the recording pipeline and of chunk concatenation.
#[derive(Debug, Clone, PartialEq, Eq)]
pub enum ScreenRecError {
    /// Display enumeration or frame acquisition failed.
    CaptureError(String),
    /// The audio subsystem failed; video recording goes on.
    AudioError(String),
    /// Terminal failure of the encoder or the muxer.
    EncodingError(String),
    /// An operating-system I/O failure, by its description.
    IoError(String),
    /// An image could not be decoded or written, by its description.
    ImageError(String),
    /// Missing tooling or an unusable path.
    ConfigError(String),
    /// A rejected input value.
    InvalidParameter(String),
    /// The platform lacks the requested facility.
    PlatformNotSupported(String),
    /// The catalog failed.
    DatabaseError(String),
    /// The encoder is held by someone else.
    EncoderBusy(String),
    /// A hardware backend is not present.
    HardwareEncoderUnavailable(String),
    /// Initialization gave up after the given number of retries.
    EncoderInitializationFailed(String, u32),
    /// No audio device could be opened; the names that were tried.
    AudioDeviceUnavailable(Vec<String>),
    /// The encoder failed in the middle of a recording.
    EncoderRuntimeFailure(String),
}

/// Rejections of command-line parameters.
#[derive(Debug, Clone, PartialEq, Eq)]
pub enum AppError {
    /// The resolution text, possibly followed by the reason.
    InvalidResolutionFormat(String),
    /// The rejected frame rate.
    InvalidFps(u32),
    /// The rejected path.
    InvalidOutputPath(String),
    /// The requested monitor and the highest index available.
    InvalidMonitorIndex(usize, usize),
    /// What is wrong with the configuration.
    ConfigError(String),
    /// What the external encoder tool reported.
    FfmpegError(String),
}

/// How a list of names prints in debug notation.
pub uninterp spec fn debug_list(names: Seq<Seq<char>>) -> Seq<char>;

/// `format!("{:?}", names)` of the standard library: the names in debug
/// notation, as a bracketed list.  The result depends on the names alone.
#[verifier::external_body]
pub(crate) fn debug_list_string(names: &Vec<String>) -> (r: String)
    ensures
        r@ == debug_list(texts(names@)),
{
    format!("{:?}", names)
}

impl ScreenRecError {
    /// The text this error is reported with.
    pub open spec fn message_spec(self) -> Seq<char> {
        match self {
            ScreenRecError::CaptureError(m) => "Screen capture error: "@ + m@,
            ScreenRecError::AudioError(m) => "Audio capture error: "@ + m@,
            ScreenRecError::EncodingError(m) => "Encoding error: "@ + m@,
            ScreenRecError::IoError(m) => "IO error: "@ + m@,
            ScreenRecError::ImageError(m) => "Image error: "@ + m@,
            ScreenRecError::ConfigError(m) => "Configuration error: "@ + m@,
            ScreenRecError::InvalidParameter(m) => "Invalid parameter: "@ + m@,
            ScreenRecError::PlatformNotSupported(m) => "Platform not supported: "@ + m@,
            ScreenRecError::DatabaseError(m) => "Database error: "@ + m@,
            ScreenRecError::EncoderBusy(m) => "Encoder busy or in use: "@ + m@,
            ScreenRecError::HardwareEncoderUnavailable(m) => "Hardware encoder unavailable: "@
                + m@,
            ScreenRecError::EncoderInitializationFailed(m, n) =>
                "Encoder initialization failed after "@ + decimal(n as nat) + " retries: "@ + m@,
            ScreenRecError::AudioDeviceUnavailable(names) => "Audio device unavailable, tried: "@
                + debug_list(texts(names@)),
            ScreenRecError::EncoderRuntimeFailure(m) => "Encoder failure during recording: "@
                + m@,
        }
    }

    /// The text this error is reported with.
    pub fn message(&self) -> (r: String)
        ensures
            r@ == self.message_spec(),
    {
        match self {
            ScreenRecError::CaptureError(m) => prefixed("Screen capture error: ", m.as_str()),
            ScreenRecError::AudioError(m) => prefixed("Audio capture error: ", m.as_str()),
            ScreenRecError::EncodingError(m) => prefixed("Encoding error: ", m.as_str()),
            ScreenRecError::IoError(m) => prefixed("IO error: ", m.as_str()),
            ScreenRecError::ImageError(m) => prefixed("Image error: ", m.as_str()),
            ScreenRecError::ConfigError(m) => prefixed("Configuration error: ", m.as_str()),
            ScreenRecError::InvalidParameter(m) => prefixed("Invalid parameter: ", m.as_str()),
            ScreenRecError::PlatformNotSupported(m) => prefixed(
                "Platform not supported: ",
                m.as_str(),
            ),
            ScreenRecError::DatabaseError(m) => prefixed("Database error: ", m.as_str()),
            ScreenRecError::EncoderBusy(m) => prefixed("Encoder busy or in use: ", m.as_str()),
            ScreenRecError::HardwareEncoderUnavailable(m) => prefixed(
                "Hardware encoder unavailable: ",
                m.as_str(),
            ),
            ScreenRecError::EncoderInitializationFailed(m, n) => {
                let mut s = String::from_str("Encoder initialization failed after ");
                push_decimal(&mut s, *n as u64);
                s.append(" retries: ");
                s.append(m.as_str());
                s
            },
            ScreenRecError::AudioDeviceUnavailable(names) => {
                let list = debug_list_string(names);
                prefixed("Audio device unavailable, tried: ", list.as_str())
            },
            ScreenRecError::EncoderRuntimeFailure(m) => prefixed(
                "Encoder failure during recording: ",
                m.as_str(),
            ),
        }
    }
}

impl AppError {
    /// The text this error is reported with.
    pub open spec fn message_spec(self) -> Seq<char> {
        match self {
            AppError::InvalidResolutionFormat(s) => "Invalid resolution format: "@ + s@
                + ". Expected WIDTHxHEIGHT (e.g. 1920x1080)"@,
            AppError::InvalidFps(n) => "Invalid FPS: "@ + decimal(n as nat)
                + ". Must be between 1 and 120"@,
            AppError::InvalidOutputPath(p) => "Output path is invalid: "@ + p@,
            AppError::InvalidMonitorIndex(index, highest) => "Monitor index "@ + decimal(
                index as nat,
            ) + " is out of range. Available monitors: 0-"@ + decimal(highest as nat),
            AppError::ConfigError(m) => "Configuration error: "@ + m@,
            AppError::FfmpegError(m) => "FFmpeg error: "@ + m@,
        }
    }

    /// The text this error is reported with.
    pub fn message(&self) -> (r: String)
        ensures
            r@ == self.message_spec(),
    {
        match self {
            AppError::InvalidResolutionFormat(s) => {
                let mut out = prefixed("Invalid resolution format: ", s.as_str());
                out.append(". Expected WIDTHxHEIGHT (e.g. 1920x1080)");
                out
            },
            AppError::InvalidFps(n) => {
                let mut out = String::from_str("Invalid FPS: ");
                push_decimal(&mut out, *n as u64);
                out.append(". Must be between 1 and 120");
                out
            },
            AppError::InvalidOutputPath(p) => prefixed("Output path is invalid: ", p.as_str()),
            AppError::InvalidMonitorIndex(index, highest) => {
                let mut out = String::from_str("Monitor index ");
                push_decimal(&mut out, *index as u64);
                out.append(" is out of range. Available monitors: 0-");
                push_decimal(&mut out, *highest as u64);
                out
            },
            AppError::ConfigError(m) => prefixed("Configuration error: ", m.as_str()),
            AppError::FfmpegError(m) => prefixed("FFmpeg error: ", m.as_str()),
        }
    }
}

} // verus!
