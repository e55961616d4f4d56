//! Verified core of a chunking screen recorder.
//!
//! The recorder captures frames from one or more displays, encodes them
//! into time-bounded chunks, keeps a catalog of sessions, chunks and
//! frames, and concatenates a task's chunks into one video with a
//! manifest.  This library holds the rules of that pipeline; every
//! function is verified against its contract.  Capturing, encoding, the
//! database and the external tools are driven by the program around it,
//! which hands the library plain values and acts on what it answers.
//!
//! - `display_info`, `cursor`, `capture`: displays, the pointer glyph, the
//!   policy that follows the cursor to another display, and the decisions
//!   of the capture loop.
//! - `pixels`: RGB to YUV 4:2:0 and fitting a frame into the encoder's
//!   size.
//! - `encoder`, `encoder_subprocess`, `chunking`, `recorder`: encoder
//!   backends and their options, retry and fallback, command lines, chunk
//!   state and rollover.
//! - `db`, `sorting`: the catalog and its rules.
//! - `concat`, `durations`, `manifest`: planning a concatenation, reading
//!   what the probe prints and summing up the result.
//! - `cli`, `config`, `validation`, `lifecycle`, `ffmpeg_utils`, `error`,
//!   `text`: parameters, settings, tool lookup, errors and text helpers.
//! - `audio`, `interactions`, `screenshot`: the plain computations of the
//!   side channels.

pub mod audio;
pub mod capture;
pub mod chunking;
pub mod cli;
pub mod concat;
pub mod config;
pub mod cursor;
pub mod db;
pub mod display_info;
pub mod durations;
pub mod encoder;
pub mod encoder_subprocess;
pub mod error;
pub mod ffmpeg_utils;
pub mod interactions;
pub mod lifecycle;
pub mod manifest;
pub mod pixels;
pub mod recorder;
pub mod screenshot;
pub mod sorting;
pub mod text;
pub mod validation;
