//! Encoder backends: the platform's priority list, which of them are
//! available, how quality maps to each backend's rate parameter, the retry
//! and fallback policy of initialization, and the fallback in the middle
//! of a recording.

use crate::error::{debug_list, debug_list_string, ScreenRecError};
use crate::text::{
    contains, contains_seq, decimal, decimal_string, power, prefixed, str_eq, texts,
};
use vstd::prelude::*;
use vstd::string::*;

verus! {

/// The operating systems with a backend list of their own.
#[derive(Debug, Clone, Copy, PartialEq, Eq, Structural)]
pub enum Platform {
    Windows,
    MacOs,
    Linux,
}

/// Where a backend does its work.
#[derive(Debug, Clone, Copy, PartialEq, Eq, Structural)]
pub enum EncoderType {
    HardwareGpu,
    HardwareCpu,
    Software,
}

/// A codec backend.  A lower priority number is tried first.
#[derive(Debug, Clone, PartialEq, Eq)]
pub struct EncoderInfo {
    pub name: String,
    pub encoder_type: EncoderType,
    pub priority: u8,
}

/// A backend as a mathematical value.
pub struct EncoderSpec {
    pub name: Seq<char>,
    pub encoder_type: EncoderType,
    pub priority: u8,
}

impl View for EncoderInfo {
    type V = EncoderSpec;

    open spec fn view(&self) -> EncoderSpec {
        EncoderSpec { name: self.name@, encoder_type: self.encoder_type, priority: self.priority }
    }
}

/// The backends of a list as mathematical values.
pub open spec fn encoder_specs(list: Seq<EncoderInfo>) -> Seq<EncoderSpec> {
    list.map_values(|e: EncoderInfo| e@)
}

impl EncoderInfo {
    /// A backend with the given name, type and priority.
    pub fn new(name: &str, encoder_type: EncoderType, priority: u8) -> (r: EncoderInfo)
        ensures
            r@ == (EncoderSpec { name: name@, encoder_type, priority }),
    {
        EncoderInfo { name: String::from_str(name), encoder_type, priority }
    }

    /// A copy of this backend.
    pub fn duplicate(&self) -> (r: EncoderInfo)
        ensures
            r@ == self@,
    {
        EncoderInfo {
            name: self.name.clone(),
            encoder_type: self.encoder_type,
            priority: self.priority,
        }
    }
}

/// The file that a finished chunk was written to.
#[derive(Debug, Clone, PartialEq, Eq)]
pub struct RecordingOutput {
    pub video_file: String,
}

/// What the encoder reports of an encoded frame: the flags and timestamps
/// of the latest packet, in the encoder's time base, and where the frame
/// came from.
#[derive(Debug, Clone, Copy, PartialEq, Eq, Structural)]
pub struct FrameMetadata {
    pub is_keyframe: bool,
    pub pts: Option<i64>,
    pub dts: Option<i64>,
    pub display_index: usize,
    /// Width of the source frame before scaling and padding.
    pub width: usize,
    /// Height of the source frame before scaling and padding.
    pub height: usize,
}

/// The backends of a platform in the order in which they are tried:
/// hardware first, software H.264 last.
pub open spec fn priority_list(platform: Platform) -> Seq<EncoderSpec> {
    match platform {
        Platform::Windows => seq![
            EncoderSpec {
                name: "h264_nvenc"@,
                encoder_type: EncoderType::HardwareGpu,
                priority: 0,
            },
            EncoderSpec { name: "h264_qsv"@, encoder_type: EncoderType::HardwareCpu, priority: 1 },
            EncoderSpec { name: "h264_amf"@, encoder_type: EncoderType::HardwareGpu, priority: 2 },
            EncoderSpec { name: "libx264"@, encoder_type: EncoderType::Software, priority: 10 },
            EncoderSpec { name: "h264"@, encoder_type: EncoderType::Software, priority: 11 },
        ],
        Platform::MacOs => seq![
            EncoderSpec {
                name: "h264_videotoolbox"@,
                encoder_type: EncoderType::HardwareGpu,
                priority: 0,
            },
            EncoderSpec { name: "libx264"@, encoder_type: EncoderType::Software, priority: 10 },
            EncoderSpec { name: "h264"@, encoder_type: EncoderType::Software, priority: 11 },
        ],
        Platform::Linux => seq![
            EncoderSpec {
                name: "h264_vaapi"@,
                encoder_type: EncoderType::HardwareGpu,
                priority: 0,
            },
            EncoderSpec {
                name: "h264_nvenc"@,
                encoder_type: EncoderType::HardwareGpu,
                priority: 1,
            },
            EncoderSpec { name: "libx264"@, encoder_type: EncoderType::Software, priority: 10 },
            EncoderSpec { name: "h264"@, encoder_type: EncoderType::Software, priority: 11 },
        ],
    }
}

/// The backends of a platform in the order in which they are tried.
pub fn get_encoder_priority_list(platform: Platform) -> (r: Vec<EncoderInfo>)
    ensures
        encoder_specs(r@) == priority_list(platform),
{
    let mut list: Vec<EncoderInfo> = Vec::new();
    match platform {
        Platform::Windows => {
            list.push(EncoderInfo::new("h264_nvenc", EncoderType::HardwareGpu, 0));
            list.push(EncoderInfo::new("h264_qsv", EncoderType::HardwareCpu, 1));
            list.push(EncoderInfo::new("h264_amf", EncoderType::HardwareGpu, 2));
            list.push(EncoderInfo::new("libx264", EncoderType::Software, 10));
            list.push(EncoderInfo::new("h264", EncoderType::Software, 11));
        },
        Platform::MacOs => {
            list.push(EncoderInfo::new("h264_videotoolbox", EncoderType::HardwareGpu, 0));
            list.push(EncoderInfo::new("libx264", EncoderType::Software, 10));
            list.push(EncoderInfo::new("h264", EncoderType::Software, 11));
        },
        Platform::Linux => {
            list.push(EncoderInfo::new("h264_vaapi", EncoderType::HardwareGpu, 0));
            list.push(EncoderInfo::new("h264_nvenc", EncoderType::HardwareGpu, 1));
            list.push(EncoderInfo::new("libx264", EncoderType::Software, 10));
            list.push(EncoderInfo::new("h264", EncoderType::Software, 11));
        },
    }
    assert(encoder_specs(list@) =~= priority_list(platform));
    list
}

/// The backends of `list` whose flag is set, in their order.  Backends
/// beyond the end of `flags` are left out.
pub open spec fn kept(list: Seq<EncoderSpec>, flags: Seq<bool>) -> Seq<EncoderSpec>
    decreases list.len(),
{
    if list.len() == 0 {
        seq![]
    } else {
        let rest = kept(list.drop_last(), flags);
        if list.len() <= flags.len() && flags[list.len() - 1] {
            rest.push(list.last())
        } else {
            rest
        }
    }
}

/// Keeps the backends that were reported as available.
pub fn retain_available(list: &Vec<EncoderInfo>, flags: &Vec<bool>) -> (r: Vec<EncoderInfo>)
    ensures
        encoder_specs(r@) == kept(encoder_specs(list@), flags@),
{
    let mut out: Vec<EncoderInfo> = Vec::new();
    let mut i: usize = 0;
    assert(encoder_specs(list@).take(0) =~= seq![]);
    while i < list.len()
        invariant
            i <= list.len(),
            encoder_specs(out@) == kept(encoder_specs(list@).take(i as int), flags@),
        decreases list.len() - i,
    {
        let ghost prefix = encoder_specs(list@).take(i + 1);
        assert(prefix.drop_last() =~= encoder_specs(list@).take(i as int));
        assert(prefix.last() == list@[i as int]@);
        if i < flags.len() && flags[i] {
            let ghost before = encoder_specs(out@);
            out.push(list[i].duplicate());
            assert(encoder_specs(out@) =~= before.push(list@[i as int]@));
        }
        i += 1;
    }
    assert(encoder_specs(list@).take(i as int) =~= encoder_specs(list@));
    out
}

/// The tool's list of encoders names this backend: the name stands there
/// between two spaces, or followed by two spaces.
pub open spec fn listed(listing: Seq<char>, name: Seq<char>) -> bool {
    contains_seq(listing, " "@ + name + " "@) || contains_seq(listing, name + "  "@)
}

/// Whether the tool's list of encoders names a backend.
pub fn is_listed(listing: &str, name: &str) -> (r: bool)
    ensures
        r == listed(listing@, name@),
{
    let mut between = String::from_str(" ");
    between.append(name);
    between.append(" ");
    if contains(listing, between.as_str()) {
        return true;
    }
    let mut followed = String::from_str(name);
    followed.append("  ");
    contains(listing, followed.as_str())
}

/// For each backend of `list`, whether the tool's list of encoders names
/// it.
pub open spec fn listing_flags(list: Seq<EncoderSpec>, listing: Seq<char>) -> Seq<bool> {
    Seq::new(list.len(), |i: int| listed(listing, list[i].name))
}

/// The backends of a platform that the tool's list of encoders names, in
/// priority order.
pub fn get_available_encoders(platform: Platform, listing: &str) -> (r: Vec<EncoderInfo>)
    ensures
        encoder_specs(r@) == kept(
            priority_list(platform),
            listing_flags(priority_list(platform), listing@),
        ),
{
    let list = get_encoder_priority_list(platform);
    let mut flags: Vec<bool> = Vec::new();
    let mut i: usize = 0;
    while i < list.len()
        invariant
            i <= list.len(),
            flags@.len() == i,
            forall|k: int| 0 <= k < i ==> flags@[k] == listed(listing@, list@[k]@.name),
        decreases list.len() - i,
    {
        flags.push(is_listed(listing, list[i].name.as_str()));
        i += 1;
    }
    assert(flags@ =~= listing_flags(encoder_specs(list@), listing@));
    retain_available(&list, &flags)
}

/// How often and how patiently initialization of a backend is retried.
#[derive(Debug, Clone, Copy, PartialEq, Eq, Structural)]
pub struct RetryConfig {
    /// Retries after the first attempt.
    pub max_retries: u32,
    /// Delay before the first retry, in milliseconds.
    pub initial_delay_ms: u64,
    /// Factor by which the delay grows from one retry to the next.
    pub backoff_multiplier: u64,
}

impl Default for RetryConfig {
    /// Three retries, after 100 ms, 300 ms and 900 ms.
    fn default() -> (r: RetryConfig)
        ensures
            r.max_retries == 3,
            r.initial_delay_ms == 100,
            r.backoff_multiplier == 3,
    {
        RetryConfig { max_retries: 3, initial_delay_ms: 100, backoff_multiplier: 3 }
    }
}

/// A power with a base of at least 1 does not shrink as the exponent
/// grows.
pub proof fn lemma_power_grows(base: nat, low: nat, high: nat)
    requires
        base >= 1,
        low <= high,
    ensures
        1 <= power(base, low) <= power(base, high),
    decreases high,
{
    if low == 0 {
        if high > 0 {
            lemma_power_grows(base, 0, (high - 1) as nat);
            assert(base * power(base, (high - 1) as nat) >= power(base, (high - 1) as nat))
                by (nonlinear_arith)
                requires
                    base >= 1,
            ;
        }
    } else {
        lemma_power_grows(base, (low - 1) as nat, (high - 1) as nat);
        assert(base * power(base, (low - 1) as nat) <= base * power(base, (high - 1) as nat))
            by (nonlinear_arith)
            requires
                power(base, (low - 1) as nat) <= power(base, (high - 1) as nat),
        ;
        assert(base * power(base, (low - 1) as nat) >= 1) by (nonlinear_arith)
            requires
                base >= 1,
                power(base, (low - 1) as nat) >= 1,
        ;
    }
}

impl RetryConfig {
    /// The delay before attempt number `attempt`, where attempt 0 is the
    /// first try: nothing before the first try, then the initial delay
    /// multiplied once more for each further retry.
    pub open spec fn delay(self, attempt: u32) -> nat {
        if attempt == 0 {
            0
        } else {
            self.initial_delay_ms as nat * power(
                self.backoff_multiplier as nat,
                (attempt - 1) as nat,
            )
        }
    }

    /// The delay before an attempt in milliseconds, limited to the largest
    /// number that fits.
    pub fn get_delay_ms(&self, attempt: u32) -> (r: u64)
        ensures
            r == if self.delay(attempt) <= u64::MAX {
                self.delay(attempt)
            } else {
                u64::MAX as nat
            },
    {
        if attempt == 0 {
            return 0;
        }
        if self.initial_delay_ms == 0 {
            assert(self.delay(attempt) == 0) by (nonlinear_arith)
                requires
                    self.delay(attempt) == self.initial_delay_ms as nat * power(
                        self.backoff_multiplier as nat,
                        (attempt - 1) as nat,
                    ),
                    self.initial_delay_ms == 0,
            ;
            return 0;
        }
        if self.backoff_multiplier == 0 {
            if attempt == 1 {
                assert(self.delay(attempt) == self.initial_delay_ms as nat * 1);
                return self.initial_delay_ms;
            }
            assert(power(0, (attempt - 1) as nat) == 0);
            assert(self.delay(attempt) == 0) by (nonlinear_arith)
                requires
                    self.delay(attempt) == self.initial_delay_ms as nat * power(
                        self.backoff_multiplier as nat,
                        (attempt - 1) as nat,
                    ),
                    power(self.backoff_multiplier as nat, (attempt - 1) as nat) == 0,
            ;
            return 0;
        }
        let ghost base = self.backoff_multiplier as nat;
        let ghost first = self.initial_delay_ms as nat;
        let mut acc: u64 = self.initial_delay_ms;
        let mut k: u32 = 1;
        while k < attempt
            invariant
                1 <= k <= attempt,
                base == self.backoff_multiplier,
                first == self.initial_delay_ms,
                base >= 1,
                first >= 1,
                acc == first * power(base, (k - 1) as nat),
            decreases attempt - k,
        {
            match acc.checked_mul(self.backoff_multiplier) {
                Some(next) => {
                    assert(first * power(base, k as nat) == first * power(base, (k - 1) as nat)
                        * base) by (nonlinear_arith)
                        requires
                            power(base, k as nat) == base * power(base, (k - 1) as nat),
                    ;
                    acc = next;
                },
                None => {
                    proof {
                        assert(first * power(base, k as nat) == first * power(
                            base,
                            (k - 1) as nat,
                        ) * base) by (nonlinear_arith)
                            requires
                                power(base, k as nat) == base * power(base, (k - 1) as nat),
                        ;
                        lemma_power_grows(base, k as nat, (attempt - 1) as nat);
                        assert(first * power(base, (attempt - 1) as nat) >= first * power(
                            base,
                            k as nat,
                        )) by (nonlinear_arith)
                            requires
                                power(base, k as nat) <= power(base, (attempt - 1) as nat),
                        ;
                    }
                    return u64::MAX;
                },
            }
            k += 1;
        }
        acc
    }
}

/// The quality setting as it is used: between 1 and 10.
pub open spec fn clamped_quality(quality: u8) -> int {
    if quality < 1 {
        1
    } else if quality > 10 {
        10
    } else {
        quality as int
    }
}

/// The constant rate factor for a quality setting: 42 less three times the
/// quality, kept between 12 and 35.
pub open spec fn crf_of(quality: u8) -> int {
    let mapped = 42 - 3 * clamped_quality(quality);
    if mapped < 12 {
        12
    } else if mapped > 35 {
        35
    } else {
        mapped
    }
}

/// The steeper rate factor used for screen content on Windows: 30 less
/// the whole part of 2.2 times the quality, kept between 8 and 28.
pub open spec fn steep_crf_of(quality: u8) -> int {
    let mapped = 30 - (22 * clamped_quality(quality)) / 10;
    if mapped < 8 {
        8
    } else if mapped > 28 {
        28
    } else {
        mapped
    }
}

/// The constant rate factor for a quality setting.
pub fn quality_to_crf(quality: u8) -> (r: u8)
    ensures
        r == crf_of(quality),
{
    let q: u8 = if quality < 1 {
        1
    } else if quality > 10 {
        10
    } else {
        quality
    };
    let mapped: u8 = 42 - 3 * q;
    if mapped < 12 {
        12
    } else if mapped > 35 {
        35
    } else {
        mapped
    }
}

/// The steeper rate factor used for screen content on Windows.
pub fn quality_to_crf_steep(quality: u8) -> (r: u8)
    ensures
        r == steep_crf_of(quality),
{
    let q: u8 = if quality < 1 {
        1
    } else if quality > 10 {
        10
    } else {
        quality
    };
    let mapped: u8 = 30 - (22 * q) / 10;
    if mapped < 8 {
        8
    } else if mapped > 28 {
        28
    } else {
        mapped
    }
}

/// The rate factor that the linked encoder uses on a platform.
pub open spec fn platform_crf_of(platform: Platform, quality: u8) -> int {
    if platform == Platform::Windows {
        steep_crf_of(quality)
    } else {
        crf_of(quality)
    }
}

/// The rate factor that the linked encoder uses on a platform.
pub fn quality_to_crf_for(platform: Platform, quality: u8) -> (r: u8)
    ensures
        r == platform_crf_of(platform, quality),
{
    match platform {
        Platform::Windows => quality_to_crf_steep(quality),
        _ => quality_to_crf(quality),
    }
}

/// One named option handed to a backend when it is opened.
#[derive(Debug, Clone, PartialEq, Eq)]
pub struct EncoderOption {
    pub key: String,
    pub value: String,
}

/// The options of a list as pairs of key and value.
pub open spec fn option_pairs(list: Seq<EncoderOption>) -> Seq<(Seq<char>, Seq<char>)> {
    list.map_values(|o: EncoderOption| (o.key@, o.value@))
}

fn push_option(list: &mut Vec<EncoderOption>, key: &str, value: &str)
    ensures
        option_pairs(final(list)@) == option_pairs(old(list)@).push((key@, value@)),
{
    list.push(EncoderOption { key: String::from_str(key), value: String::from_str(value) });
    assert(option_pairs(list@) =~= option_pairs(old(list)@).push((key@, value@)));
}

fn push_number_option(list: &mut Vec<EncoderOption>, key: &str, value: u64)
    ensures
        option_pairs(final(list)@) == option_pairs(old(list)@).push(
            (key@, decimal(value as nat)),
        ),
{
    list.push(EncoderOption { key: String::from_str(key), value: decimal_string(value) });
    assert(option_pairs(list@) =~= option_pairs(old(list)@).push((key@, decimal(value as nat))));
}

/// The quality percentage for the Media Foundation backend: ten times the
/// quality setting, at most 100.
pub open spec fn mf_quality_of(quality: u8) -> int {
    if quality >= 10 {
        100
    } else {
        quality * 10
    }
}

/// The options with which a backend is opened, in the order in which they
/// are set.  `crf` is the rate factor for the quality setting; it goes into
/// each backend's own rate parameter.  The keyframe interval is two seconds
/// of frames, except for the Media Foundation backend, which gets one.
pub open spec fn encoder_options(name: Seq<char>, crf: int, quality: u8, fps: u32) -> Seq<
    (Seq<char>, Seq<char>),
> {
    let rate = decimal(crf as nat);
    let gop = decimal((2 * fps) as nat);
    if name == "libx264"@ {
        seq![
            ("crf"@, rate),
            ("preset"@, "slow"@),
            ("profile"@, "high"@),
            ("g"@, gop),
            ("keyint_min"@, gop),
            ("bf"@, "0"@),
            ("refs"@, "3"@),
            ("sc_threshold"@, "0"@),
            ("qmin"@, "10"@),
            ("qmax"@, "25"@),
            ("crf_max"@, "18"@),
            ("movflags"@, "+faststart"@),
        ]
    } else if name == "h264_videotoolbox"@ {
        seq![("q:v"@, rate), ("profile"@, "high"@), ("allow_sw"@, "1"@), ("g"@, gop)]
    } else if name == "h264_nvenc"@ {
        seq![
            ("cq"@, rate),
            ("preset"@, "p4"@),
            ("tune"@, "hq"@),
            ("profile"@, "high"@),
            ("g"@, gop),
            ("bf"@, "0"@),
        ]
    } else if name == "h264_qsv"@ {
        seq![("global_quality"@, rate), ("preset"@, "medium"@), ("g"@, gop)]
    } else if name == "h264_amf"@ {
        seq![
            ("qp_i"@, rate),
            ("qp_p"@, rate),
            ("quality"@, "quality"@),
            ("profile"@, "high"@),
            ("gops_per_idr"@, "1"@),
            ("keyint_min"@, gop),
        ]
    } else if name == "h264_vaapi"@ {
        seq![("qp"@, rate), ("quality"@, "1"@), ("g"@, gop)]
    } else if name == "h264_mf"@ {
        seq![
            ("rate_control"@, "quality"@),
            ("quality"@, decimal(mf_quality_of(quality) as nat)),
            ("low_latency"@, "1"@),
            ("g"@, decimal(fps as nat)),
        ]
    } else {
        seq![("crf"@, rate), ("preset"@, "medium"@)]
    }
}

/// The options with which a backend is opened on a platform.
pub fn configure_encoder_options(encoder_name: &str, quality: u8, fps: u32, platform: Platform) -> (r:
    Vec<EncoderOption>)
    ensures
        option_pairs(r@) == encoder_options(
            encoder_name@,
            platform_crf_of(platform, quality),
            quality,
            fps,
        ),
{
    let crf: u64 = quality_to_crf_for(platform, quality) as u64;
    let gop: u64 = 2 * (fps as u64);
    let mut opts: Vec<EncoderOption> = Vec::new();
    assert(option_pairs(opts@) =~= seq![]);
    if str_eq(encoder_name, "libx264") {
        push_number_option(&mut opts, "crf", crf);
        push_option(&mut opts, "preset", "slow");
        push_option(&mut opts, "profile", "high");
        push_number_option(&mut opts, "g", gop);
        push_number_option(&mut opts, "keyint_min", gop);
        push_option(&mut opts, "bf", "0");
        push_option(&mut opts, "refs", "3");
        push_option(&mut opts, "sc_threshold", "0");
        push_option(&mut opts, "qmin", "10");
        push_option(&mut opts, "qmax", "25");
        push_option(&mut opts, "crf_max", "18");
        push_option(&mut opts, "movflags", "+faststart");
    } else if str_eq(encoder_name, "h264_videotoolbox") {
        push_number_option(&mut opts, "q:v", crf);
        push_option(&mut opts, "profile", "high");
        push_option(&mut opts, "allow_sw", "1");
        push_number_option(&mut opts, "g", gop);
    } else if str_eq(encoder_name, "h264_nvenc") {
        push_number_option(&mut opts, "cq", crf);
        push_option(&mut opts, "preset", "p4");
        push_option(&mut opts, "tune", "hq");
        push_option(&mut opts, "profile", "high");
        push_number_option(&mut opts, "g", gop);
        push_option(&mut opts, "bf", "0");
    } else if str_eq(encoder_name, "h264_qsv") {
        push_number_option(&mut opts, "global_quality", crf);
        push_option(&mut opts, "preset", "medium");
        push_number_option(&mut opts, "g", gop);
    } else if str_eq(encoder_name, "h264_amf") {
        push_number_option(&mut opts, "qp_i", crf);
        push_number_option(&mut opts, "qp_p", crf);
        push_option(&mut opts, "quality", "quality");
        push_option(&mut opts, "profile", "high");
        push_option(&mut opts, "gops_per_idr", "1");
        push_number_option(&mut opts, "keyint_min", gop);
    } else if str_eq(encoder_name, "h264_vaapi") {
        push_number_option(&mut opts, "qp", crf);
        push_option(&mut opts, "quality", "1");
        push_number_option(&mut opts, "g", gop);
    } else if str_eq(encoder_name, "h264_mf") {
        let mf_quality: u64 = if quality >= 10 {
            100
        } else {
            (quality as u64) * 10
        };
        push_option(&mut opts, "rate_control", "quality");
        push_number_option(&mut opts, "quality", mf_quality);
        push_option(&mut opts, "low_latency", "1");
        push_number_option(&mut opts, "g", fps as u64);
    } else {
        push_number_option(&mut opts, "crf", crf);
        push_option(&mut opts, "preset", "medium");
    }
    assert(option_pairs(opts@) =~= encoder_options(
        encoder_name@,
        platform_crf_of(platform, quality),
        quality,
        fps,
    ));
    opts
}

/// The bitrate in whole megabits per second for a quality setting and a
/// frame size and rate: 0.08 bits per pixel at quality 1 and 0.025 more
/// for each step above it, times pixels per second, rounded down; limited
/// to the largest 32-bit number.
pub open spec fn bitrate_mbps(quality: u8, width: usize, height: usize, fps: u32) -> int {
    let millibits_per_pixel = 80 + 25 * (clamped_quality(quality) - 1);
    let exact = (width * height * fps * millibits_per_pixel) / 1_000_000_000;
    if exact > u32::MAX {
        u32::MAX as int
    } else {
        exact
    }
}

/// The bitrate for a quality setting as the tool wants it written: whole
/// megabits per second followed by `M`.
pub fn quality_to_bitrate(quality: u8, width: usize, height: usize, fps: u32) -> (r: String)
    ensures
        r@ == decimal(bitrate_mbps(quality, width, height, fps) as nat) + "M"@,
{
    let q: u128 = if quality < 1 {
        1
    } else if quality > 10 {
        10
    } else {
        quality as u128
    };
    let millibits: u128 = 80 + 25 * (q - 1);
    let ghost exact_product = width * height * fps * millibits;
    assert(width * height <= 0xffff_ffff_ffff_ffff * 0xffff_ffff_ffff_ffff) by (nonlinear_arith)
        requires
            0 <= width <= 0xffff_ffff_ffff_ffff,
            0 <= height <= 0xffff_ffff_ffff_ffff,
    ;
    let pixels: u128 = (width as u128) * (height as u128);
    assert(fps * millibits <= 0xffff_ffff * 305) by (nonlinear_arith)
        requires
            0 <= fps <= 0xffff_ffff,
            0 <= millibits <= 305,
    ;
    let rate: u128 = (fps as u128) * millibits;
    let mbps: u64 = match pixels.checked_mul(rate) {
        Some(product) => {
            assert(product == exact_product) by (nonlinear_arith)
                requires
                    product == (width * height) * (fps * millibits),
                    exact_product == width * height * fps * millibits,
            ;
            let exact = product / 1_000_000_000;
            if exact > 0xffff_ffff {
                0xffff_ffff
            } else {
                exact as u64
            }
        },
        None => {
            assert(exact_product == (width * height) * (fps * millibits)) by (nonlinear_arith)
                requires
                    exact_product == width * height * fps * millibits,
            ;
            0xffff_ffff
        },
    };
    let mut out = decimal_string(mbps);
    out.append("M");
    out
}

/// The text that reports a backend that the codec library does not know.
pub open spec fn not_found_text(encoder_name: Seq<char>) -> Seq<char> {
    "Encoder '"@ + encoder_name + "' not found"@
}

/// The error for a backend that the codec library does not know.
pub fn encoder_not_found(encoder_name: &str) -> (r: ScreenRecError)
    ensures
        r matches ScreenRecError::HardwareEncoderUnavailable(m) && m@ == not_found_text(
            encoder_name@,
        ),
{
    let mut m = String::from_str("Encoder '");
    m.append(encoder_name);
    m.append("' not found");
    ScreenRecError::HardwareEncoderUnavailable(m)
}

/// Whether the reason for a failed open says that the backend is held by
/// someone else.
pub open spec fn says_busy(reason: Seq<char>) -> bool {
    contains_seq(reason, "busy"@) || contains_seq(reason, "in use"@)
}

/// The error for a backend that could not be opened: a busy encoder where
/// the reason says so, an encoding error otherwise.
pub fn classify_open_failure(encoder_name: &str, reason: &str) -> (r: ScreenRecError)
    ensures
        says_busy(reason@) ==> (r matches ScreenRecError::EncoderBusy(m) && m@ == "Encoder '"@
            + encoder_name@ + "' is busy: "@ + reason@),
        !says_busy(reason@) ==> (r matches ScreenRecError::EncodingError(m) && m@
            == "Failed to open encoder '"@ + encoder_name@ + "': "@ + reason@),
{
    if contains(reason, "busy") || contains(reason, "in use") {
        let mut m = String::from_str("Encoder '");
        m.append(encoder_name);
        m.append("' is busy: ");
        m.append(reason);
        ScreenRecError::EncoderBusy(m)
    } else {
        let mut m = String::from_str("Failed to open encoder '");
        m.append(encoder_name);
        m.append("': ");
        m.append(reason);
        ScreenRecError::EncodingError(m)
    }
}

/// Whether an error's text says that retrying is pointless because the
/// backend does not exist.
pub open spec fn non_retryable(text: Seq<char>) -> bool {
    contains_seq(text, "not found"@) || contains_seq(text, "No such"@) || contains_seq(
        text,
        "no such"@,
    )
}

/// Whether an initialization failure is not worth a retry.
pub fn is_non_retryable(failure: &ScreenRecError) -> (r: bool)
    ensures
        r == non_retryable(failure.message_spec()),
{
    let text = failure.message();
    contains(text.as_str(), "not found") || contains(text.as_str(), "No such") || contains(
        text.as_str(),
        "no such",
    )
}

/// What the selection of a backend asks for next.
pub enum SelectionAction {
    /// Wait `delay_ms`, then try to initialize this backend.
    TryInit { encoder: EncoderInfo, delay_ms: u64 },
    /// This backend is initialized and will encode.
    Selected(EncoderInfo),
    /// No backend could be initialized.
    GiveUp(ScreenRecError),
}

/// The selection of a backend at the start of a chunk: the available
/// backends are tried in priority order, each with retries.
pub struct EncoderSelection {
    /// The available backends in priority order.
    pub candidates: Vec<EncoderInfo>,
    /// The backend that is being tried.
    pub index: usize,
    /// The retries made for it so far.
    pub attempt: u32,
    pub retry: RetryConfig,
}

/// The names of the first `count` backends of a list.
pub open spec fn first_names(list: Seq<EncoderInfo>, count: int) -> Seq<Seq<char>> {
    Seq::new(count as nat, |i: int| list[i].name@)
}

/// The text that reports that every backend failed.
pub open spec fn all_failed_text(tried: Seq<Seq<char>>) -> Seq<char> {
    "All encoders failed. Tried: "@ + debug_list(tried)
}

impl EncoderSelection {
    /// A backend is being tried.
    pub open spec fn wf(self) -> bool {
        self.index < self.candidates@.len()
    }

    /// The delay before retry number `attempt` as the policy gives it.
    pub open spec fn delay_before(retry: RetryConfig, attempt: u32) -> u64 {
        if retry.delay(attempt) <= u64::MAX {
            retry.delay(attempt) as u64
        } else {
            u64::MAX
        }
    }

    /// Begins the selection.  Without any available backend it fails at
    /// once; otherwise the first backend is tried without delay.
    pub fn start(candidates: Vec<EncoderInfo>, retry: RetryConfig) -> (r: (
        EncoderSelection,
        SelectionAction,
    ))
        ensures
            r.0.candidates@ == candidates@,
            r.0.index == 0,
            r.0.attempt == 0,
            r.0.retry == retry,
            candidates@.len() == 0 ==> (r.1 matches SelectionAction::GiveUp(
                ScreenRecError::EncodingError(m),
            ) && m@ == "No H.264 encoders available on this system"@),
            candidates@.len() > 0 ==> r.0.wf() && (r.1 matches SelectionAction::TryInit {
                encoder,
                delay_ms,
            } && encoder@ == candidates@[0]@ && delay_ms == 0),
    {
        let action = if candidates.len() == 0 {
            SelectionAction::GiveUp(
                ScreenRecError::EncodingError(
                    String::from_str("No H.264 encoders available on this system"),
                ),
            )
        } else {
            SelectionAction::TryInit { encoder: candidates[0].duplicate(), delay_ms: 0 }
        };
        (EncoderSelection { candidates, index: 0, attempt: 0, retry }, action)
    }

    /// The outcome of the attempt that was asked for last.  Success selects
    /// the backend.  After a failure the same backend is retried with the
    /// policy's delay, unless the failure says that the backend does not
    /// exist or the retries are used up; then the next backend is tried
    /// without delay, and after the last one the selection fails with the
    /// names of all that were tried.
    pub fn on_init_result(&mut self, failure: Option<&ScreenRecError>) -> (r: SelectionAction)
        requires
            old(self).wf(),
        ensures
            final(self).candidates@ == old(self).candidates@,
            final(self).retry == old(self).retry,
            failure is None ==> (r matches SelectionAction::Selected(e) && e@
                == old(self).candidates@[old(self).index as int]@) && final(self).index
                == old(self).index
                && final(self).attempt == old(self).attempt,
            failure matches Some(f) ==> ({
                let give_in = non_retryable(f.message_spec()) || old(self).attempt >= old(self).retry.max_retries;
                if !give_in {
                    &&& final(self).index == old(self).index
                    &&& final(self).attempt == old(self).attempt + 1
                    &&& final(self).wf()
                    &&& r matches SelectionAction::TryInit { encoder, delay_ms }
                    &&& encoder@ == old(self).candidates@[old(self).index as int]@
                    &&& delay_ms == Self::delay_before(
                        old(self).retry,
                        (old(self).attempt + 1) as u32,
                    )
                } else if old(self).index + 1 < old(self).candidates@.len() {
                    &&& final(self).index == old(self).index + 1
                    &&& final(self).attempt == 0
                    &&& final(self).wf()
                    &&& r matches SelectionAction::TryInit { encoder, delay_ms }
                    &&& encoder@ == old(self).candidates@[old(self).index + 1]@
                    &&& delay_ms == 0
                } else {
                    &&& final(self).index == old(self).index
                    &&& final(self).attempt == old(self).attempt
                    &&& r matches SelectionAction::GiveUp(ScreenRecError::EncodingError(m))
                    &&& m@ == all_failed_text(
                        first_names(old(self).candidates@, old(self).candidates@.len() as int),
                    )
                }
            }),
    {
        let count = self.candidates.len();
        let failure = match failure {
            None => {
                return SelectionAction::Selected(self.candidates[self.index].duplicate());
            },
            Some(f) => f,
        };
        let give_in = is_non_retryable(failure) || self.attempt >= self.retry.max_retries;
        if !give_in {
            self.attempt = self.attempt + 1;
            let delay_ms = self.retry.get_delay_ms(self.attempt);
            return SelectionAction::TryInit {
                encoder: self.candidates[self.index].duplicate(),
                delay_ms,
            };
        }
        if self.index + 1 < count {
            self.index = self.index + 1;
            self.attempt = 0;
            return SelectionAction::TryInit {
                encoder: self.candidates[self.index].duplicate(),
                delay_ms: 0,
            };
        }
        let mut tried: Vec<String> = Vec::new();
        let mut i: usize = 0;
        while i < self.candidates.len()
            invariant
                i <= self.candidates@.len(),
                texts(tried@) == first_names(self.candidates@, i as int),
            decreases self.candidates.len() - i,
        {
            let ghost before = texts(tried@);
            tried.push(self.candidates[i].name.clone());
            assert(texts(tried@) =~= before.push(self.candidates@[i as int].name@));
            assert(texts(tried@) =~= first_names(self.candidates@, i + 1));
            i += 1;
        }
        let list = debug_list_string(&tried);
        SelectionAction::GiveUp(
            ScreenRecError::EncodingError(prefixed("All encoders failed. Tried: ", list.as_str())),
        )
    }
}

/// Quality with which a fallback backend is opened in the middle of a
/// recording.
pub const RECOVERY_QUALITY: u8 = 8;

/// `i` is the first backend of the list with a priority number above
/// `current`.
pub open spec fn is_first_below(list: Seq<EncoderInfo>, current: u8, i: int) -> bool {
    &&& 0 <= i < list.len()
    &&& list[i].priority > current
    &&& forall|j: int| 0 <= j < i ==> (#[trigger] list[j]).priority <= current
}

/// The backend to fall back to when the one with priority `current` fails
/// in the middle of a recording: the first available backend that ranks
/// strictly below it.
pub fn find_fallback(available: &Vec<EncoderInfo>, current: u8) -> (r: Option<EncoderInfo>)
    ensures
        r matches Some(e) ==> exists|i: int|
            is_first_below(available@, current, i) && e@ == available@[i]@,
        r is None ==> forall|i: int|
            0 <= i < available@.len() ==> (#[trigger] available@[i]).priority <= current,
{
    let mut i: usize = 0;
    while i < available.len()
        invariant
            i <= available.len(),
            forall|j: int| 0 <= j < i ==> (#[trigger] available@[j]).priority <= current,
        decreases available.len() - i,
    {
        if available[i].priority > current {
            assert(is_first_below(available@, current, i as int));
            return Some(available[i].duplicate());
        }
        i += 1;
    }
    None
}

/// The plan for recovering from an encoder failure in the middle of a
/// recording: the backend to reinitialize once, with the recovery quality,
/// or the failure to surface where no backend ranks below the current one.
pub fn recovery_plan(available: &Vec<EncoderInfo>, current: &EncoderInfo) -> (r: Result<
    EncoderInfo,
    ScreenRecError,
>)
    ensures
        r matches Ok(e) ==> exists|i: int|
            is_first_below(available@, current.priority, i) && e@ == available@[i]@,
        r is Err ==> (forall|i: int|
            0 <= i < available@.len() ==> (#[trigger] available@[i]).priority
                <= current.priority) && (r matches Err(ScreenRecError::EncoderRuntimeFailure(m))
            && m@ == "No fallback encoder available"@),
{
    match find_fallback(available, current.priority) {
        Some(fallback) => Ok(fallback),
        None => Err(
            ScreenRecError::EncoderRuntimeFailure(
                String::from_str("No fallback encoder available"),
            ),
        ),
    }
}

/// The failure that is surfaced when the fallback backend could not be
/// initialized either.
pub fn recovery_failed(cause: &ScreenRecError) -> (r: ScreenRecError)
    ensures
        r matches ScreenRecError::EncoderRuntimeFailure(m) && m@ == "Failed to recover encoder: "@
            + cause.message_spec(),
{
    let text = cause.message();
    ScreenRecError::EncoderRuntimeFailure(prefixed("Failed to recover encoder: ", text.as_str()))
}

/// The failure for a frame that the encoder did not take; `recovered` says
/// whether the fallback backend was already swapped in.
pub fn send_failed(reason: &str, recovered: bool) -> (r: ScreenRecError)
    ensures
        r matches ScreenRecError::EncoderRuntimeFailure(m) && m@ == (if recovered {
            "Failed to send frame after recovery: "@
        } else {
            "Failed to send frame: "@
        }) + reason@,
{
    if recovered {
        ScreenRecError::EncoderRuntimeFailure(
            prefixed("Failed to send frame after recovery: ", reason),
        )
    } else {
        ScreenRecError::EncoderRuntimeFailure(prefixed("Failed to send frame: ", reason))
    }
}

} // verus!
