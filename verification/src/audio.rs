//! The parts of audio capture that are plain computation: sample
//! conversion and the choice among input devices.

use crate::cli::AudioSource;
use crate::text::{contains, contains_seq, str_eq, texts};
use vstd::prelude::*;
use vstd::string::*;

verus! {

/// An unsigned 16-bit sample as a signed one: the same level, with the
/// middle of the unsigned range at 0.
pub open spec fn centred(sample: u16) -> int {
    sample - 32768
}

/// Converts unsigned 16-bit samples to signed ones.
pub fn unsigned_to_signed(samples: &[u16]) -> (r: Vec<i16>)
    ensures
        r@.len() == samples@.len(),
        forall|i: int| 0 <= i < samples@.len() ==> r@[i] == centred(samples@[i]),
{
    let mut out: Vec<i16> = Vec::new();
    let mut i: usize = 0;
    while i < samples.len()
        invariant
            i <= samples@.len(),
            out@.len() == i,
            forall|k: int| 0 <= k < i ==> out@[k] == centred(samples@[k]),
        decreases samples.len() - i,
    {
        let v: i32 = samples[i] as i32 - 32768;
        out.push(v as i16);
        i += 1;
    }
    out
}

/// Whether an input device of this name carries the system's audio on
/// macOS: a loopback driver does.
pub open spec fn carries_system_audio(name: Seq<char>) -> bool {
    contains_seq(name, "Soundflower"@) || contains_seq(name, "BlackHole"@) || contains_seq(
        name,
        "Loopback"@,
    )
}

/// Whether an input device of this name carries the system's audio on
/// Windows.
pub open spec fn carries_system_audio_windows(name: Seq<char>) -> bool {
    contains_seq(name, "Stereo Mix"@) || contains_seq(name, "What U Hear"@)
}

/// Whether an input device carries the system's audio.
pub fn is_system_audio_device(name: &str, windows: bool) -> (r: bool)
    ensures
        r == if windows {
            carries_system_audio_windows(name@)
        } else {
            carries_system_audio(name@)
        },
{
    if windows {
        contains(name, "Stereo Mix") || contains(name, "What U Hear")
    } else {
        contains(name, "Soundflower") || contains(name, "BlackHole") || contains(name, "Loopback")
    }
}

/// An input device to try.
#[derive(Debug, Clone, Copy, PartialEq, Eq, Structural)]
pub enum DeviceChoice {
    /// The host's default input device.
    Default,
    /// The input device at this position of the host's list.
    Input(usize),
}

/// An earlier input device has the same name as the one at position `k`.
pub open spec fn named_before(names: Seq<Seq<char>>, k: int) -> bool {
    exists|j: int| 0 <= j < k && #[trigger] names[j] == names[k]
}

/// The positions below `k` of the inputs whose name is new: neither that
/// of the default device `skip`, where there is one, nor that of an
/// earlier input.
pub open spec fn other_inputs(names: Seq<Seq<char>>, skip: Option<Seq<char>>, k: int) -> Seq<
    DeviceChoice,
>
    decreases k,
{
    if k <= 0 {
        seq![]
    } else {
        let rest = other_inputs(names, skip, k - 1);
        if skip == Some(names[k - 1]) || named_before(names, k - 1) {
            rest
        } else {
            rest.push(DeviceChoice::Input((k - 1) as usize))
        }
    }
}

/// The positions below `k` of the names that carry the system's audio, as
/// device choices.
pub open spec fn system_inputs(names: Seq<Seq<char>>, windows: bool, k: int) -> Seq<DeviceChoice>
    decreases k,
{
    if k <= 0 {
        seq![]
    } else {
        let rest = system_inputs(names, windows, k - 1);
        let carries = if windows {
            carries_system_audio_windows(names[k - 1])
        } else {
            carries_system_audio(names[k - 1])
        };
        if carries {
            rest.push(DeviceChoice::Input((k - 1) as usize))
        } else {
            rest
        }
    }
}

/// The devices to try for an audio source, in order.  For the microphone
/// the default input comes first, then every other input under a name that
/// was not listed yet.  For system audio the loopback devices are tried, and the
/// default input only where there is none.  `default_name` is the name of
/// the default input device, if the host has one.
pub open spec fn device_order(
    source: AudioSource,
    default_name: Option<Seq<char>>,
    names: Seq<Seq<char>>,
    windows: bool,
) -> Seq<DeviceChoice> {
    let default_first: Seq<DeviceChoice> = if default_name is Some {
        seq![DeviceChoice::Default]
    } else {
        seq![]
    };
    match source {
        AudioSource::Disabled => seq![],
        AudioSource::System => {
            let found = system_inputs(names, windows, names.len() as int);
            if found.len() == 0 {
                default_first
            } else {
                found
            }
        },
        _ => default_first + other_inputs(names, default_name, names.len() as int),
    }
}

/// The devices to try for an audio source, in order.
pub fn candidate_devices(
    source: AudioSource,
    default_name: Option<&str>,
    names: &Vec<String>,
    windows: bool,
) -> (r: Vec<DeviceChoice>)
    ensures
        r@ == device_order(
            source,
            match default_name {
                Some(n) => Some(n@),
                None => None,
            },
            texts(names@),
            windows,
        ),
{
    let ghost all = texts(names@);
    let ghost skip: Option<Seq<char>> = match default_name {
        Some(n) => Some(n@),
        None => None,
    };
    let mut out: Vec<DeviceChoice> = Vec::new();
    match source {
        AudioSource::Disabled => {},
        AudioSource::System => {
            let mut i: usize = 0;
            while i < names.len()
                invariant
                    i <= names@.len(),
                    all == texts(names@),
                    out@ == system_inputs(all, windows, i as int),
                decreases names.len() - i,
            {
                assert(all[i as int] == names@[i as int]@);
                if is_system_audio_device(names[i].as_str(), windows) {
                    out.push(DeviceChoice::Input(i));
                }
                i += 1;
            }
            if out.len() == 0 && default_name.is_some() {
                out.push(DeviceChoice::Default);
            }
        },
        _ => {
            if default_name.is_some() {
                out.push(DeviceChoice::Default);
            }
            let ghost first = out@;
            let mut i: usize = 0;
            while i < names.len()
                invariant
                    i <= names@.len(),
                    all == texts(names@),
                    skip == (match default_name {
                        Some(n) => Some(n@),
                        None => None,
                    }),
                    out@ == first + other_inputs(all, skip, i as int),
                decreases names.len() - i,
            {
                assert(all[i as int] == names@[i as int]@);
                let mut same = match default_name {
                    Some(n) => str_eq(names[i].as_str(), n),
                    None => false,
                };
                let mut j: usize = 0;
                while j < i && !same
                    invariant
                        j <= i,
                        i < names@.len(),
                        all == texts(names@),
                        skip == (match default_name {
                            Some(n) => Some(n@),
                            None => None,
                        }),
                        !same ==> skip != Some(all[i as int]) && forall|k: int|
                            0 <= k < j ==> #[trigger] all[k] != all[i as int],
                        same ==> skip == Some(all[i as int]) || named_before(all, i as int),
                    decreases i - j + if same {
                        0int
                    } else {
                        1int
                    },
                {
                    assert(all[j as int] == names@[j as int]@);
                    if str_eq(names[j].as_str(), names[i].as_str()) {
                        same = true;
                    } else {
                        j += 1;
                    }
                }
                if !same {
                    out.push(DeviceChoice::Input(i));
                }
                assert(out@ =~= first + other_inputs(all, skip, i + 1));
                i += 1;
            }
        },
    }
    assert(out@ =~= device_order(source, skip, all, windows));
    out
}

} // verus!
