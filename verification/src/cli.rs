//! The command line's enumerated options and how they are written.

use crate::text::{lowercase, prefixed, str_eq, to_lowercase};
use vstd::prelude::*;
use vstd::string::*;

verus! {

/// Where recorded audio comes from.
#[derive(Debug, Clone, Copy, PartialEq, Eq, Structural)]
pub enum AudioSource {
    Disabled,
    System,
    Mic,
    Both,
}

/// Whether a recording runs in the background or belongs to a task.
#[derive(Debug, Clone, Copy, PartialEq, Eq, Structural)]
pub enum RecordingType {
    Task,
    AlwaysOn,
}

impl AudioSource {
    /// The source that a lower-case name stands for.
    pub open spec fn of_name(name: Seq<char>) -> Option<AudioSource> {
        if name == "none"@ {
            Some(AudioSource::Disabled)
        } else if name == "system"@ {
            Some(AudioSource::System)
        } else if name == "mic"@ {
            Some(AudioSource::Mic)
        } else if name == "both"@ {
            Some(AudioSource::Both)
        } else {
            None
        }
    }

    /// The name under which this source is written.
    pub open spec fn name(self) -> Seq<char> {
        match self {
            AudioSource::Disabled => "none"@,
            AudioSource::System => "system"@,
            AudioSource::Mic => "mic"@,
            AudioSource::Both => "both"@,
        }
    }

    /// Reads a name that is already in lower case.
    pub fn from_lowercase(name: &str) -> (r: Option<AudioSource>)
        ensures
            r == Self::of_name(name@),
    {
        if str_eq(name, "none") {
            Some(AudioSource::Disabled)
        } else if str_eq(name, "system") {
            Some(AudioSource::System)
        } else if str_eq(name, "mic") {
            Some(AudioSource::Mic)
        } else if str_eq(name, "both") {
            Some(AudioSource::Both)
        } else {
            None
        }
    }

    /// Reads a name without regard to case.  An unknown name is rejected
    /// with a message that repeats it as given.
    pub fn from_str(s: &str) -> (r: Result<AudioSource, String>)
        ensures
            match Self::of_name(lowercase(s@)) {
                Some(source) => r == Ok::<AudioSource, String>(source),
                None => r matches Err(m) && m@ == "Invalid audio source: "@ + s@
                    + ". Use: none, system, mic, or both"@,
            },
    {
        let lower = to_lowercase(s);
        match Self::from_lowercase(lower.as_str()) {
            Some(source) => Ok(source),
            None => {
                let mut m = prefixed("Invalid audio source: ", s);
                m.append(". Use: none, system, mic, or both");
                Err(m)
            },
        }
    }

    /// The name under which this source is written.
    pub fn as_str(&self) -> (r: &'static str)
        ensures
            r@ == self.name(),
    {
        match self {
            AudioSource::Disabled => "none",
            AudioSource::System => "system",
            AudioSource::Mic => "mic",
            AudioSource::Both => "both",
        }
    }
}

impl RecordingType {
    /// The type that a lower-case name stands for.
    pub open spec fn of_name(name: Seq<char>) -> Option<RecordingType> {
        if name == "task"@ {
            Some(RecordingType::Task)
        } else if name == "always_on"@ || name == "always-on"@ || name == "alwayson"@ {
            Some(RecordingType::AlwaysOn)
        } else {
            None
        }
    }

    /// The name under which this type is written.
    pub open spec fn name(self) -> Seq<char> {
        match self {
            RecordingType::Task => "task"@,
            RecordingType::AlwaysOn => "always_on"@,
        }
    }

    /// Reads a name that is already in lower case.
    pub fn from_lowercase(name: &str) -> (r: Option<RecordingType>)
        ensures
            r == Self::of_name(name@),
    {
        if str_eq(name, "task") {
            Some(RecordingType::Task)
        } else if str_eq(name, "always_on") || str_eq(name, "always-on") || str_eq(
            name,
            "alwayson",
        ) {
            Some(RecordingType::AlwaysOn)
        } else {
            None
        }
    }

    /// Reads a name without regard to case.  An unknown name is rejected
    /// with a message that repeats it as given.
    pub fn from_str(s: &str) -> (r: Result<RecordingType, String>)
        ensures
            match Self::of_name(lowercase(s@)) {
                Some(kind) => r == Ok::<RecordingType, String>(kind),
                None => r matches Err(m) && m@ == "Invalid recording type: "@ + s@
                    + ". Use: task or always_on"@,
            },
    {
        let lower = to_lowercase(s);
        match Self::from_lowercase(lower.as_str()) {
            Some(kind) => Ok(kind),
            None => {
                let mut m = prefixed("Invalid recording type: ", s);
                m.append(". Use: task or always_on");
                Err(m)
            },
        }
    }

    /// The name under which this type is written.
    pub fn as_str(&self) -> (r: &'static str)
        ensures
            r@ == self.name(),
    {
        match self {
            RecordingType::Task => "task",
            RecordingType::AlwaysOn => "always_on",
        }
    }
}

impl std::str::FromStr for AudioSource {
    type Err = String;

    /// Reads a name without regard to case.  An unknown name is rejected
    /// with a message that repeats it as given.
    fn from_str(s: &str) -> (r: Result<AudioSource, String>)
        ensures
            match AudioSource::of_name(lowercase(s@)) {
                Some(source) => r == Ok::<AudioSource, String>(source),
                None => r matches Err(m) && m@ == "Invalid audio source: "@ + s@
                    + ". Use: none, system, mic, or both"@,
            },
    {
        AudioSource::from_str(s)
    }
}

impl std::str::FromStr for RecordingType {
    type Err = String;

    /// Reads a name without regard to case.  An unknown name is rejected
    /// with a message that repeats it as given.
    fn from_str(s: &str) -> (r: Result<RecordingType, String>)
        ensures
            match RecordingType::of_name(lowercase(s@)) {
                Some(kind) => r == Ok::<RecordingType, String>(kind),
                None => r matches Err(m) && m@ == "Invalid recording type: "@ + s@
                    + ". Use: task or always_on"@,
            },
    {
        RecordingType::from_str(s)
    }
}

} // verus!
