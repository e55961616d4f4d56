//! Finding the external tool and its inspector, and checking that the
//! tool works.

use crate::concat::ToolOutput;
use crate::error::ScreenRecError;
use crate::text::{chars_of, prefixed, trim, trimmed};
use vstd::prelude::*;
use vstd::string::*;

verus! {

/// A path to the tool that the user gave.
pub struct ProvidedPath {
    /// The path as text; none where it is not valid Unicode.
    pub text: Option<String>,
    /// Something exists at the path.
    pub exists: bool,
}

/// The text that tells how to get the tool.
pub open spec fn install_text() -> Seq<char> {
    "FFmpeg not found. Please install FFmpeg or provide --ffmpeg-path argument.\n\nInstallation instructions:\n  macOS:    brew install ffmpeg\n  Ubuntu:   sudo apt-get install ffmpeg\n  Windows:  Download from https://ffmpeg.org/download.html"@
}

/// The tool to use: the one at the path that the user gave, which must
/// exist, or else the one found on the search path.
pub fn find_ffmpeg_binary(provided: Option<&ProvidedPath>, on_search_path: Option<&str>) -> (r:
    Result<String, ScreenRecError>)
    ensures
        provided matches Some(p) ==> (match p.text {
            None => r matches Err(ScreenRecError::ConfigError(m)) && m@ == "Invalid FFmpeg path"@,
            Some(t) => if p.exists {
                r matches Ok(path) && path@ == t@
            } else {
                r matches Err(ScreenRecError::ConfigError(m)) && m@
                    == "FFmpeg binary not found at provided path: "@ + t@
            },
        }),
        provided is None ==> (match on_search_path {
            Some(found) => r matches Ok(path) && path@ == found@,
            None => r matches Err(ScreenRecError::ConfigError(m)) && m@ == install_text(),
        }),
{
    if let Some(p) = provided {
        let text = match &p.text {
            Some(t) => t,
            None => {
                return Err(ScreenRecError::ConfigError(String::from_str("Invalid FFmpeg path")));
            },
        };
        if !p.exists {
            return Err(
                ScreenRecError::ConfigError(
                    prefixed("FFmpeg binary not found at provided path: ", text.as_str()),
                ),
            );
        }
        return Ok(text.clone());
    }
    match on_search_path {
        Some(found) => Ok(String::from_str(found)),
        None => Err(
            ScreenRecError::ConfigError(
                String::from_str(
                    "FFmpeg not found. Please install FFmpeg or provide --ffmpeg-path argument.\n\nInstallation instructions:\n  macOS:    brew install ffmpeg\n  Ubuntu:   sudo apt-get install ffmpeg\n  Windows:  Download from https://ffmpeg.org/download.html",
                ),
            ),
        ),
    }
}

/// The inspector to use: the one next to the tool, if there is one, else
/// the one found on the search path, else plain `ffprobe`.
pub fn find_ffprobe_binary(next_to_tool: Option<&str>, on_search_path: Option<&str>) -> (r: String)
    ensures
        r@ == match next_to_tool {
            Some(p) => p@,
            None => match on_search_path {
                Some(p) => p@,
                None => "ffprobe"@,
            },
        },
{
    match next_to_tool {
        Some(p) => String::from_str(p),
        None => match on_search_path {
            Some(p) => String::from_str(p),
            None => String::from_str("ffprobe"),
        },
    }
}

/// `i` is the position of the first line feed of `s`.
pub open spec fn is_first_line_feed(s: Seq<char>, i: int) -> bool {
    &&& 0 <= i < s.len()
    &&& s[i] == '\n'
    &&& forall|j: int| 0 <= j < i ==> s[j] != '\n'
}

/// The first line of a text: the text before its first line feed,
/// without a carriage return that ends it; the whole text where there is
/// no line feed.
pub open spec fn first_line_of(s: Seq<char>) -> Seq<char> {
    if exists|i: int| is_first_line_feed(s, i) {
        let i = choose|i: int| is_first_line_feed(s, i);
        if i > 0 && s[i - 1] == '\r' {
            s.subrange(0, i - 1)
        } else {
            s.subrange(0, i)
        }
    } else {
        s
    }
}

/// The first line of a text.
pub fn first_line(s: &str) -> (r: String)
    ensures
        r@ == first_line_of(s@),
{
    let v = chars_of(s);
    let mut i: usize = 0;
    while i < v.len() && v[i] != '\n'
        invariant
            i <= v.len(),
            forall|j: int| 0 <= j < i ==> v@[j] != '\n',
        decreases v.len() - i,
    {
        i += 1;
    }
    if i == v.len() {
        assert forall|k: int| !is_first_line_feed(s@, k) by {}
        return String::from_str(s);
    }
    proof {
        assert(is_first_line_feed(s@, i as int));
        let c = choose|k: int| is_first_line_feed(s@, k);
        if c < i {
            assert(s@[c] != '\n');
        } else if c > i {
            assert(s@[i as int] == '\n');
        }
    }
    let end: usize = if i > 0 && v[i - 1] == '\r' {
        i - 1
    } else {
        i
    };
    String::from_str(s.substring_char(0, end))
}

/// The path that a lookup on the search path found: the first line of
/// what it printed, white space around the output left aside; none where
/// the lookup failed, its output is not valid Unicode, or that line is
/// empty.
pub open spec fn found_path(success: bool, stdout: Option<Seq<char>>) -> Option<Seq<char>> {
    if success && stdout is Some && first_line_of(trimmed(stdout->0)).len() > 0 {
        Some(first_line_of(trimmed(stdout->0)))
    } else {
        None
    }
}

/// The path that a lookup on the search path found.
pub fn which_result(success: bool, stdout: Option<&str>) -> (r: Option<String>)
    ensures
        r is Some == found_path(
            success,
            match stdout {
                Some(out) => Some(out@),
                None => None,
            },
        ) is Some,
        r matches Some(path) ==> Some(path@) == found_path(
            success,
            match stdout {
                Some(out) => Some(out@),
                None => None,
            },
        ),
{
    if !success {
        return None;
    }
    let out = match stdout {
        Some(out) => out,
        None => {
            return None;
        },
    };
    let t = trim(out);
    let line = first_line(t.as_str());
    if line.as_str().unicode_len() == 0 {
        None
    } else {
        Some(line)
    }
}

/// What the tool's answer to a request for its version means: the first
/// line of the answer names the version; a tool that cannot be started or
/// ends without success is a configuration error.
pub fn validate_ffmpeg(output: &ToolOutput) -> (r: Result<String, ScreenRecError>)
    ensures
        !output.ran ==> (r matches Err(ScreenRecError::ConfigError(m)) && m@
            == "Failed to execute FFmpeg: "@ + output.stderr@),
        output.ran && !output.success ==> (r matches Err(ScreenRecError::ConfigError(m)) && m@
            == "FFmpeg validation failed: "@ + output.stderr@),
        output.ran && output.success ==> (r matches Ok(version) && version@ == if output.stdout@.len()
            == 0 {
            "Unknown version"@
        } else {
            first_line_of(output.stdout@)
        }),
{
    if !output.ran {
        return Err(
            ScreenRecError::ConfigError(
                prefixed("Failed to execute FFmpeg: ", output.stderr.as_str()),
            ),
        );
    }
    if !output.success {
        return Err(
            ScreenRecError::ConfigError(
                prefixed("FFmpeg validation failed: ", output.stderr.as_str()),
            ),
        );
    }
    if output.stdout.as_str().unicode_len() == 0 {
        return Ok(String::from_str("Unknown version"));
    }
    Ok(first_line(output.stdout.as_str()))
}

} // verus!
