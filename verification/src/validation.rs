//! Checks on user-supplied recording parameters.

use crate::error::AppError;
use crate::text::{
    after_plus, all_digits, chars_of, is_digit, parse_u32, parse_u32_spec, prefixed,
};
use vstd::prelude::*;
use vstd::string::*;

verus! {

/// Largest frame rate that `validate_fps` accepts.
pub const MAX_FPS: u32 = 120;

/// Largest accepted frame width, in pixels.
pub const MAX_WIDTH: u32 = 7680;

/// Largest accepted frame height, in pixels.
pub const MAX_HEIGHT: u32 = 4320;

/// Whether a frame rate lies in the accepted range `1..=120`.
pub open spec fn fps_in_range(fps: u32) -> bool {
    1 <= fps <= MAX_FPS
}

/// Whether frame dimensions lie between 1x1 and 7680x4320.
pub open spec fn dims_in_range(width: u32, height: u32) -> bool {
    1 <= width <= MAX_WIDTH && 1 <= height <= MAX_HEIGHT
}

/// `s` reads as a width, an `x` at position `i`, and a height.
pub open spec fn splits_at(s: Seq<char>, i: int) -> bool {
    &&& 0 <= i < s.len()
    &&& s[i] == 'x'
    &&& parse_u32_spec(s.subrange(0, i)) is Some
    &&& parse_u32_spec(s.subrange(i + 1, s.len() as int)) is Some
}

/// The width and height that a text of the form `WIDTHxHEIGHT` names, if
/// it has that form: two unsigned decimal numbers around a single lower
/// case `x`.
pub open spec fn resolution_dims(s: Seq<char>) -> Option<(u32, u32)> {
    if exists|i: int| splits_at(s, i) {
        let i = choose|i: int| splits_at(s, i);
        Some(
            (
                parse_u32_spec(s.subrange(0, i))->0,
                parse_u32_spec(s.subrange(i + 1, s.len() as int))->0,
            ),
        )
    } else {
        None
    }
}

/// A number holds no `x`.
proof fn lemma_number_has_no_x(s: Seq<char>, k: int)
    requires
        parse_u32_spec(s) is Some,
        0 <= k < s.len(),
    ensures
        s[k] != 'x',
{
    let d = after_plus(s);
    assert(all_digits(d));
    if s[0] == '+' {
        if k > 0 {
            assert(d[k - 1] == s[k]);
            assert(is_digit(d[k - 1]));
        }
    } else {
        assert(is_digit(d[k]));
    }
}

/// A text splits into width and height in at most one place.
pub proof fn lemma_split_unique(s: Seq<char>, i: int, j: int)
    requires
        splits_at(s, i),
        splits_at(s, j),
    ensures
        i == j,
{
    if i < j {
        let left = s.subrange(0, j);
        assert(left[i] == s[i]);
        lemma_number_has_no_x(left, i);
    } else if j < i {
        let left = s.subrange(0, i);
        assert(left[j] == s[j]);
        lemma_number_has_no_x(left, j);
    }
}

/// Reads a text of the form `WIDTHxHEIGHT`.
pub fn parse_resolution(res: &str) -> (r: Option<(u32, u32)>)
    ensures
        r == resolution_dims(res@),
{
    let v = chars_of(res);
    let mut i: usize = 0;
    while i < v.len() && v[i] != 'x'
        invariant
            i <= v.len(),
            v@ == res@,
            forall|k: int| 0 <= k < i ==> v@[k] != 'x',
        decreases v.len() - i,
    {
        i += 1;
    }
    if i == v.len() {
        assert(!exists|j: int| splits_at(res@, j));
        return None;
    }
    let left = res.substring_char(0, i);
    let right = res.substring_char(i + 1, v.len());
    let width = parse_u32(left);
    let height = parse_u32(right);
    match (width, height) {
        (Some(w), Some(h)) => {
            proof {
                assert(splits_at(res@, i as int));
                let c = choose|j: int| splits_at(res@, j);
                lemma_split_unique(res@, i as int, c);
            }
            Some((w, h))
        },
        _ => {
            proof {
                assert forall|j: int| !splits_at(res@, j) by {
                    if splits_at(res@, j) {
                        if j < i {
                            assert(res@[j] != 'x');
                        } else if j > i {
                            let l = res@.subrange(0, j);
                            assert(l[i as int] == res@[i as int]);
                            lemma_number_has_no_x(l, i as int);
                        }
                    }
                }
            }
            None
        },
    }
}

/// Accepts a resolution written as `WIDTHxHEIGHT` with both numbers in
/// range.  A text of another form is rejected under its own name; one out
/// of range is rejected with the allowed range added to it.
pub fn validate_resolution(res: &str) -> (r: Result<(), AppError>)
    ensures
        match resolution_dims(res@) {
            None => r matches Err(AppError::InvalidResolutionFormat(m)) && m@ == res@,
            Some((w, h)) => if dims_in_range(w, h) {
                r is Ok
            } else {
                r matches Err(AppError::InvalidResolutionFormat(m)) && m@ == res@
                    + " (dimensions must be between 1x1 and 7680x4320)"@
            },
        },
{
    match parse_resolution(res) {
        None => Err(AppError::InvalidResolutionFormat(String::from_str(res))),
        Some((width, height)) => {
            if width == 0 || height == 0 || width > MAX_WIDTH || height > MAX_HEIGHT {
                let mut m = String::from_str(res);
                m.append(" (dimensions must be between 1x1 and 7680x4320)");
                return Err(AppError::InvalidResolutionFormat(m));
            }
            Ok(())
        },
    }
}

/// Accepts a frame rate between 1 and 120 inclusive; any other is
/// rejected under its value.
pub fn validate_fps(fps: u32) -> (r: Result<(), AppError>)
    ensures
        fps_in_range(fps) ==> r is Ok,
        !fps_in_range(fps) ==> r == Err::<(), AppError>(AppError::InvalidFps(fps)),
{
    if fps == 0 || fps > MAX_FPS {
        return Err(AppError::InvalidFps(fps));
    }
    Ok(())
}

/// What the file system says of an output path and of its parent
/// directory.
pub struct OutputPathFacts {
    /// The parent directory as it is shown to the user; `None` where the
    /// path has no parent.
    pub parent: Option<String>,
    /// The parent exists.
    pub parent_exists: bool,
    /// The parent is a directory.
    pub parent_is_dir: bool,
    /// The path itself names an existing regular file.
    pub is_existing_file: bool,
    /// Opening that file for writing succeeded.
    pub opens_for_writing: bool,
}

/// The complaint about an output path, if there is one: a missing parent
/// first, then a parent that is no directory, then an existing file that
/// cannot be written.
pub open spec fn output_path_complaint(path: Seq<char>, facts: OutputPathFacts) -> Option<
    Seq<char>,
> {
    if facts.parent is Some && !facts.parent_exists {
        Some("Output directory does not exist: "@ + facts.parent->0@)
    } else if facts.parent is Some && !facts.parent_is_dir {
        Some("Output path parent is not a directory: "@ + facts.parent->0@)
    } else if facts.is_existing_file && !facts.opens_for_writing {
        Some("Output file exists but is not writable: "@ + path)
    } else {
        None
    }
}

/// Accepts an output path whose parent, if it has one, is an existing
/// directory, and which is not an existing file that cannot be written.
pub fn validate_output_path(path: &str, facts: &OutputPathFacts) -> (r: Result<(), String>)
    ensures
        match output_path_complaint(path@, *facts) {
            None => r is Ok,
            Some(text) => r matches Err(m) && m@ == text,
        },
{
    if let Some(parent) = &facts.parent {
        if !facts.parent_exists {
            return Err(prefixed("Output directory does not exist: ", parent.as_str()));
        }
        if !facts.parent_is_dir {
            return Err(
                prefixed("Output path parent is not a directory: ", parent.as_str()),
            );
        }
    }
    if facts.is_existing_file && !facts.opens_for_writing {
        return Err(prefixed("Output file exists but is not writable: ", path));
    }
    Ok(())
}

} // verus!
