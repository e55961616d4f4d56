//! The decisions of taking a single screenshot.

use crate::text::{decimal, push_decimal, str_eq};
use vstd::prelude::*;
use vstd::string::*;

verus! {

/// The image format of a screenshot.
#[derive(Debug, Clone, Copy, PartialEq, Eq, Structural)]
pub enum ImageFormat {
    Png,
    Jpeg,
}

/// The format for a lower-case file extension: JPEG for `jpg` and `jpeg`,
/// PNG for everything else.
pub fn format_for_extension(extension: &str) -> (r: ImageFormat)
    ensures
        r == if extension@ == "jpg"@ || extension@ == "jpeg"@ {
            ImageFormat::Jpeg
        } else {
            ImageFormat::Png
        },
{
    if str_eq(extension, "jpg") || str_eq(extension, "jpeg") {
        ImageFormat::Jpeg
    } else {
        ImageFormat::Png
    }
}

/// The text that rejects a monitor that is not there.
pub open spec fn out_of_range_text(index: usize, count: usize) -> Seq<char> {
    "Monitor index "@ + decimal(index as nat) + " is out of range. Available monitors: 0-"@
        + decimal(
        if count == 0 {
            0nat
        } else {
            (count - 1) as nat
        },
    )
}

/// Checks the monitor to capture against the monitors that are there.
pub fn check_monitor(index: usize, count: usize) -> (r: Result<(), String>)
    ensures
        count == 0 ==> (r matches Err(m) && m@
            == "No displays found. Please ensure you have at least one display connected."@),
        count > 0 && index >= count ==> (r matches Err(m) && m@ == out_of_range_text(index, count)),
        index < count ==> r is Ok,
{
    if count == 0 {
        return Err(
            String::from_str(
                "No displays found. Please ensure you have at least one display connected.",
            ),
        );
    }
    if index >= count {
        let mut m = String::from_str("Monitor index ");
        push_decimal(&mut m, index as u64);
        m.append(" is out of range. Available monitors: 0-");
        push_decimal(&mut m, (count - 1) as u64);
        return Err(m);
    }
    Ok(())
}

/// The RGB bytes of an RGBA buffer: of each whole group of four bytes the
/// first three.
pub open spec fn rgb_of_rgba(rgba: Seq<u8>) -> Seq<u8> {
    Seq::new(((rgba.len() / 4) * 3) as nat, |i: int| rgba[(i / 3) * 4 + i % 3])
}

/// Drops the alpha channel of an RGBA buffer.
pub fn rgba_to_rgb(rgba: &[u8]) -> (rgb: Vec<u8>)
    ensures
        rgb@ == rgb_of_rgba(rgba@),
{
    let pixels: usize = rgba.len() / 4;
    let mut rgb: Vec<u8> = Vec::new();
    let mut p: usize = 0;
    while p < pixels
        invariant
            p <= pixels,
            pixels == rgba@.len() / 4,
            rgba@.len() <= usize::MAX,
            rgb@.len() == p * 3,
            forall|i: int| 0 <= i < p * 3 ==> rgb@[i] == rgba@[(i / 3) * 4 + i % 3],
        decreases pixels - p,
    {
        rgb.push(rgba[p * 4]);
        rgb.push(rgba[p * 4 + 1]);
        rgb.push(rgba[p * 4 + 2]);
        p += 1;
    }
    assert(rgb@ =~= rgb_of_rgba(rgba@));
    rgb
}

} // verus!
