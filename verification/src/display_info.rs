//! Displays as rectangles in the desktop's signed coordinate plane, and the
//! display that holds a given point.

use crate::error::ScreenRecError;
use vstd::prelude::*;
use vstd::string::*;

verus! {

/// One display: its place in the enumeration, its size in pixels and the
/// position of its top-left corner.
#[derive(Debug, Clone, Copy, PartialEq, Eq, Structural)]
pub struct DisplayInfo {
    pub index: usize,
    pub width: usize,
    pub height: usize,
    pub x: i32,
    pub y: i32,
    pub is_primary: bool,
}

/// Size and origin of a display as the operating system reports them.
#[derive(Debug, Clone, Copy, PartialEq, Eq, Structural)]
pub struct DisplayBounds {
    pub width: usize,
    pub height: usize,
    pub x: i32,
    pub y: i32,
}

impl DisplayInfo {
    /// The point lies inside this display: the left and top edges belong to
    /// it, the right and bottom edges do not.
    pub open spec fn contains(self, px: int, py: int) -> bool {
        &&& self.x <= px < self.x + self.width
        &&& self.y <= py < self.y + self.height
    }

    /// Whether the point lies inside this display.
    pub fn contains_point(&self, px: i32, py: i32) -> (r: bool)
        ensures
            r == self.contains(px as int, py as int),
    {
        if px < self.x || py < self.y {
            return false;
        }
        let dx: u64 = (px as i64 - self.x as i64) as u64;
        let dy: u64 = (py as i64 - self.y as i64) as u64;
        dx < self.width as u64 && dy < self.height as u64
    }
}

/// `i` is the first display of the list that holds the point.
pub open spec fn is_first_hit(displays: Seq<DisplayInfo>, px: int, py: int, i: int) -> bool {
    &&& 0 <= i < displays.len()
    &&& displays[i].contains(px, py)
    &&& forall|j: int| 0 <= j < i ==> !(#[trigger] displays[j]).contains(px, py)
}

/// The index of the first display that holds the point; 0 where none does,
/// as when the cursor is off every screen for a moment.
pub open spec fn display_at(displays: Seq<DisplayInfo>, px: int, py: int) -> usize {
    if exists|i: int| is_first_hit(displays, px, py, i) {
        displays[choose|i: int| is_first_hit(displays, px, py, i)].index
    } else {
        0
    }
}

/// The display that holds the cursor.
pub fn get_display_at_cursor(displays: &Vec<DisplayInfo>, cursor_x: i32, cursor_y: i32) -> (r:
    usize)
    ensures
        r == display_at(displays@, cursor_x as int, cursor_y as int),
{
    let mut i: usize = 0;
    while i < displays.len()
        invariant
            i <= displays.len(),
            forall|j: int|
                0 <= j < i ==> !(#[trigger] displays@[j]).contains(
                    cursor_x as int,
                    cursor_y as int,
                ),
        decreases displays.len() - i,
    {
        if displays[i].contains_point(cursor_x, cursor_y) {
            proof {
                let px = cursor_x as int;
                let py = cursor_y as int;
                assert(is_first_hit(displays@, px, py, i as int));
                let c = choose|k: int| is_first_hit(displays@, px, py, k);
                assert(c == i) by {
                    if c < i {
                        assert(!displays@[c].contains(px, py));
                    } else if i < c {
                        assert(!displays@[i as int].contains(px, py));
                    }
                }
            }
            return displays[i].index;
        }
        i += 1;
    }
    0
}

/// The list that enumeration yields for the given bounds: each display
/// numbered by its position, the first one primary.
pub open spec fn enumerated(bounds: Seq<DisplayBounds>) -> Seq<DisplayInfo> {
    Seq::new(
        bounds.len(),
        |i: int|
            DisplayInfo {
                index: i as usize,
                width: bounds[i].width,
                height: bounds[i].height,
                x: bounds[i].x,
                y: bounds[i].y,
                is_primary: i == 0,
            },
    )
}

/// Numbers the displays that the operating system reported.  An empty
/// report is a capture error.
pub fn get_all_displays_with_bounds(bounds: &Vec<DisplayBounds>) -> (r: Result<
    Vec<DisplayInfo>,
    ScreenRecError,
>)
    ensures
        bounds@.len() == 0 ==> (r matches Err(ScreenRecError::CaptureError(m)) && m@
            == "No displays found"@),
        bounds@.len() > 0 ==> (r matches Ok(list) && list@ == enumerated(bounds@)),
{
    if bounds.len() == 0 {
        return Err(ScreenRecError::CaptureError(String::from_str("No displays found")));
    }
    let mut list: Vec<DisplayInfo> = Vec::new();
    let mut i: usize = 0;
    while i < bounds.len()
        invariant
            i <= bounds.len(),
            list@ == enumerated(bounds@).take(i as int),
        decreases bounds.len() - i,
    {
        let b = bounds[i];
        list.push(
            DisplayInfo {
                index: i,
                width: b.width,
                height: b.height,
                x: b.x,
                y: b.y,
                is_primary: i == 0,
            },
        );
        assert(list@ =~= enumerated(bounds@).take(i + 1));
        i += 1;
    }
    assert(list@ =~= enumerated(bounds@));
    Ok(list)
}

/// The largest width and the largest height among the displays, each 0 for
/// an empty list.
pub open spec fn max_dimensions(displays: Seq<DisplayInfo>) -> (usize, usize)
    decreases displays.len(),
{
    if displays.len() == 0 {
        (0, 0)
    } else {
        let rest = max_dimensions(displays.drop_last());
        let last = displays.last();
        (
            if last.width > rest.0 {
                last.width
            } else {
                rest.0
            },
            if last.height > rest.1 {
                last.height
            } else {
                rest.1
            },
        )
    }
}

/// A frame of the largest dimensions holds every display: no display is
/// wider or higher than the maxima.
pub proof fn lemma_max_dimensions_bound(displays: Seq<DisplayInfo>, i: int)
    requires
        0 <= i < displays.len(),
    ensures
        displays[i].width <= max_dimensions(displays).0,
        displays[i].height <= max_dimensions(displays).1,
    decreases displays.len(),
{
    if i < displays.len() - 1 {
        lemma_max_dimensions_bound(displays.drop_last(), i);
    }
}

/// The largest width and the largest height among the displays.
pub fn largest_dimensions(displays: &Vec<DisplayInfo>) -> (r: (usize, usize))
    ensures
        r == max_dimensions(displays@),
{
    let mut w: usize = 0;
    let mut h: usize = 0;
    let mut i: usize = 0;
    while i < displays.len()
        invariant
            i <= displays.len(),
            (w, h) == max_dimensions(displays@.take(i as int)),
        decreases displays.len() - i,
    {
        assert(displays@.take(i + 1).drop_last() =~= displays@.take(i as int));
        if displays[i].width > w {
            w = displays[i].width;
        }
        if displays[i].height > h {
            h = displays[i].height;
        }
        i += 1;
    }
    assert(displays@.take(i as int) =~= displays@);
    (w, h)
}

} // verus!
