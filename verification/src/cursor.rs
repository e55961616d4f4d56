//! The latest cursor position and the pointer glyph that is painted over
//! captured frames.

use vstd::prelude::*;

verus! {

/// Width of the pointer glyph in pixels.
pub const CURSOR_WIDTH: usize = 19;

/// Height of the pointer glyph in pixels.
pub const CURSOR_HEIGHT: usize = 25;

/// The last cursor position that was reported.  One writer updates it,
/// many readers copy it out; the last write wins.
#[derive(Debug, Clone, Copy, PartialEq, Eq, Structural)]
pub struct CursorCell {
    pub x: i32,
    pub y: i32,
}

impl CursorCell {
    /// A cell that holds the origin until the first report comes in.
    pub fn new() -> (r: CursorCell)
        ensures
            r.x == 0,
            r.y == 0,
    {
        CursorCell { x: 0, y: 0 }
    }
}

/// Records a new cursor position.
pub fn update_cursor_position(cell: &mut CursorCell, x: i32, y: i32)
    ensures
        final(cell).x == x,
        final(cell).y == y,
{
    cell.x = x;
    cell.y = y;
}

/// The cursor position that was recorded last.
pub fn get_cursor_position(cell: &CursorCell) -> (r: Option<(i32, i32)>)
    ensures
        r == Some((cell.x, cell.y)),
{
    Some((cell.x, cell.y))
}

/// Row `dy` of the pointer glyph, left to right: 0 is transparent, 1 the
/// black border, 2 the white fill.
pub open spec fn glyph_row(dy: int) -> Seq<u8> {
    if dy == 0 {
        seq![1u8, 0, 0, 0, 0, 0, 0, 0, 0, 0, 0, 0, 0, 0, 0, 0, 0, 0, 0]
    } else if dy == 1 {
        seq![1u8, 1, 0, 0, 0, 0, 0, 0, 0, 0, 0, 0, 0, 0, 0, 0, 0, 0, 0]
    } else if dy == 2 {
        seq![1u8, 2, 1, 0, 0, 0, 0, 0, 0, 0, 0, 0, 0, 0, 0, 0, 0, 0, 0]
    } else if dy == 3 {
        seq![1u8, 2, 2, 1, 0, 0, 0, 0, 0, 0, 0, 0, 0, 0, 0, 0, 0, 0, 0]
    } else if dy == 4 {
        seq![1u8, 2, 2, 2, 1, 0, 0, 0, 0, 0, 0, 0, 0, 0, 0, 0, 0, 0, 0]
    } else if dy == 5 {
        seq![1u8, 2, 2, 2, 2, 1, 0, 0, 0, 0, 0, 0, 0, 0, 0, 0, 0, 0, 0]
    } else if dy == 6 {
        seq![1u8, 2, 2, 2, 2, 2, 1, 0, 0, 0, 0, 0, 0, 0, 0, 0, 0, 0, 0]
    } else if dy == 7 {
        seq![1u8, 2, 2, 2, 2, 2, 2, 1, 0, 0, 0, 0, 0, 0, 0, 0, 0, 0, 0]
    } else if dy == 8 {
        seq![1u8, 2, 2, 2, 2, 2, 2, 2, 1, 0, 0, 0, 0, 0, 0, 0, 0, 0, 0]
    } else if dy == 9 {
        seq![1u8, 2, 2, 2, 2, 2, 2, 2, 2, 1, 0, 0, 0, 0, 0, 0, 0, 0, 0]
    } else if dy == 10 {
        seq![1u8, 2, 2, 2, 2, 2, 2, 2, 2, 2, 1, 0, 0, 0, 0, 0, 0, 0, 0]
    } else if dy == 11 {
        seq![1u8, 2, 2, 2, 2, 2, 2, 2, 2, 2, 2, 1, 0, 0, 0, 0, 0, 0, 0]
    } else if dy == 12 {
        seq![1u8, 2, 2, 2, 2, 2, 2, 2, 2, 2, 2, 2, 1, 0, 0, 0, 0, 0, 0]
    } else if dy == 13 {
        seq![1u8, 2, 2, 2, 2, 2, 2, 1, 1, 1, 1, 1, 1, 1, 0, 0, 0, 0, 0]
    } else if dy == 14 {
        seq![1u8, 2, 2, 2, 1, 2, 2, 1, 0, 0, 0, 0, 0, 0, 0, 0, 0, 0, 0]
    } else if dy == 15 {
        seq![1u8, 2, 2, 1, 0, 1, 2, 2, 1, 0, 0, 0, 0, 0, 0, 0, 0, 0, 0]
    } else if dy == 16 {
        seq![1u8, 2, 1, 0, 0, 1, 2, 2, 1, 0, 0, 0, 0, 0, 0, 0, 0, 0, 0]
    } else if dy == 17 {
        seq![1u8, 1, 0, 0, 0, 0, 1, 2, 2, 1, 0, 0, 0, 0, 0, 0, 0, 0, 0]
    } else if dy == 18 {
        seq![1u8, 0, 0, 0, 0, 0, 1, 2, 2, 1, 0, 0, 0, 0, 0, 0, 0, 0, 0]
    } else if dy == 19 {
        seq![0u8, 0, 0, 0, 0, 0, 0, 1, 2, 2, 1, 0, 0, 0, 0, 0, 0, 0, 0]
    } else if dy == 20 {
        seq![0u8, 0, 0, 0, 0, 0, 0, 1, 2, 2, 1, 0, 0, 0, 0, 0, 0, 0, 0]
    } else if dy == 21 {
        seq![0u8, 0, 0, 0, 0, 0, 0, 0, 1, 2, 2, 1, 0, 0, 0, 0, 0, 0, 0]
    } else if dy == 22 {
        seq![0u8, 0, 0, 0, 0, 0, 0, 0, 1, 2, 2, 1, 0, 0, 0, 0, 0, 0, 0]
    } else if dy == 23 {
        seq![0u8, 0, 0, 0, 0, 0, 0, 0, 0, 1, 2, 1, 0, 0, 0, 0, 0, 0, 0]
    } else {
        seq![0u8, 0, 0, 0, 0, 0, 0, 0, 0, 1, 1, 0, 0, 0, 0, 0, 0, 0, 0]
    }
}

/// The value of glyph cell (`dy`, `dx`).
pub open spec fn glyph(dy: int, dx: int) -> u8 {
    glyph_row(dy)[dx]
}

/// The byte value that a glyph cell paints into each colour channel:
/// black for the border, white for the fill, nothing where the glyph is
/// transparent.
pub open spec fn cell_colour(dy: int, dx: int) -> Option<u8> {
    if glyph(dy, dx) == 1 {
        Some(0u8)
    } else if glyph(dy, dx) == 2 {
        Some(255u8)
    } else {
        None
    }
}

/// Offset in a packed RGB buffer of the pixel under glyph cell
/// (`dy`, `dx`) when the glyph's corner is at (`cx`, `cy`).
pub open spec fn cell_offset(width: int, cx: int, cy: int, dy: int, dx: int) -> int {
    ((cy + dy) * width + (cx + dx)) * 3
}

/// Glyph cell (`dy`, `dx`) is opaque and falls on a pixel that lies inside
/// the frame and inside the buffer.
pub open spec fn cell_lands(
    len: int,
    width: int,
    height: int,
    cx: int,
    cy: int,
    dy: int,
    dx: int,
) -> bool {
    &&& 0 <= dy < CURSOR_HEIGHT
    &&& 0 <= dx < CURSOR_WIDTH
    &&& 0 <= cx + dx < width
    &&& 0 <= cy + dy < height
    &&& cell_colour(dy, dx) is Some
    &&& cell_offset(width, cx, cy, dy, dx) + 2 < len
}

/// Byte `i` is one of the three bytes of the pixel under a landing glyph
/// cell that comes before cell (`end_dy`, `end_dx`) in row-major order.
pub open spec fn covered_before(
    i: int,
    len: int,
    width: int,
    height: int,
    cx: int,
    cy: int,
    end_dy: int,
    end_dx: int,
) -> bool {
    exists|dy: int, dx: int|
        #![trigger cell_lands(len, width, height, cx, cy, dy, dx)]
        cell_lands(len, width, height, cx, cy, dy, dx) && (dy < end_dy || (dy == end_dy && dx
            < end_dx)) && cell_offset(width, cx, cy, dy, dx) <= i < cell_offset(
            width,
            cx,
            cy,
            dy,
            dx,
        ) + 3
}

/// Byte `i` belongs to a pixel that the glyph paints.
pub open spec fn covered(i: int, len: int, width: int, height: int, cx: int, cy: int) -> bool {
    covered_before(i, len, width, height, cx, cy, CURSOR_HEIGHT as int, 0)
}

/// `after` is `before` with the pointer glyph painted at (`cx`, `cy`):
/// the buffers are equally long, every landing glyph cell has given its
/// colour to the three bytes of its pixel, and every byte outside those
/// pixels is as it was.
pub open spec fn cursor_drawn(
    before: Seq<u8>,
    after: Seq<u8>,
    width: int,
    height: int,
    cx: int,
    cy: int,
) -> bool {
    &&& after.len() == before.len()
    &&& forall|dy: int, dx: int|
        #![trigger cell_lands(before.len() as int, width, height, cx, cy, dy, dx)]
        cell_lands(before.len() as int, width, height, cx, cy, dy, dx) ==> {
            let o = cell_offset(width, cx, cy, dy, dx);
            let c = cell_colour(dy, dx)->0;
            after[o] == c && after[o + 1] == c && after[o + 2] == c
        }
    &&& forall|i: int|
        0 <= i < before.len() && !covered(i, before.len() as int, width, height, cx, cy)
            ==> #[trigger] after[i] == before[i]
}

/// The pixels under two different glyph cells are at least three bytes
/// apart.
pub proof fn lemma_cells_apart(
    width: int,
    cx: int,
    cy: int,
    dy1: int,
    dx1: int,
    dy2: int,
    dx2: int,
)
    requires
        0 <= cx + dx1 < width,
        0 <= cx + dx2 < width,
        dy1 != dy2 || dx1 != dx2,
    ensures
        cell_offset(width, cx, cy, dy1, dx1) + 3 <= cell_offset(width, cx, cy, dy2, dx2)
            || cell_offset(width, cx, cy, dy2, dx2) + 3 <= cell_offset(width, cx, cy, dy1, dx1),
{
    let a = cy + dy1;
    let b = cy + dy2;
    if a < b {
        assert(b * width >= a * width + width) by (nonlinear_arith)
            requires
                a < b,
                width > 0,
        ;
    } else if b < a {
        assert(a * width >= b * width + width) by (nonlinear_arith)
            requires
                b < a,
                width > 0,
        ;
    }
}

fn cursor_row(dy: usize) -> (r: [u8; 19])
    requires
        dy < CURSOR_HEIGHT,
    ensures
        r@ == glyph_row(dy as int),
{
    let r = if dy == 0 {
        [1u8, 0, 0, 0, 0, 0, 0, 0, 0, 0, 0, 0, 0, 0, 0, 0, 0, 0, 0]
    } else if dy == 1 {
        [1u8, 1, 0, 0, 0, 0, 0, 0, 0, 0, 0, 0, 0, 0, 0, 0, 0, 0, 0]
    } else if dy == 2 {
        [1u8, 2, 1, 0, 0, 0, 0, 0, 0, 0, 0, 0, 0, 0, 0, 0, 0, 0, 0]
    } else if dy == 3 {
        [1u8, 2, 2, 1, 0, 0, 0, 0, 0, 0, 0, 0, 0, 0, 0, 0, 0, 0, 0]
    } else if dy == 4 {
        [1u8, 2, 2, 2, 1, 0, 0, 0, 0, 0, 0, 0, 0, 0, 0, 0, 0, 0, 0]
    } else if dy == 5 {
        [1u8, 2, 2, 2, 2, 1, 0, 0, 0, 0, 0, 0, 0, 0, 0, 0, 0, 0, 0]
    } else if dy == 6 {
        [1u8, 2, 2, 2, 2, 2, 1, 0, 0, 0, 0, 0, 0, 0, 0, 0, 0, 0, 0]
    } else if dy == 7 {
        [1u8, 2, 2, 2, 2, 2, 2, 1, 0, 0, 0, 0, 0, 0, 0, 0, 0, 0, 0]
    } else if dy == 8 {
        [1u8, 2, 2, 2, 2, 2, 2, 2, 1, 0, 0, 0, 0, 0, 0, 0, 0, 0, 0]
    } else if dy == 9 {
        [1u8, 2, 2, 2, 2, 2, 2, 2, 2, 1, 0, 0, 0, 0, 0, 0, 0, 0, 0]
    } else if dy == 10 {
        [1u8, 2, 2, 2, 2, 2, 2, 2, 2, 2, 1, 0, 0, 0, 0, 0, 0, 0, 0]
    } else if dy == 11 {
        [1u8, 2, 2, 2, 2, 2, 2, 2, 2, 2, 2, 1, 0, 0, 0, 0, 0, 0, 0]
    } else if dy == 12 {
        [1u8, 2, 2, 2, 2, 2, 2, 2, 2, 2, 2, 2, 1, 0, 0, 0, 0, 0, 0]
    } else if dy == 13 {
        [1u8, 2, 2, 2, 2, 2, 2, 1, 1, 1, 1, 1, 1, 1, 0, 0, 0, 0, 0]
    } else if dy == 14 {
        [1u8, 2, 2, 2, 1, 2, 2, 1, 0, 0, 0, 0, 0, 0, 0, 0, 0, 0, 0]
    } else if dy == 15 {
        [1u8, 2, 2, 1, 0, 1, 2, 2, 1, 0, 0, 0, 0, 0, 0, 0, 0, 0, 0]
    } else if dy == 16 {
        [1u8, 2, 1, 0, 0, 1, 2, 2, 1, 0, 0, 0, 0, 0, 0, 0, 0, 0, 0]
    } else if dy == 17 {
        [1u8, 1, 0, 0, 0, 0, 1, 2, 2, 1, 0, 0, 0, 0, 0, 0, 0, 0, 0]
    } else if dy == 18 {
        [1u8, 0, 0, 0, 0, 0, 1, 2, 2, 1, 0, 0, 0, 0, 0, 0, 0, 0, 0]
    } else if dy == 19 {
        [0u8, 0, 0, 0, 0, 0, 0, 1, 2, 2, 1, 0, 0, 0, 0, 0, 0, 0, 0]
    } else if dy == 20 {
        [0u8, 0, 0, 0, 0, 0, 0, 1, 2, 2, 1, 0, 0, 0, 0, 0, 0, 0, 0]
    } else if dy == 21 {
        [0u8, 0, 0, 0, 0, 0, 0, 0, 1, 2, 2, 1, 0, 0, 0, 0, 0, 0, 0]
    } else if dy == 22 {
        [0u8, 0, 0, 0, 0, 0, 0, 0, 1, 2, 2, 1, 0, 0, 0, 0, 0, 0, 0]
    } else if dy == 23 {
        [0u8, 0, 0, 0, 0, 0, 0, 0, 0, 1, 2, 1, 0, 0, 0, 0, 0, 0, 0]
    } else {
        [0u8, 0, 0, 0, 0, 0, 0, 0, 0, 1, 1, 0, 0, 0, 0, 0, 0, 0, 0]
    };
    assert(r@ =~= glyph_row(dy as int));
    r
}

/// Paints the pointer glyph into a packed RGB frame with its top-left
/// corner at the cursor position, clipped at the frame's edges and at the
/// end of the buffer.  Every opaque glyph cell that lands in the frame sets
/// the three bytes of its pixel; every other byte keeps its value.
pub fn draw_cursor(rgb_data: &mut [u8], width: usize, height: usize, cursor_x: i32, cursor_y: i32)
    ensures
        cursor_drawn(
            old(rgb_data)@,
            final(rgb_data)@,
            width as int,
            height as int,
            cursor_x as int,
            cursor_y as int,
        ),
{
    let ghost len = rgb_data@.len() as int;
    let ghost w = width as int;
    let ghost h = height as int;
    let ghost cx = cursor_x as int;
    let ghost cy = cursor_y as int;
    let ghost before = rgb_data@;
    let limit: usize = rgb_data.len() / 3;
    let mut dy: usize = 0;
    while dy < CURSOR_HEIGHT
        invariant
            dy <= CURSOR_HEIGHT,
            rgb_data@.len() == len,
            before.len() == len,
            limit == len / 3,
            len <= usize::MAX,
            w == width,
            h == height,
            cx == cursor_x,
            cy == cursor_y,
            forall|ey: int, ex: int|
                #![trigger cell_lands(len, w, h, cx, cy, ey, ex)]
                cell_lands(len, w, h, cx, cy, ey, ex) && ey < dy ==> {
                    let o = cell_offset(w, cx, cy, ey, ex);
                    let c = cell_colour(ey, ex)->0;
                    rgb_data@[o] == c && rgb_data@[o + 1] == c && rgb_data@[o + 2] == c
                },
            forall|i: int|
                0 <= i < len && !covered_before(i, len, w, h, cx, cy, dy as int, 0)
                    ==> #[trigger] rgb_data@[i] == before[i],
        decreases CURSOR_HEIGHT - dy,
    {
        let row = cursor_row(dy);
        let mut dx: usize = 0;
        while dx < CURSOR_WIDTH
            invariant
                dy < CURSOR_HEIGHT,
                dx <= CURSOR_WIDTH,
                row@ == glyph_row(dy as int),
                rgb_data@.len() == len,
                before.len() == len,
                limit == len / 3,
                len <= usize::MAX,
            len <= usize::MAX,
                w == width,
                h == height,
                cx == cursor_x,
                cy == cursor_y,
                forall|ey: int, ex: int|
                    #![trigger cell_lands(len, w, h, cx, cy, ey, ex)]
                    cell_lands(len, w, h, cx, cy, ey, ex) && (ey < dy || (ey == dy && ex < dx))
                        ==> {
                        let o = cell_offset(w, cx, cy, ey, ex);
                        let c = cell_colour(ey, ex)->0;
                        rgb_data@[o] == c && rgb_data@[o + 1] == c && rgb_data@[o + 2] == c
                    },
                forall|i: int|
                    0 <= i < len && !covered_before(i, len, w, h, cx, cy, dy as int, dx as int)
                        ==> #[trigger] rgb_data@[i] == before[i],
            decreases CURSOR_WIDTH - dx,
        {
            let x: i64 = cursor_x as i64 + dx as i64;
            let y: i64 = cursor_y as i64 + dy as i64;
            let pixel = row[dx];
            let ghost prev = rgb_data@;
            let mut painted = false;
            if x >= 0 && y >= 0 && (x as u64) < width as u64 && (y as u64) < height as u64 && (pixel
                == 1 || pixel == 2) {
                assert((y as int) * (width as int) <= 0x1_0000_0000 * 0x1_0000_0000_0000_0000)
                    by (nonlinear_arith)
                    requires
                        0 <= y < 0x1_0000_0000,
                        0 <= width < 0x1_0000_0000_0000_0000,
                ;
                let p: u128 = (y as u128) * (width as u128) + (x as u128);
                if p < limit as u128 {
                    let idx: usize = (p as usize) * 3;
                    let colour: u8 = if pixel == 1 {
                        0
                    } else {
                        255
                    };
                    assert(idx == cell_offset(w, cx, cy, dy as int, dx as int));
                    assert(cell_lands(len, w, h, cx, cy, dy as int, dx as int));
                    rgb_data[idx] = colour;
                    rgb_data[idx + 1] = colour;
                    rgb_data[idx + 2] = colour;
                    painted = true;
                    proof {
                        assert forall|ey: int, ex: int|
                            #![trigger cell_lands(len, w, h, cx, cy, ey, ex)]
                            cell_lands(len, w, h, cx, cy, ey, ex) && (ey < dy || (ey == dy && ex
                                < dx + 1)) implies {
                            let o = cell_offset(w, cx, cy, ey, ex);
                            let c = cell_colour(ey, ex)->0;
                            rgb_data@[o] == c && rgb_data@[o + 1] == c && rgb_data@[o + 2] == c
                        } by {
                            if ey != dy || ex != dx {
                                lemma_cells_apart(w, cx, cy, ey, ex, dy as int, dx as int);
                            }
                        }
                        assert forall|i: int|
                            0 <= i < len && !covered_before(
                                i,
                                len,
                                w,
                                h,
                                cx,
                                cy,
                                dy as int,
                                dx + 1,
                            ) implies #[trigger] rgb_data@[i] == before[i] by {
                            if idx <= i < idx + 3 {
                                assert(cell_lands(len, w, h, cx, cy, dy as int, dx as int));
                                assert(false);
                            }
                            if covered_before(i, len, w, h, cx, cy, dy as int, dx as int) {
                                let (ey, ex) = choose|ey: int, ex: int|
                                    #![trigger cell_lands(len, w, h, cx, cy, ey, ex)]
                                    cell_lands(len, w, h, cx, cy, ey, ex) && (ey < dy || (ey == dy
                                        && ex < dx)) && cell_offset(w, cx, cy, ey, ex) <= i
                                        < cell_offset(w, cx, cy, ey, ex) + 3;
                                assert(cell_lands(len, w, h, cx, cy, ey, ex));
                                assert(false);
                            }
                        }
                    }
                }
            }
            proof {
                if !painted {
                    assert(!cell_lands(len, w, h, cx, cy, dy as int, dx as int));
                    assert forall|i: int|
                        0 <= i < len && !covered_before(
                            i,
                            len,
                            w,
                            h,
                            cx,
                            cy,
                            dy as int,
                            dx + 1,
                        ) implies #[trigger] rgb_data@[i] == before[i] by {
                        if covered_before(i, len, w, h, cx, cy, dy as int, dx as int) {
                            let (ey, ex) = choose|ey: int, ex: int|
                                #![trigger cell_lands(len, w, h, cx, cy, ey, ex)]
                                cell_lands(len, w, h, cx, cy, ey, ex) && (ey < dy || (ey == dy
                                    && ex < dx)) && cell_offset(w, cx, cy, ey, ex) <= i
                                    < cell_offset(w, cx, cy, ey, ex) + 3;
                            assert(cell_lands(len, w, h, cx, cy, ey, ex));
                            assert(false);
                        }
                    }
                }
            }
            dx += 1;
        }
        proof {
            assert forall|i: int|
                0 <= i < len && !covered_before(
                    i,
                    len,
                    w,
                    h,
                    cx,
                    cy,
                    dy + 1,
                    0,
                ) implies #[trigger] rgb_data@[i] == before[i] by {
                if covered_before(i, len, w, h, cx, cy, dy as int, CURSOR_WIDTH as int) {
                    let (ey, ex) = choose|ey: int, ex: int|
                        #![trigger cell_lands(len, w, h, cx, cy, ey, ex)]
                        cell_lands(len, w, h, cx, cy, ey, ex) && (ey < dy || (ey == dy && ex
                            < CURSOR_WIDTH)) && cell_offset(w, cx, cy, ey, ex) <= i < cell_offset(
                            w,
                            cx,
                            cy,
                            ey,
                            ex,
                        ) + 3;
                    assert(cell_lands(len, w, h, cx, cy, ey, ex));
                    assert(false);
                }
            }
        }
        dy += 1;
    }
}

} // verus!
