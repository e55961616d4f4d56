//! Pixel work on packed RGB frames: conversion to planar YUV 4:2:0 with
//! fixed-point BT.601 coefficients, and fitting a frame into the encoder's
//! dimensions.

use vstd::prelude::*;

verus! {

/// A value kept within `0..=255`.
pub open spec fn clamp_byte(v: int) -> int {
    if v < 0 {
        0
    } else if v > 255 {
        255
    } else {
        v
    }
}

/// Luma of a pixel: (77 R + 150 G + 29 B) / 256, rounded down.
pub open spec fn luma(r: int, g: int, b: int) -> int {
    (77 * r + 150 * g + 29 * b) / 256
}

/// Blue-difference chroma of a pixel: (-43 R - 85 G + 128 B) / 256 rounded
/// down, plus 128, kept within a byte.
pub open spec fn chroma_u(r: int, g: int, b: int) -> int {
    clamp_byte((-43 * r - 85 * g + 128 * b) / 256 + 128)
}

/// Red-difference chroma of a pixel: (128 R - 107 G - 21 B) / 256 rounded
/// down, plus 128, kept within a byte.
pub open spec fn chroma_v(r: int, g: int, b: int) -> int {
    clamp_byte((128 * r - 107 * g - 21 * b) / 256 + 128)
}

/// The red, green and blue that a YUV triple decodes to, with the
/// fixed-point inverse of the same matrix.
pub open spec fn decoded_rgb(y: int, u: int, v: int) -> (int, int, int) {
    (
        clamp_byte(y + (359 * (v - 128)) / 256),
        clamp_byte(y - (88 * (u - 128) + 183 * (v - 128)) / 256),
        clamp_byte(y + (454 * (u - 128)) / 256),
    )
}

/// Position `(j, i)` comes before `(y, x)` in row-major order.
pub open spec fn comes_before(j: int, i: int, y: int, x: int) -> bool {
    j < y || (j == y && i < x)
}

/// In a grid of `w` columns, an earlier position has a smaller index.
pub proof fn lemma_row_major(w: int, j: int, i: int, y: int, x: int)
    requires
        0 <= i < w,
        0 <= x <= w,
        0 <= j,
        comes_before(j, i, y, x),
    ensures
        j * w + i < y * w + x,
{
    if j < y {
        assert(y * w >= j * w + w) by (nonlinear_arith)
            requires
                j < y,
                w > 0,
        ;
    }
}

/// In a grid of `w` columns and `h` rows, every position has an index
/// below `w * h`.
pub proof fn lemma_in_grid(w: int, h: int, y: int, x: int)
    requires
        0 <= x < w,
        0 <= y < h,
    ensures
        0 <= y * w + x < w * h,
{
    assert(y * w + w <= h * w) by (nonlinear_arith)
        requires
            y + 1 <= h,
            w > 0,
    ;
    assert(y * w >= 0) by (nonlinear_arith)
        requires
            y >= 0,
            w > 0,
    ;
    assert(h * w == w * h) by (nonlinear_arith);
}

/// Encodes one pixel.
pub fn rgb_to_yuv(r: u8, g: u8, b: u8) -> (out: (u8, u8, u8))
    ensures
        out.0 == luma(r as int, g as int, b as int),
        out.1 == chroma_u(r as int, g as int, b as int),
        out.2 == chroma_v(r as int, g as int, b as int),
{
    let ri: i32 = r as i32;
    let gi: i32 = g as i32;
    let bi: i32 = b as i32;
    let ys: i32 = 77 * ri + 150 * gi + 29 * bi;
    let us: i32 = 128 * bi - 43 * ri - 85 * gi;
    let vs: i32 = 128 * ri - 107 * gi - 21 * bi;
    assert((ys >> 8) == ys / 256) by (bit_vector)
        requires
            0 <= ys <= 100000,
    ;
    assert((us >> 8) == us / 256) by (bit_vector)
        requires
            -100000 <= us <= 100000,
    ;
    assert((vs >> 8) == vs / 256) by (bit_vector)
        requires
            -100000 <= vs <= 100000,
    ;
    let y: i32 = ys >> 8;
    let u: i32 = (us >> 8) + 128;
    let v: i32 = (vs >> 8) + 128;
    let u: i32 = if u < 0 {
        0
    } else if u > 255 {
        255
    } else {
        u
    };
    let v: i32 = if v < 0 {
        0
    } else if v > 255 {
        255
    } else {
        v
    };
    (y as u8, u as u8, v as u8)
}

/// Decodes one pixel.
pub fn yuv_to_rgb(y: u8, u: u8, v: u8) -> (out: (u8, u8, u8))
    ensures
        (out.0 as int, out.1 as int, out.2 as int) == decoded_rgb(y as int, u as int, v as int),
{
    let yi: i32 = y as i32;
    let du: i32 = u as i32 - 128;
    let dv: i32 = v as i32 - 128;
    let rs: i32 = 359 * dv;
    let gs: i32 = 88 * du + 183 * dv;
    let bs: i32 = 454 * du;
    assert((rs >> 8) == rs / 256) by (bit_vector)
        requires
            -100000 <= rs <= 100000,
    ;
    assert((gs >> 8) == gs / 256) by (bit_vector)
        requires
            -100000 <= gs <= 100000,
    ;
    assert((bs >> 8) == bs / 256) by (bit_vector)
        requires
            -100000 <= bs <= 100000,
    ;
    let r: i32 = yi + (rs >> 8);
    let g: i32 = yi - (gs >> 8);
    let b: i32 = yi + (bs >> 8);
    let r: i32 = if r < 0 {
        0
    } else if r > 255 {
        255
    } else {
        r
    };
    let g: i32 = if g < 0 {
        0
    } else if g > 255 {
        255
    } else {
        g
    };
    let b: i32 = if b < 0 {
        0
    } else if b > 255 {
        255
    } else {
        b
    };
    (r as u8, g as u8, b as u8)
}

/// A uniform gray pixel comes back unchanged from encoding and decoding:
/// its luma is the gray level and both chroma values are 128, so the error
/// in each channel is 0, well within 2.
pub proof fn lemma_gray_round_trip(gray: u8)
    ensures
        luma(gray as int, gray as int, gray as int) == gray,
        chroma_u(gray as int, gray as int, gray as int) == 128,
        chroma_v(gray as int, gray as int, gray as int) == 128,
        ({
            let g = gray as int;
            let back = decoded_rgb(luma(g, g, g), chroma_u(g, g, g), chroma_v(g, g, g));
            &&& -2 <= back.0 - g <= 2
            &&& -2 <= back.1 - g <= 2
            &&& -2 <= back.2 - g <= 2
        }),
{
}

/// The three planes of a YUV 4:2:0 frame, each packed row after row: luma
/// for every pixel, chroma for every block of two by two pixels.
pub struct Yuv420 {
    pub y: Vec<u8>,
    pub u: Vec<u8>,
    pub v: Vec<u8>,
}

/// Number of chroma samples along a side of `n` pixels.
pub open spec fn chroma_len(n: int) -> int {
    (n + 1) / 2
}

/// Byte `k` of the pixel in column `x` and row `y` of a packed RGB frame
/// that is `width` pixels wide.
pub open spec fn rgb_at(rgb: Seq<u8>, width: int, x: int, y: int, k: int) -> int {
    rgb[(y * width + x) * 3 + k] as int
}

/// `planes` is the YUV 4:2:0 form of the packed RGB frame: every pixel has
/// its luma, and every block of two by two pixels has the chroma of its
/// top-left pixel.
pub open spec fn is_yuv_of(planes: Yuv420, rgb: Seq<u8>, width: int, height: int) -> bool {
    let cw = chroma_len(width);
    let ch = chroma_len(height);
    &&& planes.y@.len() == width * height
    &&& planes.u@.len() == cw * ch
    &&& planes.v@.len() == cw * ch
    &&& forall|y: int, x: int|
        #![trigger planes.y@[y * width + x]]
        0 <= y < height && 0 <= x < width ==> planes.y@[y * width + x] == luma(
            rgb_at(rgb, width, x, y, 0),
            rgb_at(rgb, width, x, y, 1),
            rgb_at(rgb, width, x, y, 2),
        )
    &&& forall|y: int, x: int|
        #![trigger planes.u@[y * cw + x]]
        0 <= y < ch && 0 <= x < cw ==> planes.u@[y * cw + x] == chroma_u(
            rgb_at(rgb, width, 2 * x, 2 * y, 0),
            rgb_at(rgb, width, 2 * x, 2 * y, 1),
            rgb_at(rgb, width, 2 * x, 2 * y, 2),
        )
    &&& forall|y: int, x: int|
        #![trigger planes.v@[y * cw + x]]
        0 <= y < ch && 0 <= x < cw ==> planes.v@[y * cw + x] == chroma_v(
            rgb_at(rgb, width, 2 * x, 2 * y, 0),
            rgb_at(rgb, width, 2 * x, 2 * y, 1),
            rgb_at(rgb, width, 2 * x, 2 * y, 2),
        )
}

/// Converts a packed RGB frame to planar YUV 4:2:0.
pub fn rgb_to_yuv420p(rgb: &[u8], width: usize, height: usize) -> (planes: Yuv420)
    requires
        width * height * 3 <= rgb@.len(),
    ensures
        is_yuv_of(planes, rgb@, width as int, height as int),
{
    let ghost w = width as int;
    let ghost h = height as int;
    let available: usize = rgb.len();
    let mut yp: Vec<u8> = Vec::new();
    let mut y: usize = 0;
    while y < height
        invariant
            y <= height,
            w == width,
            h == height,
            w * h * 3 <= rgb@.len(),
            rgb@.len() <= usize::MAX,
            yp@.len() == y * w,
            forall|j: int, i: int|
                #![trigger yp@[j * w + i]]
                0 <= j < y && 0 <= i < w ==> yp@[j * w + i] == luma(
                    rgb_at(rgb@, w, i, j, 0),
                    rgb_at(rgb@, w, i, j, 1),
                    rgb_at(rgb@, w, i, j, 2),
                ),
        decreases height - y,
    {
        let mut x: usize = 0;
        while x < width
            invariant
                y < height,
                x <= width,
                w == width,
                h == height,
                w * h * 3 <= rgb@.len(),
                rgb@.len() <= usize::MAX,
                yp@.len() == y * w + x,
                forall|j: int, i: int|
                    #![trigger yp@[j * w + i]]
                    0 <= j <= y && 0 <= i < w && comes_before(j, i, y as int, x as int) ==> yp@[j
                        * w + i] == luma(
                        rgb_at(rgb@, w, i, j, 0),
                        rgb_at(rgb@, w, i, j, 1),
                        rgb_at(rgb@, w, i, j, 2),
                    ),
            decreases width - x,
        {
            proof {
                lemma_in_grid(w, h, y as int, x as int);
            }
            let p: usize = y * width + x;
            let (l, _, _) = rgb_to_yuv(rgb[p * 3], rgb[p * 3 + 1], rgb[p * 3 + 2]);
            let ghost before = yp@;
            yp.push(l);
            proof {
                assert forall|j: int, i: int|
                    #![trigger yp@[j * w + i]]
                    0 <= j <= y && 0 <= i < w && comes_before(
                        j,
                        i,
                        y as int,
                        x + 1,
                    ) implies yp@[j * w + i] == luma(
                    rgb_at(rgb@, w, i, j, 0),
                    rgb_at(rgb@, w, i, j, 1),
                    rgb_at(rgb@, w, i, j, 2),
                ) by {
                    if comes_before(j, i, y as int, x as int) {
                        lemma_row_major(w, j, i, y as int, x as int);
                        assert(yp@[j * w + i] == before[j * w + i]);
                    }
                }
            }
            x += 1;
        }
        proof {
            assert((y + 1) * w == y * w + w) by (nonlinear_arith);
            assert forall|j: int, i: int|
                #![trigger yp@[j * w + i]]
                0 <= j < y + 1 && 0 <= i < w implies yp@[j * w + i] == luma(
                rgb_at(rgb@, w, i, j, 0),
                rgb_at(rgb@, w, i, j, 1),
                rgb_at(rgb@, w, i, j, 2),
            ) by {
                assert(comes_before(j, i, y as int, w));
            }
        }
        y += 1;
    }
    let cw: usize = width / 2 + width % 2;
    let ch: usize = height / 2 + height % 2;
    let ghost cwi = chroma_len(w);
    let ghost chi = chroma_len(h);
    let mut up: Vec<u8> = Vec::new();
    let mut vp: Vec<u8> = Vec::new();
    let mut cy: usize = 0;
    while cy < ch
        invariant
            cy <= ch,
            w == width,
            h == height,
            cwi == cw,
            chi == ch,
            cwi == chroma_len(w),
            chi == chroma_len(h),
            w * h * 3 <= rgb@.len(),
            rgb@.len() <= usize::MAX,
            up@.len() == cy * cwi,
            vp@.len() == cy * cwi,
            forall|j: int, i: int|
                #![trigger up@[j * cwi + i]]
                0 <= j < cy && 0 <= i < cwi ==> up@[j * cwi + i] == chroma_u(
                    rgb_at(rgb@, w, 2 * i, 2 * j, 0),
                    rgb_at(rgb@, w, 2 * i, 2 * j, 1),
                    rgb_at(rgb@, w, 2 * i, 2 * j, 2),
                ),
            forall|j: int, i: int|
                #![trigger vp@[j * cwi + i]]
                0 <= j < cy && 0 <= i < cwi ==> vp@[j * cwi + i] == chroma_v(
                    rgb_at(rgb@, w, 2 * i, 2 * j, 0),
                    rgb_at(rgb@, w, 2 * i, 2 * j, 1),
                    rgb_at(rgb@, w, 2 * i, 2 * j, 2),
                ),
        decreases ch - cy,
    {
        let mut cx: usize = 0;
        while cx < cw
            invariant
                cy < ch,
                cx <= cw,
                w == width,
                h == height,
                cwi == cw,
                chi == ch,
                cwi == chroma_len(w),
                chi == chroma_len(h),
                w * h * 3 <= rgb@.len(),
                rgb@.len() <= usize::MAX,
                up@.len() == cy * cwi + cx,
                vp@.len() == cy * cwi + cx,
                forall|j: int, i: int|
                    #![trigger up@[j * cwi + i]]
                    0 <= j <= cy && 0 <= i < cwi && comes_before(j, i, cy as int, cx as int)
                        ==> up@[j * cwi + i] == chroma_u(
                        rgb_at(rgb@, w, 2 * i, 2 * j, 0),
                        rgb_at(rgb@, w, 2 * i, 2 * j, 1),
                        rgb_at(rgb@, w, 2 * i, 2 * j, 2),
                    ),
                forall|j: int, i: int|
                    #![trigger vp@[j * cwi + i]]
                    0 <= j <= cy && 0 <= i < cwi && comes_before(j, i, cy as int, cx as int)
                        ==> vp@[j * cwi + i] == chroma_v(
                        rgb_at(rgb@, w, 2 * i, 2 * j, 0),
                        rgb_at(rgb@, w, 2 * i, 2 * j, 1),
                        rgb_at(rgb@, w, 2 * i, 2 * j, 2),
                    ),
            decreases cw - cx,
        {
            proof {
                lemma_in_grid(w, h, 2 * cy, 2 * cx);
            }
            let p: usize = (2 * cy) * width + 2 * cx;
            let (_, cu, cv) = rgb_to_yuv(rgb[p * 3], rgb[p * 3 + 1], rgb[p * 3 + 2]);
            let ghost u_before = up@;
            let ghost v_before = vp@;
            up.push(cu);
            vp.push(cv);
            proof {
                assert forall|j: int, i: int|
                    #![trigger up@[j * cwi + i]]
                    0 <= j <= cy && 0 <= i < cwi && comes_before(
                        j,
                        i,
                        cy as int,
                        cx + 1,
                    ) implies up@[j * cwi + i] == chroma_u(
                    rgb_at(rgb@, w, 2 * i, 2 * j, 0),
                    rgb_at(rgb@, w, 2 * i, 2 * j, 1),
                    rgb_at(rgb@, w, 2 * i, 2 * j, 2),
                ) by {
                    if comes_before(j, i, cy as int, cx as int) {
                        lemma_row_major(cwi, j, i, cy as int, cx as int);
                        assert(up@[j * cwi + i] == u_before[j * cwi + i]);
                    }
                }
                assert forall|j: int, i: int|
                    #![trigger vp@[j * cwi + i]]
                    0 <= j <= cy && 0 <= i < cwi && comes_before(
                        j,
                        i,
                        cy as int,
                        cx + 1,
                    ) implies vp@[j * cwi + i] == chroma_v(
                    rgb_at(rgb@, w, 2 * i, 2 * j, 0),
                    rgb_at(rgb@, w, 2 * i, 2 * j, 1),
                    rgb_at(rgb@, w, 2 * i, 2 * j, 2),
                ) by {
                    if comes_before(j, i, cy as int, cx as int) {
                        lemma_row_major(cwi, j, i, cy as int, cx as int);
                        assert(vp@[j * cwi + i] == v_before[j * cwi + i]);
                    }
                }
            }
            cx += 1;
        }
        proof {
            assert((cy + 1) * cwi == cy * cwi + cwi) by (nonlinear_arith);
            assert forall|j: int, i: int|
                #![trigger up@[j * cwi + i]]
                0 <= j < cy + 1 && 0 <= i < cwi implies up@[j * cwi + i] == chroma_u(
                rgb_at(rgb@, w, 2 * i, 2 * j, 0),
                rgb_at(rgb@, w, 2 * i, 2 * j, 1),
                rgb_at(rgb@, w, 2 * i, 2 * j, 2),
            ) by {
                assert(comes_before(j, i, cy as int, cwi));
            }
            assert forall|j: int, i: int|
                #![trigger vp@[j * cwi + i]]
                0 <= j < cy + 1 && 0 <= i < cwi implies vp@[j * cwi + i] == chroma_v(
                rgb_at(rgb@, w, 2 * i, 2 * j, 0),
                rgb_at(rgb@, w, 2 * i, 2 * j, 1),
                rgb_at(rgb@, w, 2 * i, 2 * j, 2),
            ) by {
                assert(comes_before(j, i, cy as int, cwi));
            }
        }
        cy += 1;
    }
    proof {
        assert(h * w == w * h) by (nonlinear_arith);
        assert(chi * cwi == cwi * chi) by (nonlinear_arith);
    }
    Yuv420 { y: yp, u: up, v: vp }
}

/// The source fits the target by its width: scaled to the target's width
/// it is not higher than the target.
pub open spec fn fits_by_width(sw: int, sh: int, tw: int, th: int) -> bool {
    tw * sh <= th * sw
}

/// Width of the source after scaling it into the target with its aspect
/// kept, rounded down.
pub open spec fn scaled_width(sw: int, sh: int, tw: int, th: int) -> int {
    if fits_by_width(sw, sh, tw, th) {
        tw
    } else {
        (sw * th) / sh
    }
}

/// Height of the source after scaling it into the target with its aspect
/// kept, rounded down.
pub open spec fn scaled_height(sw: int, sh: int, tw: int, th: int) -> int {
    if fits_by_width(sw, sh, tw, th) {
        (sh * tw) / sw
    } else {
        th
    }
}

/// The source coordinate that target coordinate `t` shows, `pad` pixels
/// into the target, at the scale of the fit: the nearest neighbour towards
/// the origin.
pub open spec fn source_coord(t: int, pad: int, sw: int, sh: int, tw: int, th: int) -> int {
    if fits_by_width(sw, sh, tw, th) {
        ((t - pad) * sw) / tw
    } else {
        ((t - pad) * sh) / th
    }
}

/// Byte `k` of the target pixel in column `tx` and row `ty` when the
/// source frame is scaled into the target with its aspect kept and centred
/// on black: the byte of the nearest source pixel inside the scaled image,
/// 0 in the padding and wherever the source has no such pixel.
pub open spec fn fitted_byte(
    rgb: Seq<u8>,
    sw: int,
    sh: int,
    tw: int,
    th: int,
    tx: int,
    ty: int,
    k: int,
) -> int {
    if sw <= 0 || sh <= 0 {
        0
    } else {
        let scw = scaled_width(sw, sh, tw, th);
        let sch = scaled_height(sw, sh, tw, th);
        let pad_x = (tw - scw) / 2;
        let pad_y = (th - sch) / 2;
        if pad_x <= tx < pad_x + scw && pad_y <= ty < pad_y + sch {
            let sx = source_coord(tx, pad_x, sw, sh, tw, th);
            let sy = source_coord(ty, pad_y, sw, sh, tw, th);
            if sx < sw && sy < sh && (sy * sw + sx) * 3 + 2 < rgb.len() {
                rgb[(sy * sw + sx) * 3 + k] as int
            } else {
                0
            }
        } else {
            0
        }
    }
}

/// `fitted` is the source frame fitted into the target dimensions: a
/// packed RGB frame of the target's size of which every byte is the one
/// that `fitted_byte` names.
pub open spec fn is_fitted(fitted: Seq<u8>, rgb: Seq<u8>, sw: int, sh: int, tw: int, th: int) -> bool {
    &&& fitted.len() == tw * th * 3
    &&& forall|ty: int, tx: int, k: int|
        #![trigger fitted[(ty * tw + tx) * 3 + k]]
        0 <= ty < th && 0 <= tx < tw && 0 <= k < 3 ==> fitted[(ty * tw + tx) * 3 + k]
            == fitted_byte(rgb, sw, sh, tw, th, tx, ty, k)
}

/// The scaled image is not larger than the target.
pub proof fn lemma_scaled_fits(sw: int, sh: int, tw: int, th: int)
    requires
        sw > 0,
        sh > 0,
        tw >= 0,
        th >= 0,
    ensures
        0 <= scaled_width(sw, sh, tw, th) <= tw,
        0 <= scaled_height(sw, sh, tw, th) <= th,
{
    if fits_by_width(sw, sh, tw, th) {
        assert((sh * tw) / sw <= th && (sh * tw) / sw >= 0) by (nonlinear_arith)
            requires
                tw * sh <= th * sw,
                sw > 0,
                sh > 0,
                tw >= 0,
                th >= 0,
        ;
    } else {
        assert((sw * th) / sh <= tw && (sw * th) / sh >= 0) by (nonlinear_arith)
            requires
                tw * sh > th * sw,
                sw > 0,
                sh > 0,
                tw >= 0,
                th >= 0,
        ;
    }
}

fn fitted_pixel(
    rgb: &[u8],
    sw: usize,
    sh: usize,
    tw: usize,
    th: usize,
    tx: usize,
    ty: usize,
) -> (r: (u8, u8, u8))
    requires
        tx < tw,
        ty < th,
    ensures
        r.0 == fitted_byte(rgb@, sw as int, sh as int, tw as int, th as int, tx as int, ty as int, 0),
        r.1 == fitted_byte(rgb@, sw as int, sh as int, tw as int, th as int, tx as int, ty as int, 1),
        r.2 == fitted_byte(rgb@, sw as int, sh as int, tw as int, th as int, tx as int, ty as int, 2),
{
    if sw == 0 || sh == 0 {
        return (0, 0, 0);
    }
    let ghost swi = sw as int;
    let ghost shi = sh as int;
    let ghost twi = tw as int;
    let ghost thi = th as int;
    proof {
        lemma_scaled_fits(swi, shi, twi, thi);
        assert(twi * shi <= 0xffff_ffff_ffff_ffff * 0xffff_ffff_ffff_ffff && thi * swi
            <= 0xffff_ffff_ffff_ffff * 0xffff_ffff_ffff_ffff && shi * twi == twi * shi && swi * thi
            == thi * swi) by (nonlinear_arith)
            requires
                0 <= swi <= 0xffff_ffff_ffff_ffff,
                0 <= shi <= 0xffff_ffff_ffff_ffff,
                0 <= twi <= 0xffff_ffff_ffff_ffff,
                0 <= thi <= 0xffff_ffff_ffff_ffff,
        ;
    }
    let by_width: bool = (tw as u128) * (sh as u128) <= (th as u128) * (sw as u128);
    let scw: u128 = if by_width {
        tw as u128
    } else {
        ((sw as u128) * (th as u128)) / (sh as u128)
    };
    let sch: u128 = if by_width {
        ((sh as u128) * (tw as u128)) / (sw as u128)
    } else {
        th as u128
    };
    let pad_x: u128 = (tw as u128 - scw) / 2;
    let pad_y: u128 = (th as u128 - sch) / 2;
    let txw: u128 = tx as u128;
    let tyw: u128 = ty as u128;
    if !(pad_x <= txw && txw < pad_x + scw && pad_y <= tyw && tyw < pad_y + sch) {
        return (0, 0, 0);
    }
    let num: u128 = if by_width {
        tw as u128
    } else {
        th as u128
    };
    let den: u128 = if by_width {
        sw as u128
    } else {
        sh as u128
    };
    proof {
        assert((txw - pad_x) * den <= 0xffff_ffff_ffff_ffff * 0xffff_ffff_ffff_ffff && (tyw
            - pad_y) * den <= 0xffff_ffff_ffff_ffff * 0xffff_ffff_ffff_ffff) by (nonlinear_arith)
            requires
                0 <= txw - pad_x <= 0xffff_ffff_ffff_ffff,
                0 <= tyw - pad_y <= 0xffff_ffff_ffff_ffff,
                0 <= den <= 0xffff_ffff_ffff_ffff,
        ;
    }
    let sx: u128 = ((txw - pad_x) * den) / num;
    let sy: u128 = ((tyw - pad_y) * den) / num;
    if sx >= sw as u128 || sy >= sh as u128 {
        return (0, 0, 0);
    }
    proof {
        assert(sy * swi + sx < swi * shi && swi * shi <= 0xffff_ffff_ffff_ffff
            * 0xffff_ffff_ffff_ffff && sy * swi >= 0) by (nonlinear_arith)
            requires
                0 <= sx < swi,
                0 <= sy < shi,
                swi <= 0xffff_ffff_ffff_ffff,
                shi <= 0xffff_ffff_ffff_ffff,
        ;
    }
    let p: u128 = sy * (sw as u128) + sx;
    let limit: usize = rgb.len() / 3;
    if p >= limit as u128 {
        return (0, 0, 0);
    }
    let idx: usize = (p as usize) * 3;
    (rgb[idx], rgb[idx + 1], rgb[idx + 2])
}

/// Fits a packed RGB frame into target dimensions: scaled with its aspect
/// kept by nearest neighbour, centred, the rest black.
pub fn scale_and_pad_frame(
    rgb: &[u8],
    src_width: usize,
    src_height: usize,
    target_width: usize,
    target_height: usize,
) -> (out: Vec<u8>)
    requires
        target_width * target_height * 3 <= usize::MAX,
    ensures
        is_fitted(
            out@,
            rgb@,
            src_width as int,
            src_height as int,
            target_width as int,
            target_height as int,
        ),
{
    let ghost sw = src_width as int;
    let ghost sh = src_height as int;
    let ghost tw = target_width as int;
    let ghost th = target_height as int;
    let mut out: Vec<u8> = Vec::new();
    let mut ty: usize = 0;
    while ty < target_height
        invariant
            ty <= target_height,
            sw == src_width,
            sh == src_height,
            tw == target_width,
            th == target_height,
            out@.len() == (ty * tw) * 3,
            forall|j: int, i: int, k: int|
                #![trigger out@[(j * tw + i) * 3 + k]]
                0 <= j < ty && 0 <= i < tw && 0 <= k < 3 ==> out@[(j * tw + i) * 3 + k]
                    == fitted_byte(rgb@, sw, sh, tw, th, i, j, k),
        decreases target_height - ty,
    {
        let mut tx: usize = 0;
        while tx < target_width
            invariant
                ty < target_height,
                tx <= target_width,
                sw == src_width,
                sh == src_height,
                tw == target_width,
                th == target_height,
                out@.len() == (ty * tw + tx) * 3,
                forall|j: int, i: int, k: int|
                    #![trigger out@[(j * tw + i) * 3 + k]]
                    0 <= j <= ty && 0 <= i < tw && 0 <= k < 3 && comes_before(
                        j,
                        i,
                        ty as int,
                        tx as int,
                    ) ==> out@[(j * tw + i) * 3 + k] == fitted_byte(rgb@, sw, sh, tw, th, i, j, k),
            decreases target_width - tx,
        {
            let (r, g, b) = fitted_pixel(
                rgb,
                src_width,
                src_height,
                target_width,
                target_height,
                tx,
                ty,
            );
            let ghost before = out@;
            out.push(r);
            out.push(g);
            out.push(b);
            proof {
                assert forall|j: int, i: int, k: int|
                    #![trigger out@[(j * tw + i) * 3 + k]]
                    0 <= j <= ty && 0 <= i < tw && 0 <= k < 3 && comes_before(
                        j,
                        i,
                        ty as int,
                        tx + 1,
                    ) implies out@[(j * tw + i) * 3 + k] == fitted_byte(
                    rgb@,
                    sw,
                    sh,
                    tw,
                    th,
                    i,
                    j,
                    k,
                ) by {
                    if comes_before(j, i, ty as int, tx as int) {
                        lemma_row_major(tw, j, i, ty as int, tx as int);
                        assert(out@[(j * tw + i) * 3 + k] == before[(j * tw + i) * 3 + k]);
                    }
                }
            }
            tx += 1;
        }
        proof {
            assert((ty + 1) * tw == ty * tw + tw) by (nonlinear_arith);
            assert forall|j: int, i: int, k: int|
                #![trigger out@[(j * tw + i) * 3 + k]]
                0 <= j < ty + 1 && 0 <= i < tw && 0 <= k < 3 implies out@[(j * tw + i) * 3 + k]
                == fitted_byte(rgb@, sw, sh, tw, th, i, j, k) by {
                assert(comes_before(j, i, ty as int, tw));
            }
        }
        ty += 1;
    }
    proof {
        assert(th * tw == tw * th) by (nonlinear_arith);
    }
    out
}

/// Position in a buffer of the sample in column `c` of row `r`, where
/// rows start `stride` bytes apart.
pub open spec fn sample_at(stride: int, r: int, c: int) -> int {
    r * stride + c
}

/// Byte `i` of a buffer holds a sample of a plane of `rows` rows of
/// `width` samples that comes before position (`end_r`, `end_c`).
pub open spec fn sample_before(
    i: int,
    stride: int,
    width: int,
    rows: int,
    end_r: int,
    end_c: int,
) -> bool {
    exists|r: int, c: int|
        #![trigger sample_at(stride, r, c)]
        0 <= r < rows && 0 <= c < width && comes_before(r, c, end_r, end_c) && i == sample_at(
            stride,
            r,
            c,
        )
}

/// `after` is `before` with a packed plane written into it row by row,
/// the rows `stride` bytes apart: every sample stands at its place, and
/// the bytes between the rows are as they were.
pub open spec fn plane_written(
    before: Seq<u8>,
    after: Seq<u8>,
    stride: int,
    plane: Seq<u8>,
    width: int,
    rows: int,
) -> bool {
    &&& after.len() == before.len()
    &&& forall|r: int, c: int|
        #![trigger sample_at(stride, r, c)]
        0 <= r < rows && 0 <= c < width ==> after[sample_at(stride, r, c)] == plane[r * width + c]
    &&& forall|i: int|
        0 <= i < before.len() && !sample_before(i, stride, width, rows, rows, 0)
            ==> #[trigger] after[i] == before[i]
}

/// Writes a packed plane into a buffer whose rows start `stride` bytes
/// apart.
pub fn write_plane(target: &mut [u8], stride: usize, plane: &[u8], width: usize, rows: usize)
    requires
        width <= stride,
        rows * width <= plane@.len(),
        rows > 0 ==> (rows - 1) * stride + width <= old(target)@.len(),
    ensures
        plane_written(
            old(target)@,
            final(target)@,
            stride as int,
            plane@,
            width as int,
            rows as int,
        ),
{
    let ghost st = stride as int;
    let ghost w = width as int;
    let ghost h = rows as int;
    let ghost before = target@;
    let length: usize = target.len();
    let available: usize = plane.len();
    let mut r: usize = 0;
    while r < rows
        invariant
            r <= rows,
            st == stride,
            w == width,
            h == rows,
            w <= st,
            h * w <= plane@.len(),
            plane@.len() == available,
            h > 0 ==> (h - 1) * st + w <= before.len(),
            target@.len() == before.len(),
            before.len() == length,
            forall|j: int, i: int|
                #![trigger sample_at(st, j, i)]
                0 <= j < r && 0 <= i < w ==> target@[sample_at(st, j, i)] == plane@[j * w + i],
            forall|i: int|
                0 <= i < before.len() && !sample_before(i, st, w, h, r as int, 0)
                    ==> #[trigger] target@[i] == before[i],
        decreases rows - r,
    {
        let mut c: usize = 0;
        while c < width
            invariant
                r < rows,
                c <= width,
                st == stride,
                w == width,
                h == rows,
                w <= st,
                h * w <= plane@.len(),
                plane@.len() == available,
                (h - 1) * st + w <= before.len(),
                target@.len() == before.len(),
                before.len() == length,
                forall|j: int, i: int|
                    #![trigger sample_at(st, j, i)]
                    0 <= j <= r && 0 <= i < w && comes_before(j, i, r as int, c as int)
                        ==> target@[sample_at(st, j, i)] == plane@[j * w + i],
                forall|i: int|
                    0 <= i < before.len() && !sample_before(i, st, w, h, r as int, c as int)
                        ==> #[trigger] target@[i] == before[i],
            decreases width - c,
        {
            proof {
                lemma_in_grid(w, h, r as int, c as int);
                assert(w * h == h * w) by (nonlinear_arith);
                assert(r * w >= 0) by (nonlinear_arith)
                    requires
                        r >= 0,
                        w >= 0,
                ;
                assert(r * st + c <= (h - 1) * st + c) by (nonlinear_arith)
                    requires
                        0 <= r <= h - 1,
                        st >= 0,
                ;
                assert(r * st >= 0) by (nonlinear_arith)
                    requires
                        r >= 0,
                        st >= 0,
                ;
            }
            let from: usize = r * width + c;
            let to: usize = r * stride + c;
            let ghost prev = target@;
            target[to] = plane[from];
            proof {
                assert(to == sample_at(st, r as int, c as int));
                assert forall|j: int, i: int|
                    #![trigger sample_at(st, j, i)]
                    0 <= j <= r && 0 <= i < w && comes_before(
                        j,
                        i,
                        r as int,
                        c + 1,
                    ) implies target@[sample_at(st, j, i)] == plane@[j * w + i] by {
                    if comes_before(j, i, r as int, c as int) {
                        lemma_row_major(st, j, i, r as int, c as int);
                        assert(target@[sample_at(st, j, i)] == prev[sample_at(st, j, i)]);
                    }
                }
                assert forall|i: int|
                    0 <= i < before.len() && !sample_before(
                        i,
                        st,
                        w,
                        h,
                        r as int,
                        c + 1,
                    ) implies #[trigger] target@[i] == before[i] by {
                    if i == to {
                        assert(comes_before(r as int, c as int, r as int, c + 1));
                        assert(sample_before(i, st, w, h, r as int, c + 1));
                    }
                    if sample_before(i, st, w, h, r as int, c as int) {
                        let (j, k) = choose|j: int, k: int|
                            #![trigger sample_at(st, j, k)]
                            0 <= j < h && 0 <= k < w && comes_before(j, k, r as int, c as int)
                                && i == sample_at(st, j, k);
                        assert(comes_before(j, k, r as int, c + 1));
                        assert(i == sample_at(st, j, k));
                    }
                }
            }
            c += 1;
        }
        proof {
            assert forall|j: int, i: int|
                #![trigger sample_at(st, j, i)]
                0 <= j < r + 1 && 0 <= i < w implies target@[sample_at(st, j, i)] == plane@[j * w
                + i] by {
                assert(comes_before(j, i, r as int, w));
            }
            assert forall|i: int|
                0 <= i < before.len() && !sample_before(
                    i,
                    st,
                    w,
                    h,
                    r + 1,
                    0,
                ) implies #[trigger] target@[i] == before[i] by {
                if sample_before(i, st, w, h, r as int, w) {
                    let (j, k) = choose|j: int, k: int|
                        #![trigger sample_at(st, j, k)]
                        0 <= j < h && 0 <= k < w && comes_before(j, k, r as int, w) && i
                            == sample_at(st, j, k);
                    assert(comes_before(j, k, r + 1, 0));
                    assert(i == sample_at(st, j, k));
                }
            }
        }
        r += 1;
    }
}

} // verus!
