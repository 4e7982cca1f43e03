//! Synthetic UYVY frames, and the BT.709 arithmetic they are made with.
//!
//! Two jobs. They are the fixtures the GPU path is checked against, and they
//! are the input source when there is no card in the machine — which is most
//! development, and which is what makes the whole app usable and demonstrable
//! without SDI hardware plugged in.
//!
//! The colour arithmetic is exact: each component is the BT.709
//! limited-range formula evaluated as a ratio of integers, rounded to the
//! nearest code value (halves up) and clamped to a byte.
use vstd::prelude::*;
use crate::geom::Size;

verus! {

/// `num/den` rounded to the nearest integer, halves up (`den > 0`).
pub open spec fn round_ratio(num: int, den: int) -> int {
    (2 * num + den) / (2 * den)
}

/// An integer clamped into a byte.
pub open spec fn byte_of(v: int) -> u8 {
    if v < 0 { 0 } else if v > 255 { 255 } else { v as u8 }
}

/// `2126 R + 7152 G + 722 B`: ten thousand times BT.709 luma, on 0..255
/// inputs.
pub open spec fn luma_sum(rgb: [u8; 3]) -> int {
    2126 * rgb[0] + 7152 * rgb[1] + 722 * rgb[2]
}

/// Y' = 16 + 219 · luma, luma = (0.2126 R + 0.7152 G + 0.0722 B) / 255.
pub open spec fn y_of(rgb: [u8; 3]) -> u8 {
    byte_of(round_ratio(219 * luma_sum(rgb) + 16 * 2_550_000, 2_550_000))
}

/// Cb = 128 + 224 · (B/255 − luma) / 1.8556.
pub open spec fn cb_of(rgb: [u8; 3]) -> u8 {
    byte_of(round_ratio(128 * 255 * 9278 + 112 * (10000 * rgb[2] - luma_sum(rgb)), 255 * 9278int))
}

/// Cr = 128 + 224 · (R/255 − luma) / 1.5748.
pub open spec fn cr_of(rgb: [u8; 3]) -> u8 {
    byte_of(round_ratio(128 * 255 * 7874 + 112 * (10000 * rgb[0] - luma_sum(rgb)), 255 * 7874int))
}

/// R = 255 · (y + 1.5748 cr), with y = (Y − 16)/219 and cr = (Cr − 128)/224.
/// Over the common denominator 219 · 224 · 10⁴, the luma term is
/// (Y − 16) · 224 · 10⁴ and the chroma term (Cr − 128) · 219 · 15 748.
pub open spec fn r_of(ycc: [u8; 3]) -> u8 {
    byte_of(round_ratio(255 * ((ycc[0] - 16) * 2_240_000 + (ycc[2] - 128) * 3_448_812), 490_560_000))
}

/// G = 255 · (y − 0.187324 cb − 0.468124 cr), over 219 · 224 · 10⁶.
pub open spec fn g_of(ycc: [u8; 3]) -> u8 {
    byte_of(round_ratio(
        255 * ((ycc[0] - 16) * 224_000_000 - (ycc[1] - 128) * 41_023_956 - (ycc[2] - 128) * 102_519_156),
        49_056_000_000,
    ))
}

/// B = 255 · (y + 1.8556 cb), over 219 · 224 · 10⁴.
pub open spec fn b_of(ycc: [u8; 3]) -> u8 {
    byte_of(round_ratio(255 * ((ycc[0] - 16) * 2_240_000 + (ycc[1] - 128) * 4_063_764), 490_560_000))
}

/// `round_ratio` and the clamp, computed.
fn round_clamp(num: i64, den: i64) -> (v: u8)
    requires
        den > 0,
        -0x10_0000_0000_0000 <= num <= 0x10_0000_0000_0000,
        den <= 0x1000_0000_0000,
    ensures
        v == byte_of(round_ratio(num as int, den as int)),
{
    let top = 2 * num + den;
    if top < 0 {
        // The floor of a negative ratio is negative, and clamps to 0.
        assert(round_ratio(num as int, den as int) < 0) by (nonlinear_arith)
            requires top == 2 * num + den, top < 0, den > 0;
        return 0;
    }
    let q = top / (2 * den);
    if q > 255 { 255 } else { q as u8 }
}

/// BT.709 limited range, RGB (0..255) to Y'CbCr (0..255).
pub fn rgb_to_ycbcr(rgb: [u8; 3]) -> (ycc: [u8; 3])
    ensures
        ycc[0] == y_of(rgb),
        ycc[1] == cb_of(rgb),
        ycc[2] == cr_of(rgb),
{
    let r = rgb[0] as i64;
    let g = rgb[1] as i64;
    let b = rgb[2] as i64;
    let s = 2126 * r + 7152 * g + 722 * b;
    let y = round_clamp(219 * s + 16 * 2_550_000, 2_550_000);
    let cb = round_clamp(128 * 255 * 9278 + 112 * (10000 * b - s), 255 * 9278);
    let cr = round_clamp(128 * 255 * 7874 + 112 * (10000 * r - s), 255 * 7874);
    [y, cb, cr]
}

/// The inverse, for checking a round trip.
pub fn ycbcr_to_rgb(ycc: [u8; 3]) -> (rgb: [u8; 3])
    ensures
        rgb[0] == r_of(ycc),
        rgb[1] == g_of(ycc),
        rgb[2] == b_of(ycc),
{
    let y = ycc[0] as i64 - 16;
    let cb = ycc[1] as i64 - 128;
    let cr = ycc[2] as i64 - 128;
    assert(-16 <= y <= 239 && -128 <= cb <= 127 && -128 <= cr <= 127);
    let ys = y * 2_240_000;
    let crs = cr * 3_448_812;
    let cbs = cb * 4_063_764;
    let r = round_clamp(255 * (ys + crs), 490_560_000);
    let g = round_clamp(255 * (y * 224_000_000 - cb * 41_023_956 - cr * 102_519_156), 49_056_000_000);
    let b = round_clamp(255 * (ys + cbs), 490_560_000);
    [r, g, b]
}

/// Macropixels in one UYVY row: two pixels each, an odd width rounded up.
pub open spec fn macro_width(w: u32) -> nat {
    ((w as nat) + 1) / 2
}

/// Row stride of a UYVY frame: two bytes a pixel, macropixels indivisible.
pub fn row_bytes(size: Size) -> (n: u32)
    requires
        macro_width(size.w) * 4 <= u32::MAX,
    ensures
        n == macro_width(size.w) * 4,
{
    (size.w / 2 + size.w % 2) * 4
}

/// The `t`-th macropixel of a frame, counting row by row, holds the pair of
/// pixels at columns `2m` and `min(2m + 1, w − 1)` of row `y`, where
/// `y = t / mw` and `m = t % mw`.
pub open spec fn macro_row(t: int, size: Size) -> int {
    t / macro_width(size.w) as int
}

pub open spec fn macro_left(t: int, size: Size) -> int {
    2 * (t % macro_width(size.w) as int)
}

pub open spec fn macro_right(t: int, size: Size) -> int {
    if macro_left(t, size) + 1 <= size.w - 1 { macro_left(t, size) + 1 } else if size.w == 0 { 0 } else { size.w - 1 }
}

/// Macropixel `t` of `out` carries the pair `a`, `b` (both RGB): U and V
/// sited on the even pixel, and each pixel's own luma.
pub open spec fn packs(out: Seq<u8>, t: int, a: [u8; 3], b: [u8; 3]) -> bool {
    &&& out[4 * t] == cb_of(a)
    &&& out[4 * t + 1] == y_of(a)
    &&& out[4 * t + 2] == cr_of(a)
    &&& out[4 * t + 3] == y_of(b)
}

/// Macropixel `t` of `out` holds what `px` gave for its two pixels.
pub open spec fn macropixel_from<F: Fn(u32, u32) -> [u8; 3]>(out: Seq<u8>, t: int, size: Size, px: F) -> bool {
    exists|a: [u8; 3], b: [u8; 3]| {
        &&& px.ensures((macro_left(t, size) as u32, macro_row(t, size) as u32), a)
        &&& px.ensures((macro_right(t, size) as u32, macro_row(t, size) as u32), b)
        &&& #[trigger] packs(out, t, a, b)
    }
}

/// Build a UYVY frame by asking `px` for the RGB at each pixel.
///
/// Chroma is taken from the *even* pixel of each pair, matching where 4:2:2
/// sites it, rather than averaged — a generated fixture should be exactly what
/// the format can represent, so that a round-trip test failure means the code
/// is wrong and not the fixture.
pub fn build_uyvy<F: Fn(u32, u32) -> [u8; 3]>(size: Size, px: F) -> (out: Vec<u8>)
    requires
        macro_width(size.w) * 4 * size.h <= usize::MAX,
        forall|x: u32, y: u32| x < size.w && y < size.h ==> #[trigger] px.requires((x, y)),
    ensures
        out@.len() == macro_width(size.w) * 4 * size.h,
        forall|t: int| 0 <= t < macro_width(size.w) * size.h ==> #[trigger] macropixel_from(out@, t, size, px),
{
    let mw: usize = (size.w / 2 + size.w % 2) as usize;
    assert(mw * size.h <= usize::MAX && mw * size.h * 4 <= usize::MAX) by (nonlinear_arith)
        requires mw == macro_width(size.w), macro_width(size.w) * 4 * size.h <= usize::MAX;
    let total: usize = mw * size.h as usize;
    let mut out: Vec<u8> = Vec::new();
    let mut t: usize = 0;
    while t < total
        invariant
            mw == macro_width(size.w),
            total == macro_width(size.w) * size.h,
            total * 4 <= usize::MAX,
            t <= total,
            out@.len() == 4 * t,
            forall|x: u32, y: u32| x < size.w && y < size.h ==> #[trigger] px.requires((x, y)),
            forall|k: int| 0 <= k < t ==> #[trigger] macropixel_from(out@, k, size, px),
        decreases total - t,
    {
        let y = t / mw;
        let m = t % mw;
        assert(y < size.h) by (nonlinear_arith)
            requires y == t / mw, t < total, total == mw * size.h, mw > 0;
        let x0: u32 = (m * 2) as u32;
        let x1: u32 = if x0 + 1 <= size.w - 1 { x0 + 1 } else { size.w - 1 };
        let a = px(x0, y as u32);
        let b = px(x1, y as u32);
        let ya = rgb_to_ycbcr(a);
        let yb = rgb_to_ycbcr(b);
        let ghost before = out@;
        out.push(ya[1]);
        out.push(ya[0]);
        out.push(ya[2]);
        out.push(yb[0]);
        assert(forall|j: int| 0 <= j < before.len() ==> out@[j] == before[j]);
        assert forall|k: int| 0 <= k < t + 1 implies #[trigger] macropixel_from(out@, k, size, px) by {
            if k < t {
                assert(macropixel_from(before, k, size, px));
                let (a0, b0) = choose|a0: [u8; 3], b0: [u8; 3]| {
                    &&& px.ensures((macro_left(k, size) as u32, macro_row(k, size) as u32), a0)
                    &&& px.ensures((macro_right(k, size) as u32, macro_row(k, size) as u32), b0)
                    &&& #[trigger] packs(before, k, a0, b0)
                };
                assert(packs(out@, k, a0, b0));
            } else {
                assert(macro_row(k, size) == y && macro_left(k, size) == x0 && macro_right(k, size) == x1);
                assert(packs(out@, k, a, b));
            }
        }
        t += 1;
    }
    assert(4 * total == macro_width(size.w) * 4 * size.h) by (nonlinear_arith)
        requires total == macro_width(size.w) * size.h;
    out
}

/// The frame of `size` whose macropixel `t` carries the colours `c` gives
/// for its two pixels.
pub open spec fn frame_of(out: Seq<u8>, size: Size, c: spec_fn(int, int) -> [u8; 3]) -> bool {
    &&& out.len() == macro_width(size.w) * 4 * size.h
    &&& forall|t: int| 0 <= t < macro_width(size.w) * size.h ==> #[trigger] packs(
        out,
        t,
        c(macro_left(t, size), macro_row(t, size)),
        c(macro_right(t, size), macro_row(t, size)),
    )
}

/// A frame whose pixels are given by `c` at every pixel of the raster.
proof fn lemma_frame_of<F: Fn(u32, u32) -> [u8; 3]>(out: Seq<u8>, size: Size, px: F, c: spec_fn(int, int) -> [u8; 3])
    requires
        out.len() == macro_width(size.w) * 4 * size.h,
        forall|t: int| 0 <= t < macro_width(size.w) * size.h ==> #[trigger] macropixel_from(out, t, size, px),
        forall|x: u32, y: u32, v: [u8; 3]| x < size.w && y < size.h && #[trigger] px.ensures((x, y), v) ==> v == c(x as int, y as int),
    ensures
        frame_of(out, size, c),
{
    assert forall|t: int| 0 <= t < macro_width(size.w) * size.h implies #[trigger] packs(
        out,
        t,
        c(macro_left(t, size), macro_row(t, size)),
        c(macro_right(t, size), macro_row(t, size)),
    ) by {
        assert(macropixel_from(out, t, size, px));
        let (a, b) = choose|a: [u8; 3], b: [u8; 3]| {
            &&& px.ensures((macro_left(t, size) as u32, macro_row(t, size) as u32), a)
            &&& px.ensures((macro_right(t, size) as u32, macro_row(t, size) as u32), b)
            &&& #[trigger] packs(out, t, a, b)
        };
        let mw = macro_width(size.w) as int;
        assert(0 <= macro_row(t, size) < size.h) by (nonlinear_arith)
            requires mw > 0, 0 <= t < mw * size.h, macro_row(t, size) == t / mw;
        assert(0 <= t % mw < mw) by (nonlinear_arith) requires mw > 0;
        assert(macro_left(t, size) < size.w);
        assert(a == c(macro_left(t, size), macro_row(t, size)));
        assert(b == c(macro_right(t, size), macro_row(t, size)));
    }
}

/// A flat frame of one colour.
pub fn solid_uyvy(size: Size, rgb: [u8; 3]) -> (out: Vec<u8>)
    requires
        macro_width(size.w) * 4 * size.h <= usize::MAX,
    ensures
        frame_of(out@, size, |x: int, y: int| rgb),
{
    let px = move |x: u32, y: u32| -> (c: [u8; 3])
        ensures
            c == rgb,
    { rgb };
    let out = build_uyvy(size, px);
    proof { lemma_frame_of(out@, size, px, |x: int, y: int| rgb); }
    out
}

/// EBU 75% bars, the same eight in the same order as the fill shader.
pub const BARS_75: [[u8; 3]; 8] = [
    [191, 191, 191],
    [191, 191, 0],
    [0, 191, 191],
    [0, 191, 0],
    [191, 0, 191],
    [191, 0, 0],
    [0, 0, 191],
    [0, 0, 0],
];

/// Which of the eight bars column `x` of a `w`-wide raster falls in.
pub open spec fn bar_index(x: int, w: int) -> int {
    let width = if w >= 1 { w } else { 1 };
    if (x * 8) / width < 7 { (x * 8) / width } else { 7 }
}

pub open spec fn bar_colour(x: int, w: int) -> [u8; 3] {
    BARS_75[bar_index(x, w)]
}

/// EBU 75% bars across the raster, white-ish on the left to black on the
/// right.
pub fn bars_uyvy(size: Size) -> (out: Vec<u8>)
    requires
        macro_width(size.w) * 4 * size.h <= usize::MAX,
    ensures
        frame_of(out@, size, |x: int, y: int| bar_colour(x, size.w as int)),
{
    let w = size.w;
    let px = move |x: u32, y: u32| -> (c: [u8; 3])
        ensures
            c == bar_colour(x as int, w as int),
    {
        let width: u64 = if w >= 1 { w as u64 } else { 1 };
        let q = (x as u64 * 8) / width;
        let bar = if q < 7 { q as usize } else { 7 };
        BARS_75[bar]
    };
    let out = build_uyvy(size, px);
    proof { lemma_frame_of(out@, size, px, |x: int, y: int| bar_colour(x, size.w as int)); }
    out
}

/// The grey of column `x` in a horizontal ramp across a `w`-wide raster.
pub open spec fn ramp_level(x: int, w: int) -> u8 {
    ((x * 255) / (if w >= 1 { w } else { 1 })) as u8
}

/// A horizontal luma ramp. Useful for looking at a scaler, useless for exact
/// assertions.
pub fn gradient_uyvy(size: Size) -> (out: Vec<u8>)
    requires
        macro_width(size.w) * 4 * size.h <= usize::MAX,
        size.h > 0 ==> (size.w as int - 1) * 255 <= u32::MAX,
    ensures
        frame_of(out@, size, |x: int, y: int| {
            let v = ramp_level(x, size.w as int);
            [v, v, v]
        }),
{
    let w = size.w;
    let px = move |x: u32, y: u32| -> (c: [u8; 3])
        requires
            x < w,
            (w as int - 1) * 255 <= u32::MAX,
        ensures
            c == ({
                let v = ramp_level(x as int, w as int);
                [v, v, v]
            }),
    {
        let width = if w >= 1 { w } else { 1 };
        assert((x as int * 255) / (width as int) < 256) by (nonlinear_arith)
            requires x < w, width == w, w >= 1;
        let v = (x * 255 / width) as u8;
        [v, v, v]
    };
    assert forall|x: u32, y: u32| x < size.w && y < size.h implies #[trigger] px.requires((x, y)) by {}
    let out = build_uyvy(size, px);
    proof {
        lemma_frame_of(out@, size, px, |x: int, y: int| {
            let v = ramp_level(x, size.w as int);
            [v, v, v]
        });
    }
    out
}

/// Red, green, blue and white blocks, clockwise from top-left.
pub open spec fn quadrant_spec(x: int, y: int, size: Size) -> [u8; 3] {
    let left = x < size.w / 2;
    let top = y < size.h / 2;
    if top && left {
        [255, 0, 0]
    } else if top {
        [0, 255, 0]
    } else if !left {
        [0, 0, 255]
    } else {
        [255, 255, 255]
    }
}

pub fn quadrant_colour(x: u32, y: u32, size: Size) -> (c: [u8; 3])
    ensures
        c == quadrant_spec(x as int, y as int, size),
{
    let left = x < size.w / 2;
    let top = y < size.h / 2;
    if top && left {
        [255, 0, 0]
    } else if top {
        [0, 255, 0]
    } else if !left {
        [0, 0, 255]
    } else {
        [255, 255, 255]
    }
}

/// Four large flat blocks: red, green, blue, white, clockwise from top-left.
///
/// The fixture to reach for by default. A small or busy fixture is all texel
/// boundary, so any filtered sample lands between two colours and a readback
/// assertion comes out a few percent off *every* value — which looks exactly
/// like a broken colour conversion and is not one. Big flat regions put the
/// sample point well inside one colour.
pub fn quadrants_uyvy(size: Size) -> (out: Vec<u8>)
    requires
        macro_width(size.w) * 4 * size.h <= usize::MAX,
    ensures
        frame_of(out@, size, |x: int, y: int| quadrant_spec(x, y, size)),
{
    let px = move |x: u32, y: u32| -> (c: [u8; 3])
        ensures
            c == quadrant_spec(x as int, y as int, size),
    { quadrant_colour(x, y, size) };
    let out = build_uyvy(size, px);
    proof { lemma_frame_of(out@, size, px, |x: int, y: int| quadrant_spec(x, y, size)); }
    out
}

} // verus!
