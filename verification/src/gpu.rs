//! The byte-level decisions of the GPU path: row alignment, de-padding a
//! readback, checking an upload, what each output draws, and the small
//! structures handed between the frame path and the UI.
use vstd::prelude::*;
use crate::geom::Size;
use crate::show::{OutputId, Pattern, PlanSource};
use crate::text::push_decimal;

verus! {

/// A buffer copy's `bytes_per_row` must be a multiple of this.
///
/// It matters more here than it looks: an HD UYVY row is 3840 bytes, which
/// happens to be 15 × 256, so the naive "just memcpy it" path works perfectly
/// at 1080p and then corrupts every frame the first time somebody selects a
/// raster whose row is not a multiple of 256.
pub const COPY_ALIGN: u32 = 256;

/// wgpu's `COPY_BYTES_PER_ROW_ALIGNMENT`, read from wgpu itself.
///
/// Trusted: wgpu-types defines the constant as 256, which is what the
/// contract says; nothing else is claimed.
#[verifier::external_body]
pub(crate) fn copy_align() -> (a: u32)
    ensures
        a == COPY_ALIGN,
{
    wgpu::COPY_BYTES_PER_ROW_ALIGNMENT
}

/// The smallest multiple of `align` that is at least `n`.
pub open spec fn aligned(n: nat, align: nat) -> nat
    recommends
        align > 0,
{
    (((n + align - 1) as nat) / align) * align
}

/// Round `n` up to the next multiple of `align`.
pub fn align_up(n: u32, align: u32) -> (r: u32)
    requires
        align > 0,
        aligned(n as nat, align as nat) <= u32::MAX,
    ensures
        r == aligned(n as nat, align as nat),
        r >= n,
        r % align == 0,
        r < n + align,
{
    let q: u64 = (n / align) as u64 + if n % align == 0 { 0 } else { 1 };
    assert(q == ((n + align - 1) as int) / (align as int)) by (nonlinear_arith)
        requires q == n / align + if n % align == 0 { 0int } else { 1int }, align > 0;
    assert(q * align >= n && q * align < n + align && (q * align) % (align as int) == 0) by (nonlinear_arith)
        requires q == n / align + if n % align == 0 { 0int } else { 1int }, align > 0;
    assert(q * align <= u32::MAX);
    (q * align as u64) as u32
}

/// Copy `h` rows of `row` bytes out of a buffer whose rows are `padded`
/// bytes apart, into one tightly packed buffer.
///
/// Not an exotic path — it is every raster whose row is not a multiple of 256
/// — so it is a plain row-at-a-time copy rather than anything clever.
pub fn depad_rows(view: &[u8], row: usize, padded: usize, h: usize) -> (out: Vec<u8>)
    requires
        row <= padded,
        row * h <= usize::MAX,
        h > 0 ==> (h - 1) * padded + row <= view@.len(),
    ensures
        out@.len() == row * h,
        forall|y: int, k: int| 0 <= y < h && 0 <= k < row ==> #[trigger] out@[y * row + k] == view@[y * padded + k],
{
    let mut out: Vec<u8> = Vec::new();
    let vlen = view.len();
    let mut y: usize = 0;
    while y < h
        invariant
            vlen == view@.len(),
            y <= h,
            row <= padded,
            row * h <= usize::MAX,
            h > 0 ==> (h - 1) * padded + row <= view@.len(),
            out@.len() == y * row,
            forall|yy: int, k: int| 0 <= yy < y && 0 <= k < row ==> #[trigger] out@[yy * row + k] == view@[yy * padded + k],
        decreases h - y,
    {
        assert(y * padded + row <= view@.len()) by (nonlinear_arith)
            requires y < h, (h - 1) * padded + row <= view@.len(), padded >= 0;
        assert((y + 1) * row <= row * h) by (nonlinear_arith) requires y < h;
        let src = y * padded;
        let ghost before = out@;
        let mut k: usize = 0;
        while k < row
            invariant
                vlen == view@.len(),
                k <= row,
                src == y * padded,
                src + row <= view@.len(),
                out@.len() == y * row + k,
                forall|j: int| 0 <= j < before.len() ==> out@[j] == before[j],
                before.len() == y * row,
                forall|j: int| 0 <= j < k ==> #[trigger] out@[y * row + j] == view@[src + j],
            decreases row - k,
        {
            out.push(view[src + k]);
            k += 1;
        }
        assert forall|yy: int, kk: int| 0 <= yy < y + 1 && 0 <= kk < row implies #[trigger] out@[yy * row + kk] == view@[yy * padded + kk] by {
            if yy < y {
                assert(yy * row + kk < y * row) by (nonlinear_arith) requires yy < y, kk < row, 0 <= kk;
                assert(out@[yy * row + kk] == before[yy * row + kk]);
            }
        }
        assert((y + 1) * row == y * row + row) by (nonlinear_arith);
        y += 1;
    }
    assert(y * row == row * h) by (nonlinear_arith) requires y == h;
    out
}

/// The refusal for a captured frame too short for its raster and stride.
pub open spec fn short_frame_spec(len: nat, size: Size, row_bytes: u32, needed: nat) -> Seq<char> {
    "short frame: "@ + crate::text::decimal(len) + " bytes for "@ + crate::text::decimal(size.w as nat) + "x"@
        + crate::text::decimal(size.h as nat) + " at stride "@ + crate::text::decimal(row_bytes as nat) + ", need "@
        + crate::text::decimal(needed)
}

/// Check that a captured UYVY frame of `len` bytes holds `size.h` rows at a
/// stride of `row_bytes` — the stride DeckLink reports, which is not always
/// `width * 2`. A short frame is refused rather than read past its end.
pub fn check_upload(len: usize, size: Size, row_bytes: u32) -> (r: Result<(), String>)
    ensures
        r is Ok <==> len >= row_bytes as nat * size.h as nat,
        r matches Err(msg) ==> msg@ == short_frame_spec(len as nat, size, row_bytes, row_bytes as nat * size.h as nat),
{
    assert(row_bytes as u64 * size.h as u64 <= u64::MAX) by (nonlinear_arith);
    let needed: u64 = row_bytes as u64 * size.h as u64;
    if (len as u64) < needed {
        let mut msg = String::new();
        msg.append("short frame: ");
        push_decimal(&mut msg, len as u64);
        msg.append(" bytes for ");
        push_decimal(&mut msg, size.w as u64);
        msg.append("x");
        push_decimal(&mut msg, size.h as u64);
        msg.append(" at stride ");
        push_decimal(&mut msg, row_bytes as u64);
        msg.append(", need ");
        push_decimal(&mut msg, needed);
        return Err(msg);
    }
    Ok(())
}

/// What the GPU draws for one output this frame.
#[derive(Debug, Clone, Copy, PartialEq, Eq, Structural)]
pub enum Draw {
    /// Crop and scale the live input.
    Crop,
    /// A generated picture: `0` legal black, `1` bars.
    Fill(u32),
}

pub open spec fn draw_spec<R>(source: PlanSource<R>, input_live: bool) -> Draw {
    if source is Crop && input_live {
        Draw::Crop
    } else if source == PlanSource::<R>::Pattern(Pattern::Bars) {
        Draw::Fill(1)
    } else {
        Draw::Fill(0)
    }
}

/// Everything that is not a crop of a live input is a generated picture. A
/// crop whose input has gone away lands there too, which is what makes losing
/// the source a black frame rather than a frozen one.
pub fn draw_for<R>(source: &PlanSource<R>, input_live: bool) -> (d: Draw)
    ensures
        d == draw_spec(*source, input_live),
{
    match source {
        PlanSource::Crop { .. } if input_live => Draw::Crop,
        PlanSource::Pattern(Pattern::Bars) => Draw::Fill(1),
        _ => Draw::Fill(0),
    }
}

/// A single `u32` payload, padded to a legal 16-byte uniform block. Used by
/// the decode, pack and fill stages, which each need exactly one number.
#[derive(Debug, Clone, Copy, PartialEq, Eq)]
pub struct ScalarUniform {
    pub value: u32,
    pub _pad: [u32; 3],
}

impl ScalarUniform {
    pub fn new(value: u32) -> (u: Self)
        ensures
            u.value == value,
            u._pad == [0u32, 0u32, 0u32],
    {
        ScalarUniform { value, _pad: [0, 0, 0] }
    }
}

/// Thumbnails of the input and of every output, as tightly packed RGBA.
#[derive(Debug, Clone)]
pub struct Previews {
    pub input_size: Size,
    pub input: Vec<u8>,
    pub output_size: Size,
    pub outputs: Vec<(OutputId, Vec<u8>)>,
}

impl Default for Previews {
    fn default() -> (p: Self)
        ensures
            p.input_size == (Size { w: 0, h: 0 }),
            p.input@.len() == 0,
            p.output_size == (Size { w: 0, h: 0 }),
            p.outputs@.len() == 0,
    {
        Previews { input_size: Size::new(0, 0), input: Vec::new(), output_size: Size::new(0, 0), outputs: Vec::new() }
    }
}

} // verus!
