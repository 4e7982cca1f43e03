//! Where frames come from: the hand-off between capture and the frame path,
//! and the generated source for a machine with no card.
use vstd::prelude::*;
use crate::geom::Size;
use crate::pattern::{bars_uyvy, cb_of, cr_of, frame_of, macro_width, rgb_to_ycbcr, row_bytes, y_of, bar_colour};

verus! {

/// One captured frame, copied out of the driver's buffer.
///
/// The copy is not avoidable and not worth mourning: the SDK's pointer is only
/// valid for the duration of its callback, so *something* has to copy before
/// the render thread can look at it.
#[derive(Debug)]
pub struct CapturedFrame {
    pub bytes: Vec<u8>,
    pub row_bytes: u32,
    pub size: Size,
    pub no_signal: bool,
    pub seq: u64,
}

impl Clone for CapturedFrame {
    fn clone(&self) -> (f: Self)
        ensures
            f.bytes@ == self.bytes@,
            f.row_bytes == self.row_bytes,
            f.size == self.size,
            f.no_signal == self.no_signal,
            f.seq == self.seq,
    {
        let bytes = self.bytes.clone();
        assert(bytes@ =~= self.bytes@);
        CapturedFrame {
            bytes,
            row_bytes: self.row_bytes,
            size: self.size,
            no_signal: self.no_signal,
            seq: self.seq,
        }
    }
}

/// The hand-off between the capture callback and the render thread.
///
/// Latest-wins, one slot deep. A queue would be wrong here: this is live video,
/// and a frame that arrived while the renderer was busy is *stale* — showing it
/// late is worse than skipping it, and letting a queue grow turns a momentary
/// hiccup into permanent latency.
#[derive(Debug)]
pub struct FrameSlot {
    pub frame: Option<CapturedFrame>,
    /// How many frames have been put, wrapping.
    pub seq: u64,
}

/// `after` is `before` with this frame put in: numbered one past the last
/// put, and nothing else left in the slot.
pub open spec fn put_spec(before: FrameSlot, after: FrameSlot, bytes: Seq<u8>, row_bytes: u32, size: Size, no_signal: bool) -> bool {
    &&& after.seq == before.seq.wrapping_add(1)
    &&& after.frame is Some
    &&& after.frame->0.bytes@ == bytes
    &&& after.frame->0.row_bytes == row_bytes
    &&& after.frame->0.size == size
    &&& after.frame->0.no_signal == no_signal
    &&& after.frame->0.seq == after.seq
}

/// Whether the slot has a frame newer than `since` to hand out.
pub open spec fn offers(slot: FrameSlot, since: u64) -> bool {
    slot.frame is Some && slot.frame->0.seq > since
}

impl FrameSlot {
    pub fn new() -> (s: Self)
        ensures
            s.frame is None,
            s.seq == 0,
    {
        FrameSlot { frame: None, seq: 0 }
    }

    /// Replace whatever is in the slot with this frame, numbered one past the
    /// last. The buffer is reused when the shape has not changed, which is
    /// every frame in the steady state.
    pub fn put(&mut self, bytes: &[u8], row_bytes: u32, size: Size, no_signal: bool)
        ensures
            put_spec(*old(self), *final(self), bytes@, row_bytes, size, no_signal),
    {
        let seq = self.seq.wrapping_add(1);
        self.seq = seq;
        let reuse = match &self.frame {
            Some(f) => f.bytes.len() == bytes.len(),
            None => false,
        };
        if reuse {
            let mut f = self.frame.take().unwrap();
            let n = bytes.len();
            let mut i: usize = 0;
            while i < n
                invariant
                    n == bytes@.len(),
                    f.bytes@.len() == n,
                    i <= n,
                    forall|j: int| 0 <= j < i ==> f.bytes@[j] == bytes@[j],
                decreases n - i,
            {
                f.bytes.set(i, bytes[i]);
                i += 1;
            }
            assert(f.bytes@ =~= bytes@);
            f.row_bytes = row_bytes;
            f.size = size;
            f.no_signal = no_signal;
            f.seq = seq;
            self.frame = Some(f);
        } else {
            self.frame = Some(CapturedFrame {
                bytes: vstd::slice::slice_to_vec(bytes),
                row_bytes,
                size,
                no_signal,
                seq,
            });
        }
    }

    /// The newest frame, if it is newer than `since`.
    pub fn take_newer_than(&self, since: u64) -> (r: Option<CapturedFrame>)
        ensures
            r is Some <==> offers(*self, since),
            r matches Some(f) ==> {
                &&& f.bytes@ == self.frame->0.bytes@
                &&& f.row_bytes == self.frame->0.row_bytes
                &&& f.size == self.frame->0.size
                &&& f.no_signal == self.frame->0.no_signal
                &&& f.seq == self.frame->0.seq
            },
    {
        match &self.frame {
            Some(f) => if f.seq > since { Some(f.clone()) } else { None },
            None => None,
        }
    }
}

/// The byte of the marker column at position `k` of its macropixel: a
/// 235-grey pair, U Y V Y.
pub open spec fn marker_byte(k: int) -> u8 {
    let white: [u8; 3] = [235, 235, 235];
    if k == 0 {
        cb_of(white)
    } else if k == 2 {
        cr_of(white)
    } else {
        y_of(white)
    }
}

/// Frames in one sweep of the marker: four seconds at 50p.
pub const SWEEP_FRAMES: u64 = 200;

/// The step of its sweep that the marker is at on tick `tick`: it takes a
/// step every other tick, so a sweep has `SWEEP_FRAMES / 2` steps.
pub open spec fn marker_step(tick: u64) -> int {
    ((tick / 2) % (SWEEP_FRAMES / 2)) as int
}

/// The macropixel column the marker sits in on tick `tick`: step `k` of a
/// sweep is `k / 99` of the way from the left column to the right one,
/// rounded up, so the first step is the left column, the last the right one,
/// and every step after the first is off the left column.
pub open spec fn marker_column(tick: u64, size: Size) -> int {
    let last = macro_width(size.w) as int - 1;
    (marker_step(tick) * last + (SWEEP_FRAMES / 2 - 2) as int) / (SWEEP_FRAMES / 2 - 1) as int
}

/// `base` with the marker drawn down column `col` of every row.
pub open spec fn marked(base: Seq<u8>, size: Size, col: int, i: int) -> u8 {
    let stride = (macro_width(size.w) * 4) as int;
    if (i % stride) / 4 == col { marker_byte(i % 4) } else { base[i] }
}

/// Generated frames, for a machine with no card — which is most development,
/// and every demo.
///
/// Deliberately *moving*: a still test card cannot tell you whether the frame
/// path is running or whether you are looking at one frame from ten seconds
/// ago. The marker sweeping across the picture answers that from across a room.
pub struct SyntheticSource {
    size: Size,
    base: Vec<u8>,
    frame: Vec<u8>,
    tick: u64,
}

impl SyntheticSource {
    pub closed spec fn raster(&self) -> Size {
        self.size
    }

    /// The bars underneath the marker.
    pub closed spec fn base_frame(&self) -> Seq<u8> {
        self.base@
    }

    /// The frame last handed out.
    pub closed spec fn current(&self) -> Seq<u8> {
        self.frame@
    }

    /// Frames handed out so far, wrapping.
    pub closed spec fn ticks(&self) -> u64 {
        self.tick
    }

    pub closed spec fn wf(&self) -> bool {
        &&& macro_width(self.size.w) * 4 * self.size.h <= usize::MAX
        &&& self.base@.len() == macro_width(self.size.w) * 4 * self.size.h
        &&& self.frame@.len() == self.base@.len()
    }

    pub fn new(size: Size) -> (s: Self)
        requires
            macro_width(size.w) * 4 * size.h <= usize::MAX,
        ensures
            s.wf(),
            s.raster() == size,
            s.ticks() == 0,
            frame_of(s.base_frame(), size, |x: int, y: int| bar_colour(x, size.w as int)),
            s.current() == s.base_frame(),
    {
        let base = bars_uyvy(size);
        let frame = base.clone();
        assert(frame@ =~= base@);
        SyntheticSource { size, frame, base, tick: 0 }
    }

    pub fn size(&self) -> (s: Size)
        ensures
            s == self.raster(),
    {
        self.size
    }

    /// The row stride of the frames handed out.
    pub fn row_bytes(&self) -> (n: u32)
        requires
            macro_width(self.raster().w) * 4 <= u32::MAX,
        ensures
            n == macro_width(self.raster().w) * 4,
    {
        row_bytes(self.size)
    }

    /// Next frame: the bars, with a bright column sweeping left to right once
    /// every four seconds at 50p, whatever the width: one sweep is
    /// `SWEEP_FRAMES` frames.
    ///
    /// The raster must have a column for the marker to sweep across, and a
    /// row stride that fits a `u32`.
    pub fn next_frame(&mut self) -> (f: &[u8])
        requires
            old(self).wf(),
            old(self).raster().w > 0,
            macro_width(old(self).raster().w) * 4 <= u32::MAX,
        ensures
            final(self).wf(),
            final(self).raster() == old(self).raster(),
            final(self).base_frame() == old(self).base_frame(),
            final(self).ticks() == old(self).ticks().wrapping_add(1),
            f@ == final(self).current(),
            f@.len() == old(self).base_frame().len(),
            forall|i: int| 0 <= i < f@.len() ==> #[trigger] f@[i] == marked(
                old(self).base_frame(),
                old(self).raster(),
                marker_column(old(self).ticks(), old(self).raster()),
                i,
            ),
    {
        let n = self.base.len();
        let mut i: usize = 0;
        while i < n
            invariant
                n == self.base@.len(),
                self.frame@.len() == n,
                i <= n,
                forall|j: int| 0 <= j < i ==> self.frame@[j] == self.base@[j],
                self.base@ == old(self).base@,
                self.size == old(self).size,
                self.tick == old(self).tick,
            decreases n - i,
        {
            let b = self.base[i];
            self.frame.set(i, b);
            i += 1;
        }
        let stride = row_bytes(self.size) as usize;
        let macro_w = (self.size.w / 2 + self.size.w % 2) as usize;
        let step: u64 = (self.tick / 2) % (SWEEP_FRAMES / 2);
        let last: u64 = macro_w as u64 - 1;
        assert(step * last + 98 <= 99 * last + 98) by (nonlinear_arith)
            requires step < 100;
        let pos64: u64 = (step * last + (SWEEP_FRAMES / 2 - 2)) / (SWEEP_FRAMES / 2 - 1);
        assert(pos64 <= last) by (nonlinear_arith)
            requires pos64 == (step * last + 98) / 99, step < 100;
        let pos = pos64 as usize;
        assert(pos == marker_column(old(self).tick, old(self).size));
        let white = rgb_to_ycbcr([235, 235, 235]);
        let h = self.size.h as usize;
        let ghost col = pos as int;
        let mut y: usize = 0;
        while y < h
            invariant
                stride == macro_width(self.size.w) * 4,
                macro_w == macro_width(self.size.w),
                stride > 0,
                pos < macro_w,
                col == pos,
                h == self.size.h,
                n == stride * h,
                n == self.base@.len(),
                self.frame@.len() == n,
                y <= h,
                white[0] == y_of([235u8, 235u8, 235u8]),
                white[1] == cb_of([235u8, 235u8, 235u8]),
                white[2] == cr_of([235u8, 235u8, 235u8]),
                forall|j: int| 0 <= j < n ==> #[trigger] self.frame@[j] == if j / (stride as int) < y && (j % (stride as int)) / 4 == col {
                    marker_byte(j % 4)
                } else {
                    self.base@[j]
                },
                self.base@ == old(self).base@,
                self.size == old(self).size,
                self.tick == old(self).tick,
            decreases h - y,
        {
            assert(y * stride + stride <= n) by (nonlinear_arith)
                requires y < h, n == stride * h;
            let row = y * stride;
            let at = row + pos * 4;
            let ghost before = self.frame@;
            self.frame.set(at, white[1]);
            self.frame.set(at + 1, white[0]);
            self.frame.set(at + 2, white[2]);
            self.frame.set(at + 3, white[0]);
            assert forall|j: int| 0 <= j < n implies #[trigger] self.frame@[j] == if j / (stride as int) < y + 1 && (j % (stride as int)) / 4 == col {
                marker_byte(j % 4)
            } else {
                self.base@[j]
            } by {
                let s = stride as int;
                lemma_row_col(j, s, y as int, pos as int);
                if at <= j < at + 4 {
                    assert(j / s == y && (j % s) / 4 == col && j % 4 == j - at);
                } else {
                    assert(self.frame@[j] == before[j]);
                }
            }
            y += 1;
        }
        self.tick = self.tick.wrapping_add(1);
        assert forall|j: int| 0 <= j < n implies #[trigger] self.frame@[j] == marked(
            old(self).base@, old(self).size, col, j) by {
            let s = stride as int;
            assert(j / s < h) by (nonlinear_arith) requires 0 <= j < n, n == s * h, s > 0;
        }
        self.frame.as_slice()
    }
}

/// Index `j` lies in row `y`, macropixel `p`, exactly when it is one of the
/// four bytes at `y * s + 4p`.
proof fn lemma_row_col(j: int, s: int, y: int, p: int)
    requires
        s > 0,
        0 <= j,
        0 <= y,
        0 <= p,
        4 * p + 4 <= s,
        s % 4 == 0,
    ensures
        (y * s + 4 * p <= j < y * s + 4 * p + 4) <==> (j / s == y && (j % s) / 4 == p),
        (y * s + 4 * p <= j < y * s + 4 * p + 4) ==> j % 4 == j - (y * s + 4 * p),
        j / s != y ==> (j < y * s || j >= y * s + s),
{
    assert((y * s + 4 * p <= j < y * s + 4 * p + 4) ==> (j / s == y && (j % s) / 4 == p)) by (nonlinear_arith)
        requires s > 0, 0 <= j, 0 <= y, 0 <= p, 4 * p + 4 <= s;
    assert((j / s == y && (j % s) / 4 == p) ==> (y * s + 4 * p <= j < y * s + 4 * p + 4)) by (nonlinear_arith)
        requires s > 0, 0 <= j, 0 <= y, 0 <= p, 4 * p + 4 <= s;
    let k = s / 4;
    let m = y * k + p;
    assert(y * s + 4 * p == m * 4) by (nonlinear_arith)
        requires s == 4 * k, m == y * k + p;
    if y * s + 4 * p <= j < y * s + 4 * p + 4 {
        vstd::arithmetic::div_mod::lemma_fundamental_div_mod_converse(j, 4, m, j - m * 4);
    }
    assert(j / s != y ==> (j < y * s || j >= y * s + s)) by (nonlinear_arith)
        requires s > 0, 0 <= j, 0 <= y;
}

} // verus!
