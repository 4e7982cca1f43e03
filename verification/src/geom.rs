//! Raster sizes, fit modes and how hard a magnification pushes the source.
use vstd::prelude::*;

verus! {

/// A raster size in pixels.
#[derive(Debug, Clone, Copy, PartialEq, Eq, Structural)]
pub struct Size {
    pub w: u32,
    pub h: u32,
}

impl Size {
    pub fn new(w: u32, h: u32) -> (s: Self)
        ensures
            s.w == w,
            s.h == h,
    {
        Size { w, h }
    }
}

impl Default for Size {
    fn default() -> (s: Self)
        ensures
            s.w == 0,
            s.h == 0,
    {
        Size { w: 0, h: 0 }
    }
}

/// How a region that does not match the output aspect is placed on the output.
///
/// Same vocabulary as WebLinked's `--scaling fit|fill|stretch`, deliberately —
/// an operator who knows one should not have to learn the other.
#[derive(Debug, Clone, Copy, PartialEq, Eq, Structural)]
pub enum FitMode {
    /// Whole region visible, bars where the aspect does not match.
    Fit,
    /// Output filled, region cropped where the aspect does not match.
    Fill,
    /// Region distorted to fill the output.
    Stretch,
}

impl Default for FitMode {
    fn default() -> (f: Self)
        ensures
            f == FitMode::Fit,
    {
        FitMode::Fit
    }
}

/// How hard a given magnification is pushing the source.
///
/// Thresholds are a judgement about *pictures*, not a hardware limit: at 1:1 or
/// below every output pixel is backed by a real source pixel; past 2x a 1080p
/// source is carrying a shot that wanted a camera, and it shows on a big screen.
#[derive(Debug, Clone, Copy, PartialEq, Eq, Structural)]
pub enum ScaleQuality {
    /// At or below 1:1 — no invented detail.
    Native,
    /// Up to 2x. Softening, still perfectly usable.
    Soft,
    /// Beyond 2x. Visibly upscaled.
    Heavy,
}

} // verus!
