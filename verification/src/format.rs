//! Video formats, expressed the way SDI expresses them.
use vstd::prelude::*;
use crate::geom::Size;
use crate::text::{decimal, digit_char, push_char, push_decimal, digit};

verus! {

/// A frame rate as an exact rational.
///
/// Never a float. 59.94 is 60000/1001 and nothing else; storing it as `59.94`
/// and multiplying up is how a scheduled-playback clock accumulates a drift
/// that only shows up as a dropped frame twenty minutes into a show.
#[derive(Debug, Clone, Copy, PartialEq, Eq, Structural)]
pub struct FrameRate {
    pub num: u32,
    pub den: u32,
}

/// Rust's truncating division of integers, as exec code computes it.
pub open spec fn trunc_div(a: int, b: int) -> int
    recommends
        b > 0,
{
    if a >= 0 {
        a / b
    } else {
        -((-a) / b)
    }
}

/// Whether `num/den` lies within one millionth of a whole number: such a
/// rate is named without decimals.
pub open spec fn is_whole_rate(num: nat, den: nat) -> bool {
    den == 0 || ({
        let r = num % den;
        let dist = if r <= den - r { r } else { (den - r) as nat };
        dist * 1_000_000 < den
    })
}

/// `num/den` rounded to the nearest whole number, halves away from zero.
pub open spec fn round_rate(num: nat, den: nat) -> nat {
    if den == 0 {
        0
    } else if 2 * (num % den) >= den {
        num / den + 1
    } else {
        num / den
    }
}

/// `num/den` in hundredths, rounded to the nearest; an exact half goes to
/// the even neighbour.
pub open spec fn rate_hundredths(num: nat, den: nat) -> nat
    recommends
        den > 0,
{
    let q = (num * 100) / den;
    let r = (num * 100) % den;
    if 2 * r > den || (2 * r == den && q % 2 == 1) {
        q + 1
    } else {
        q
    }
}

/// The two digits after the point, for a value in hundredths.
pub open spec fn two_places(h: nat) -> Seq<char> {
    decimal(h / 100).push('.').push(digit_char((h % 100) / 10)).push(digit_char(h % 10))
}

/// How a rate reads on screen: `50`, `25`, `59.94`, `29.97`.
pub open spec fn rate_name(num: nat, den: nat) -> Seq<char> {
    if is_whole_rate(num, den) {
        decimal(round_rate(num, den))
    } else {
        two_places(rate_hundredths(num, den))
    }
}

impl FrameRate {
    pub fn new(num: u32, den: u32) -> (r: Self)
        ensures
            r.num == num,
            r.den == den,
    {
        FrameRate { num, den }
    }

    /// Frame duration in the units of `scale`, for DeckLink's scheduling API
    /// (`ScheduleVideoFrame` takes a time value and a time scale).
    pub fn duration_in(&self, scale: i64) -> (d: i64)
        requires
            self.num != 0 ==> i64::MIN <= scale * self.den <= i64::MAX,
        ensures
            d == (if self.num == 0 { 0 } else { trunc_div(scale * self.den, self.num as int) }),
    {
        if self.num == 0 {
            return 0;
        }
        scale * self.den as i64 / self.num as i64
    }

    /// The rate as it reads in a format name: whole rates without decimals,
    /// fractional ones to two places.
    pub fn name(&self) -> (s: String)
        ensures
            s@ == rate_name(self.num as nat, self.den as nat),
    {
        let mut s = String::new();
        let num = self.num as u64;
        let den = self.den as u64;
        if den == 0 {
            push_decimal(&mut s, 0);
            return s;
        }
        let r = num % den;
        let dist = if r <= den - r { r } else { den - r };
        if dist * 1_000_000 < den {
            let whole = if 2 * r >= den { num / den + 1 } else { num / den };
            push_decimal(&mut s, whole);
        } else {
            let q = (num * 100) / den;
            let rr = (num * 100) % den;
            let h = if 2 * rr > den || (2 * rr == den && q % 2 == 1) { q + 1 } else { q };
            push_decimal(&mut s, h / 100);
            push_char(&mut s, '.');
            push_char(&mut s, digit((h % 100) / 10));
            push_char(&mut s, digit(h % 10));
        }
        s
    }
}

/// Progressive, or one of the two interlaced-ish things SDI does.
#[derive(Debug, Clone, Copy, PartialEq, Eq, Structural)]
pub enum Scan {
    Progressive,
    Interlaced,
    /// Progressive segmented frame — carried as interlaced, but the two fields
    /// are from the same instant, so it must be scaled as a whole frame.
    Psf,
}

impl Scan {
    pub open spec fn suffix_spec(self) -> Seq<char> {
        match self {
            Scan::Progressive => seq!['p'],
            Scan::Interlaced => seq!['i'],
            Scan::Psf => seq!['p', 's', 'f'],
        }
    }

    pub fn suffix(&self) -> (s: &'static str)
        ensures
            s@ == self.suffix_spec(),
    {
        match self {
            Scan::Progressive => {
                proof { reveal_strlit("p"); }
                "p"
            },
            Scan::Interlaced => {
                proof { reveal_strlit("i"); }
                "i"
            },
            Scan::Psf => {
                proof { reveal_strlit("psf"); }
                "psf"
            },
        }
    }
}

impl Default for Scan {
    fn default() -> (s: Self)
        ensures
            s == Scan::Progressive,
    {
        Scan::Progressive
    }
}

/// A complete video format: raster, rate and scan.
#[derive(Debug, Clone, Copy, PartialEq, Eq, Structural)]
pub struct VideoFormat {
    pub size: Size,
    pub rate: FrameRate,
    pub scan: Scan,
}

/// Bytes in one row of 8-bit UYVY: two pixels share a four-byte macropixel,
/// and an odd width is rounded up to a whole one.
pub open spec fn uyvy_row_len(w: nat) -> nat {
    ((w + 1) / 2) * 4
}

/// How a format reads in a menu: `1080p50`, `1080i29.97`, `720p59.94`.
pub open spec fn format_name(f: VideoFormat) -> Seq<char> {
    decimal(f.size.h as nat) + f.scan.suffix_spec() + rate_name(f.rate.num as nat, f.rate.den as nat)
}

impl VideoFormat {
    pub open spec fn of(w: u32, h: u32, num: u32, den: u32, scan: Scan) -> VideoFormat {
        VideoFormat { size: Size { w, h }, rate: FrameRate { num, den }, scan }
    }

    pub fn new(w: u32, h: u32, num: u32, den: u32, scan: Scan) -> (f: Self)
        ensures
            f == VideoFormat::of(w, h, num, den, scan),
    {
        VideoFormat { size: Size { w, h }, rate: FrameRate { num, den }, scan }
    }

    pub fn width(&self) -> (w: u32)
        ensures
            w == self.size.w,
    {
        self.size.w
    }

    pub fn height(&self) -> (h: u32)
        ensures
            h == self.size.h,
    {
        self.size.h
    }

    /// Bytes in one row of 8-bit YUV (UYVY), which is what Kestrel moves over
    /// SDI in both directions: two pixels share a chroma pair, four bytes.
    ///
    /// Odd widths are rounded up — a UYVY macropixel is indivisible, and SDI
    /// rasters are even anyway.
    pub fn uyvy_row_bytes(&self) -> (n: u32)
        requires
            uyvy_row_len(self.size.w as nat) <= u32::MAX,
        ensures
            n == uyvy_row_len(self.size.w as nat),
    {
        let w = self.size.w;
        (w / 2 + w % 2) * 4
    }

    /// The format's name as the UI and the control API show it.
    pub fn name(&self) -> (s: String)
        ensures
            s@ == format_name(*self),
    {
        let mut s = String::new();
        push_decimal(&mut s, self.size.h as u64);
        s.append(self.scan.suffix());
        let rate = self.rate.name();
        s.append(rate.as_str());
        s
    }
}

impl Default for VideoFormat {
    /// 1080p50: the European live-events default, and what the rest of the
    /// fleet's test material is cut at.
    fn default() -> (f: Self)
        ensures
            f == VideoFormat::of(1920, 1080, 50, 1, Scan::Progressive),
    {
        VideoFormat::new(1920, 1080, 50, 1, Scan::Progressive)
    }
}

/// The formats offered in the UI's output-format menu, in menu order.
pub open spec fn menu_formats() -> Seq<VideoFormat> {
    seq![
        VideoFormat::of(1280, 720, 50, 1, Scan::Progressive),
        VideoFormat::of(1280, 720, 60000, 1001, Scan::Progressive),
        VideoFormat::of(1280, 720, 60, 1, Scan::Progressive),
        VideoFormat::of(1920, 1080, 25, 1, Scan::Progressive),
        VideoFormat::of(1920, 1080, 30000, 1001, Scan::Progressive),
        VideoFormat::of(1920, 1080, 25, 1, Scan::Interlaced),
        VideoFormat::of(1920, 1080, 30000, 1001, Scan::Interlaced),
        VideoFormat::of(1920, 1080, 50, 1, Scan::Progressive),
        VideoFormat::of(1920, 1080, 60000, 1001, Scan::Progressive),
        VideoFormat::of(1920, 1080, 60, 1, Scan::Progressive),
        VideoFormat::of(3840, 2160, 25, 1, Scan::Progressive),
        VideoFormat::of(3840, 2160, 30000, 1001, Scan::Progressive),
        VideoFormat::of(3840, 2160, 50, 1, Scan::Progressive),
        VideoFormat::of(3840, 2160, 60000, 1001, Scan::Progressive),
    ]
}

/// The formats offered in the UI's output-format menu.
///
/// A deliberately short list of what a DeckLink actually plays out to a live
/// switcher, rather than every mode the SDK enumerates. The device's own
/// supported-mode list is authoritative at open time; this is the menu.
pub fn common_formats() -> (v: Vec<VideoFormat>)
    ensures
        v@ == menu_formats(),
{
    let v = vec![
        VideoFormat::new(1280, 720, 50, 1, Scan::Progressive),
        VideoFormat::new(1280, 720, 60000, 1001, Scan::Progressive),
        VideoFormat::new(1280, 720, 60, 1, Scan::Progressive),
        VideoFormat::new(1920, 1080, 25, 1, Scan::Progressive),
        VideoFormat::new(1920, 1080, 30000, 1001, Scan::Progressive),
        VideoFormat::new(1920, 1080, 25, 1, Scan::Interlaced),
        VideoFormat::new(1920, 1080, 30000, 1001, Scan::Interlaced),
        VideoFormat::new(1920, 1080, 50, 1, Scan::Progressive),
        VideoFormat::new(1920, 1080, 60000, 1001, Scan::Progressive),
        VideoFormat::new(1920, 1080, 60, 1, Scan::Progressive),
        VideoFormat::new(3840, 2160, 25, 1, Scan::Progressive),
        VideoFormat::new(3840, 2160, 30000, 1001, Scan::Progressive),
        VideoFormat::new(3840, 2160, 50, 1, Scan::Progressive),
        VideoFormat::new(3840, 2160, 60000, 1001, Scan::Progressive),
    ];
    assert(v@ =~= menu_formats());
    v
}

/// No format appears twice in the menu.
pub proof fn the_menu_has_no_duplicates()
    ensures
        menu_formats().no_duplicates(),
{
    let m = menu_formats();
    assert forall|i: int, j: int| 0 <= i < m.len() && 0 <= j < m.len() && i != j implies m[i] != m[j] by {
    }
}

} // verus!
