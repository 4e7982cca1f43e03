//! DeckLink capture and playback, as built without the Blackmagic SDK.
//!
//! ## Two independent things, reported separately
//!
//! * **Was SDI compiled in?** [`available`]. The shim needs the Blackmagic SDK
//!   headers *at build time*, and they are licence-gated, so a build without
//!   them has no SDI at all.
//! * **Is there a card?** [`list_devices`]. Finding devices needs Desktop Video
//!   installed *at run time*.
//!
//! A machine can easily have one and not the other, and the two failures look
//! nothing alike from the user's chair. They are never collapsed into one
//! "DeckLink not working" message.
//!
//! This build has no SDK, so every call refuses with [`Error::NotCompiledIn`]
//! — not an empty device list, which is the *other* failure. Everything above
//! is written against this shape, so the routing, the previews and the
//! synthetic input all work; only SDI is missing.
use vstd::prelude::*;
use crate::format::{FrameRate, VideoFormat};
use crate::geom::Size;
use crate::text::{decimal, push_decimal};

verus! {

#[derive(Debug)]
pub enum Error {
    NotCompiledIn,
    Sdk(String),
}

impl Error {
    pub open spec fn message_spec(&self) -> Seq<char> {
        match self {
            Error::NotCompiledIn => "this build has no DeckLink support: it was compiled without the Blackmagic SDK. Rebuild with DECKLINK_SDK_DIR pointing at a copy."@,
            Error::Sdk(s) => "DeckLink: "@ + s@,
        }
    }

    pub fn message(&self) -> (s: String)
        ensures
            s@ == self.message_spec(),
    {
        let mut s = String::new();
        match self {
            Error::NotCompiledIn => s.append("this build has no DeckLink support: it was compiled without the Blackmagic SDK. Rebuild with DECKLINK_SDK_DIR pointing at a copy."),
            Error::Sdk(detail) => {
                s.append("DeckLink: ");
                s.append(detail.as_str());
            },
        }
        s
    }
}

/// One DeckLink sub-device.
#[derive(Debug, Clone, PartialEq, Eq)]
pub struct Device {
    /// `BMDDeckLinkPersistentID` — stable across reboots and reordering, so it
    /// is what a show file remembers rather than an index.
    pub persistent_id: i64,
    pub name: String,
    /// Index within the physical card.
    pub sub_device: u32,
    pub has_input: bool,
    pub has_output: bool,
    /// False when the card's current profile has this sub-device switched off.
    /// Such a sub-device still appears in the list and offers no display modes.
    pub active: bool,
    /// Whether this sub-device does input and output simultaneously.
    pub full_duplex: bool,
}

impl Device {
    pub open spec fn menu_label_spec(&self) -> Seq<char> {
        if !self.active {
            self.name@ + " — inactive in this card's profile"@
        } else {
            self.name@
        }
    }

    /// What to show in a device menu, including why a port is unusable.
    pub fn menu_label(&self) -> (s: String)
        ensures
            s@ == self.menu_label_spec(),
    {
        let mut s = self.name.clone();
        if !self.active {
            s.append(" — inactive in this card's profile");
        }
        s
    }
}

/// Which way a sub-device carries video, as the device table reads.
pub open spec fn direction_spec(d: Device) -> Seq<char> {
    if d.has_input && d.has_output {
        "both"@
    } else if d.has_input {
        "in"@
    } else if d.has_output {
        "out"@
    } else {
        "-"@
    }
}

impl Device {
    pub fn direction(&self) -> (s: &'static str)
        ensures
            s@ == direction_spec(*self),
    {
        if self.has_input && self.has_output {
            "both"
        } else if self.has_input {
            "in"
        } else if self.has_output {
            "out"
        } else {
            "-"
        }
    }

    pub fn duplex(&self) -> (s: &'static str)
        ensures
            s@ == (if self.full_duplex { "full"@ } else { "half"@ }),
    {
        if self.full_duplex { "full" } else { "half" }
    }

    /// An inactive sub-device is not a broken one, and the table says so.
    pub fn state(&self) -> (s: &'static str)
        ensures
            s@ == (if self.active { "active"@ } else { "INACTIVE in this card's profile"@ }),
    {
        if self.active { "active" } else { "INACTIVE in this card's profile" }
    }
}

/// Whether any listed sub-device is switched off by the card's profile, in
/// which case the listing explains what that means.
pub fn any_inactive(devices: &[Device]) -> (b: bool)
    ensures
        b == exists|i: int| 0 <= i < devices@.len() && !(#[trigger] devices@[i]).active,
{
    let mut i: usize = 0;
    while i < devices.len()
        invariant
            i <= devices@.len(),
            forall|j: int| 0 <= j < i ==> (#[trigger] devices@[j]).active,
        decreases devices@.len() - i,
    {
        if !devices[i].active {
            return true;
        }
        i += 1;
    }
    false
}

/// One frame off the wire. Valid only for the duration of the callback.
pub struct CapturedFrame<'a> {
    pub bytes: &'a [u8],
    pub row_bytes: u32,
    pub size: Size,
    /// What the card says the source rate is, when it knows.
    pub rate: Option<FrameRate>,
    /// The card synthesised this frame because nothing is arriving.
    pub no_signal: bool,
}

/// Counters from a running output. `buffered` is the one to watch: a value that
/// walks steadily up or down means the app's clock and the card's disagree.
#[derive(Debug, Clone, Copy, PartialEq, Eq, Structural)]
pub struct OutputStats {
    pub scheduled: i64,
    pub completed: i64,
    pub late: i64,
    pub dropped: i64,
    pub buffered: i32,
}

impl Default for OutputStats {
    fn default() -> (s: Self)
        ensures
            s == (OutputStats { scheduled: 0, completed: 0, late: 0, dropped: 0, buffered: 0 }),
    {
        OutputStats { scheduled: 0, completed: 0, late: 0, dropped: 0, buffered: 0 }
    }
}

/// Whether this build has SDI support compiled in at all.
pub fn available() -> (b: bool)
    ensures
        !b,
{
    false
}

/// Every DeckLink sub-device the driver can see, active or not.
pub fn list_devices() -> (r: Result<Vec<Device>, Error>)
    ensures
        r matches Err(Error::NotCompiledIn),
{
    Err(Error::NotCompiledIn)
}

/// How many of `d` are active in the card's current profile.
pub open spec fn active_count(d: Seq<Device>) -> nat
    decreases d.len(),
{
    if d.len() == 0 {
        0
    } else {
        active_count(d.drop_last()) + if d.last().active { 1nat } else { 0nat }
    }
}

/// The one-line status, from whether SDI is compiled in and what listing the
/// devices gave.
pub open spec fn status_spec(compiled_in: bool, devices: Result<Seq<Device>, Seq<char>>) -> Seq<char> {
    if !compiled_in {
        "DeckLink: not compiled in (built without the Blackmagic SDK)"@
    } else {
        match devices {
            Err(msg) => "DeckLink: "@ + msg,
            Ok(d) => if d.len() == 0 {
                "DeckLink: compiled in, no devices found (is Desktop Video installed?)"@
            } else {
                "DeckLink: "@ + decimal(d.len()) + " sub-device"@ + (if d.len() == 1 { ""@ } else { "s"@ })
                    + ", "@ + decimal(active_count(d)) + " active in the current profile"@
            },
        }
    }
}

pub open spec fn listing_view(r: Result<Vec<Device>, Error>) -> Result<Seq<Device>, Seq<char>> {
    match r {
        Ok(v) => Ok(v@),
        Err(e) => Err(e.message_spec()),
    }
}

/// The status line for given facts.
pub fn status_line_for(compiled_in: bool, devices: &Result<Vec<Device>, Error>) -> (s: String)
    ensures
        s@ == status_spec(compiled_in, listing_view(*devices)),
{
    let mut s = String::new();
    if !compiled_in {
        s.append("DeckLink: not compiled in (built without the Blackmagic SDK)");
        return s;
    }
    match devices {
        Err(e) => {
            s.append("DeckLink: ");
            let m = e.message();
            s.append(m.as_str());
        },
        Ok(d) => {
            if d.len() == 0 {
                s.append("DeckLink: compiled in, no devices found (is Desktop Video installed?)");
            } else {
                let mut active: u64 = 0;
                let mut i: usize = 0;
                while i < d.len()
                    invariant
                        i <= d@.len(),
                        active == active_count(d@.subrange(0, i as int)),
                        active <= i,
                    decreases d@.len() - i,
                {
                    assert(d@.subrange(0, i as int + 1).drop_last() =~= d@.subrange(0, i as int));
                    if d[i].active {
                        active = active + 1;
                    }
                    i += 1;
                }
                assert(d@.subrange(0, d@.len() as int) =~= d@);
                s.append("DeckLink: ");
                push_decimal(&mut s, d.len() as u64);
                s.append(" sub-device");
                if d.len() != 1 {
                    s.append("s");
                } else {
                    s.append("");
                }
                s.append(", ");
                push_decimal(&mut s, active);
                s.append(" active in the current profile");
            }
        },
    }
    s
}

/// A one-line summary for the UI and the logs, covering both failure modes.
pub fn status_line() -> (s: String)
    ensures
        s@ == "DeckLink: not compiled in (built without the Blackmagic SDK)"@,
{
    let compiled_in = available();
    let devices = if compiled_in { list_devices() } else { Err(Error::NotCompiledIn) };
    status_line_for(compiled_in, &devices)
}

/// A capture from one sub-device. This build cannot open one.
pub struct Capture {
    persistent_id: i64,
}

impl Capture {
    pub fn open<F>(persistent_id: i64, handler: F) -> (r: Result<Self, Error>)
        where F: Fn(CapturedFrame<'_>) + Send + Sync + 'static,
        ensures
            r matches Err(Error::NotCompiledIn),
    {
        Err(Error::NotCompiledIn)
    }
}

/// Scheduled playback on one sub-device. This build cannot open one.
pub struct Playback {
    format: VideoFormat,
}

impl Playback {
    pub fn open(persistent_id: i64, format: VideoFormat) -> (r: Result<Self, Error>)
        ensures
            r matches Err(Error::NotCompiledIn),
    {
        Err(Error::NotCompiledIn)
    }

    /// The format this playback was opened at.
    pub closed spec fn opened_at(&self) -> VideoFormat {
        self.format
    }

    pub fn format(&self) -> (f: VideoFormat)
        ensures
            f == self.opened_at(),
    {
        self.format
    }

    pub fn schedule(&self, uyvy: &[u8], row_bytes: u32) -> (r: Result<(), Error>)
        ensures
            r matches Err(Error::NotCompiledIn),
    {
        Err(Error::NotCompiledIn)
    }

    pub fn stats(&self) -> (s: OutputStats)
        ensures
            s == (OutputStats { scheduled: 0, completed: 0, late: 0, dropped: 0, buffered: 0 }),
    {
        OutputStats::default()
    }
}

} // verus!
