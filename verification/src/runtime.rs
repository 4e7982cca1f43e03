//! The frame path's decisions: where the input comes from, which outputs
//! have a card open, and reading a raster size off the command line.
use vstd::prelude::*;
use crate::decklink::{Error, Playback};
use crate::format::{FrameRate, VideoFormat};
use crate::source::{CapturedFrame, FrameSlot};
use crate::geom::Size;
use crate::show::{DeviceRef, OutputId};
use crate::text::{decimal, push_decimal};
use std::collections::BTreeMap;

verus! {

broadcast use vstd::std_specs::btree::group_btree_axioms, vstd::laws_cmp::group_laws_cmp;

/// Where the input comes from.
#[derive(Debug, Clone, PartialEq)]
pub enum InputSource {
    /// A DeckLink sub-device, by persistent id.
    DeckLink { persistent_id: i64, name: String },
    /// Generated bars with a moving marker. What runs when there is no card.
    Synthetic { size: Size },
}

impl InputSource {
    pub open spec fn label_spec(&self) -> Seq<char> {
        match self {
            InputSource::DeckLink { name, .. } => name@,
            InputSource::Synthetic { size } => "synthetic bars "@ + decimal(size.w as nat) + "x"@
                + decimal(size.h as nat),
        }
    }

    pub fn label(&self) -> (s: String)
        ensures
            s@ == self.label_spec(),
    {
        match self {
            InputSource::DeckLink { name, .. } => name.clone(),
            InputSource::Synthetic { size } => {
                let mut s = String::new();
                s.append("synthetic bars ");
                push_decimal(&mut s, size.w as u64);
                s.append("x");
                push_decimal(&mut s, size.h as u64);
                s
            },
        }
    }
}

/// An open output card, and what it was opened for.
pub struct PlaybackSlot {
    pub output: OutputId,
    pub persistent_id: i64,
    pub format: VideoFormat,
    pub playback: Playback,
}

/// No two of these cards are open for the same output.
pub open spec fn one_card_per_output(s: Seq<PlaybackSlot>) -> bool {
    forall|i: int, j: int| 0 <= i < j < s.len() ==> (#[trigger] s[i]).output != (#[trigger] s[j]).output
}

/// Taking one card out of a set with one card per output leaves one card
/// per output.
proof fn lemma_remove_keeps_one_per_output(s: Seq<PlaybackSlot>, k: int)
    requires
        one_card_per_output(s),
        0 <= k < s.len(),
    ensures
        one_card_per_output(s.remove(k)),
{
    let r = s.remove(k);
    assert forall|i: int, j: int| 0 <= i < j < r.len() implies (#[trigger] r[i]).output != (#[trigger] r[j]).output by {
        let a = if i < k { i } else { i + 1 };
        let b = if j < k { j } else { j + 1 };
        assert(r[i] == s[a] && r[j] == s[b] && a < b);
    }
}

/// The position of the card open for `output` in `slots`, if any.
fn position_of(slots: &Vec<PlaybackSlot>, output: OutputId) -> (r: Option<usize>)
    ensures
        r matches Some(i) ==> i < slots@.len() && slots@[i as int].output == output,
        r is None ==> forall|i: int| 0 <= i < slots@.len() ==> (#[trigger] slots@[i]).output != output,
{
    let mut i: usize = 0;
    while i < slots.len()
        invariant
            i <= slots@.len(),
            forall|j: int| 0 <= j < i ==> (#[trigger] slots@[j]).output != output,
        decreases slots@.len() - i,
    {
        if slots[i].output.0 == output.0 {
            return Some(i);
        }
        i += 1;
    }
    None
}

/// The running set of output cards, at most one per output.
pub struct Playbacks {
    slots: Vec<PlaybackSlot>,
}

impl View for Playbacks {
    type V = Seq<PlaybackSlot>;

    closed spec fn view(&self) -> Seq<PlaybackSlot> {
        self.slots@
    }
}

impl Playbacks {
    /// Every running set holds at most one card per output.
    #[verifier::type_invariant]
    closed spec fn one_per_output(&self) -> bool {
        one_card_per_output(self.slots@)
    }

    pub fn new() -> (p: Self)
        ensures
            p@.len() == 0,
    {
        Playbacks { slots: Vec::new() }
    }

    pub fn len(&self) -> (n: usize)
        ensures
            n == self@.len(),
            one_card_per_output(self@),
    {
        proof { use_type_invariant(self); }
        self.slots.len()
    }

    pub fn is_empty(&self) -> (b: bool)
        ensures
            b == (self@.len() == 0),
    {
        self.slots.len() == 0
    }

    /// Close every card: a DeckLink cannot change display mode under a
    /// running schedule, so a format change closes them all and lets the
    /// next reconcile reopen.
    pub fn clear(&mut self)
        ensures
            final(self)@.len() == 0,
    {
        self.slots = Vec::new();
    }

    /// The `i`-th open card.
    pub fn slot(&self, i: usize) -> (s: &PlaybackSlot)
        requires
            i < self@.len(),
        ensures
            *s == self@[i as int],
    {
        &self.slots[i]
    }

    /// The card open for this output, if any: there is at most one.
    pub fn find(&self, output: OutputId) -> (s: Option<&PlaybackSlot>)
        ensures
            s matches Some(x) ==> x.output == output && exists|i: int| 0 <= i < self@.len() && self@[i] == *x,
            s matches Some(x) ==> forall|i: int| 0 <= i < self@.len() && (#[trigger] self@[i]).output == output ==> self@[i] == *x,
            s is None ==> forall|i: int| 0 <= i < self@.len() ==> (#[trigger] self@[i]).output != output,
    {
        proof { use_type_invariant(self); }
        match position_of(&self.slots, output) {
            Some(i) => {
                assert(forall|j: int| 0 <= j < self@.len() && (#[trigger] self@[j]).output == output ==> j == i);
                Some(&self.slots[i])
            },
            None => None,
        }
    }
}

/// The card an output wants: the persistent id of the last entry for it that
/// names a device.
pub open spec fn wanted(devices: Seq<(OutputId, Option<DeviceRef>)>, output: OutputId) -> Option<i64>
    decreases devices.len(),
{
    if devices.len() == 0 {
        None
    } else if devices.last().0 == output && devices.last().1 is Some {
        Some(devices.last().1->0.persistent_id)
    } else {
        wanted(devices.drop_last(), output)
    }
}

/// A card stays open only while its output still wants that same card at the
/// current format.
pub open spec fn still_wanted(devices: Seq<(OutputId, Option<DeviceRef>)>, format: VideoFormat) -> spec_fn(PlaybackSlot) -> bool {
    |s: PlaybackSlot| wanted(devices, s.output) == Some(s.persistent_id) && s.format == format
}

fn wanted_exec(devices: &[(OutputId, Option<DeviceRef>)], output: OutputId) -> (w: Option<i64>)
    ensures
        w == wanted(devices@, output),
{
    let mut i = devices.len();
    assert(devices@.subrange(0, i as int) =~= devices@);
    while i > 0
        invariant
            i <= devices@.len(),
            wanted(devices@, output) == wanted(devices@.subrange(0, i as int), output),
        decreases i,
    {
        let ghost prefix = devices@.subrange(0, i as int);
        assert(prefix.drop_last() =~= devices@.subrange(0, i as int - 1));
        let (id, dev) = &devices[i - 1];
        if id.0 == output.0 {
            if let Some(d) = dev {
                return Some(d.persistent_id);
            }
        }
        i -= 1;
    }
    None
}

/// Open, close and reopen cards so the running set matches the show.
///
/// An output with no card assigned is *not* an error and not skipped upstream:
/// it is still planned, still rendered, and its frame simply has nowhere to go.
/// A card that will not open is left closed and tried again next time — one
/// dead port must not take the others off air — and in a build without the
/// SDK no card ever opens, so the set only ever shrinks to what is still
/// wanted.
pub fn reconcile_playbacks(
    playbacks: &mut Playbacks,
    devices: &[(OutputId, Option<DeviceRef>)],
    format: VideoFormat,
)
    ensures
        final(playbacks)@ == old(playbacks)@.filter(still_wanted(devices@, format)),
        one_card_per_output(final(playbacks)@),
{
    proof { use_type_invariant(&*playbacks); }
    let ghost old_slots = playbacks.slots@;
    let ghost keep = still_wanted(devices@, format);
    let mut slots: Vec<PlaybackSlot> = Vec::new();
    std::mem::swap(&mut slots, &mut playbacks.slots);
    let n = slots.len();
    let mut i: usize = 0;
    let mut k: usize = 0;
    while k < n
        invariant
            n == old_slots.len(),
            one_card_per_output(old_slots),
            k <= n,
            keep == still_wanted(devices@, format),
            slots@ == old_slots.subrange(0, k as int).filter(keep) + old_slots.subrange(k as int, n as int),
            one_card_per_output(slots@),
            i == old_slots.subrange(0, k as int).filter(keep).len(),
        decreases n - k,
    {
        let ghost done = old_slots.subrange(0, k as int);
        assert(old_slots.subrange(0, k as int + 1) =~= done.push(old_slots[k as int]));
        proof { done.lemma_filter_push(old_slots[k as int], keep); }
        assert(slots@[i as int] == old_slots[k as int]);
        let output = slots[i].output;
        let w = wanted_exec(devices, output);
        let same_card = match w {
            Some(p) => p == slots[i].persistent_id,
            None => false,
        };
        if same_card && slots[i].format == format {
            assert(slots@ =~= done.filter(keep).push(old_slots[k as int]) + old_slots.subrange(k as int + 1, n as int));
            i += 1;
        } else {
            proof { lemma_remove_keeps_one_per_output(slots@, i as int); }
            slots.remove(i);
            assert(slots@ =~= done.filter(keep) + old_slots.subrange(k as int + 1, n as int));
        }
        k += 1;
    }
    assert(old_slots.subrange(0, n as int) =~= old_slots);
    // Open what is wanted and not yet running.
    let mut j: usize = 0;
    while j < devices.len()
        invariant
            j <= devices@.len(),
            slots@ == old_slots.filter(keep),
            one_card_per_output(slots@),
        decreases devices@.len() - j,
    {
        let (id, dev) = &devices[j];
        if let Some(d) = dev {
            let current = wanted_exec(devices, *id);
            let is_current = match current {
                Some(p) => p == d.persistent_id,
                None => false,
            };
            if is_current && position_of(&slots, *id).is_none() {
                match Playback::open(d.persistent_id, format) {
                    Ok(playback) => {
                        slots.push(PlaybackSlot {
                            output: *id,
                            persistent_id: d.persistent_id,
                            format,
                            playback,
                        });
                    },
                    Err(_) => {},
                }
            }
        }
        j += 1;
    }
    playbacks.slots = slots;
}

// ---- the frame path's clock and its choices each tick ------------------------

/// Nanoseconds in a second.
pub const NANOS_PER_SECOND: u64 = 1_000_000_000;

/// One frame at `rate`, in nanoseconds, to the nearest: the rational is kept
/// exact until this one rounding, so 59.94 is 16 683 333 ns and not whatever a
/// float made of it. A rate with a zero in it has no period; it gets 20 ms,
/// because a zero period would spin the frame path flat out.
pub open spec fn period_spec(rate: FrameRate) -> nat {
    if rate.num == 0 || rate.den == 0 {
        20_000_000
    } else {
        ((2 * (rate.den as nat) * 1_000_000_000 + (rate.num as nat)) / (2 * (rate.num as nat))) as nat
    }
}

/// The frame period of a format, in nanoseconds.
pub fn frame_period_nanos(f: VideoFormat) -> (n: u64)
    ensures
        n == period_spec(f.rate),
{
    let num = f.rate.num as u64;
    let den = f.rate.den as u64;
    if num == 0 || den == 0 {
        return 20_000_000;
    }
    assert(2 * den * 1_000_000_000 + num <= u64::MAX) by (nonlinear_arith)
        requires den <= u32::MAX, num <= u32::MAX;
    (2 * den * NANOS_PER_SECOND + num) / (2 * num)
}

/// How long the input may go without a frame before it counts as lost: three
/// frame periods, floored at 200 ms.
///
/// A watchdog rather than "no frame this tick": at 25p into a 50p output half
/// the ticks legitimately have no new frame, and treating that as a lost source
/// would strobe every output. Long enough to ride out a mode change, short
/// enough that an unplugged cable is obvious.
pub open spec fn grace_spec(period: nat) -> nat {
    if 3 * period > 200_000_000 { 3 * period } else { 200_000_000 }
}

/// Whether a live input has now been silent long enough to call it lost.
pub fn input_lost(live: bool, since_good: u64, period: u64) -> (lost: bool)
    ensures
        lost == (live && since_good > grace_spec(period as nat)),
{
    if !live {
        return false;
    }
    let three = (period as u128) * 3;
    let grace: u128 = if three > 200_000_000 { three } else { 200_000_000 };
    (since_good as u128) > grace
}

/// What the clock says to do at the end of a tick.
#[derive(Debug, Clone, Copy, PartialEq, Eq, Structural)]
pub enum Pace {
    /// Early: wait this many nanoseconds for the deadline.
    Sleep(u64),
    /// On time, or only a little late: go straight on.
    Go,
    /// So far behind that catching up would be a burst of frames nobody will
    /// see: carry on from this tick count instead.
    Rebase(u64),
}

/// Deadlines count from tick zero, never `now + period`: adding a period to the
/// current time folds in every scheduling delay, and the output rate drifts
/// low — which shows up hours later as the card's buffer draining. `elapsed`
/// is the time since the clock started, in nanoseconds.
pub open spec fn pace_spec(elapsed: nat, tick: nat, period: nat) -> Pace {
    let deadline = tick * period;
    if deadline > elapsed {
        Pace::Sleep((deadline - elapsed) as u64)
    } else if elapsed - deadline > 10 * period {
        Pace::Rebase(if period == 0 { tick as u64 } else { (elapsed / period) as u64 })
    } else {
        Pace::Go
    }
}

/// Decide how to pace the frame path after tick `tick`.
pub fn pace(elapsed: u64, tick: u64, period: u64) -> (p: Pace)
    requires
        tick * period <= u64::MAX,
    ensures
        p == pace_spec(elapsed as nat, tick as nat, period as nat),
{
    let deadline = tick * period;
    if deadline > elapsed {
        Pace::Sleep(deadline - elapsed)
    } else if ((elapsed - deadline) as u128) > (period as u128) * 10 {
        if period == 0 {
            Pace::Rebase(tick)
        } else {
            Pace::Rebase(elapsed / period)
        }
    } else {
        Pace::Go
    }
}

/// Follow the show's output format. On a change every open card is running the
/// old mode, and a DeckLink cannot change display mode under a running
/// schedule, so they are all closed for the reconcile to reopen. Returns
/// whether the format changed.
pub fn follow_format(current: &mut VideoFormat, want: VideoFormat, playbacks: &mut Playbacks) -> (changed: bool)
    ensures
        changed == (*old(current) != want),
        *final(current) == want,
        changed ==> final(playbacks)@.len() == 0,
        !changed ==> final(playbacks)@ == old(playbacks)@,
        one_card_per_output(final(playbacks)@),
{
    proof { use_type_invariant(&*playbacks); }
    let same = current.size.w == want.size.w && current.size.h == want.size.h
        && current.rate.num == want.rate.num && current.rate.den == want.rate.den
        && current.scan == want.scan;
    if same {
        return false;
    }
    *current = want;
    playbacks.clear();
    true
}

/// The captured frame to upload this tick, if any: one newer than `last_seq`
/// that carries a picture. A newer frame is marked seen either way; one the
/// card synthesised because nothing is on the wire is not an upload and not an
/// error — the card is still ticking.
pub fn next_capture(slot: &FrameSlot, last_seq: &mut u64) -> (f: Option<CapturedFrame>)
    ensures
        (slot.frame is Some && slot.frame->0.seq > *old(last_seq)) ==> {
            &&& *final(last_seq) == slot.frame->0.seq
            &&& f is Some <==> !slot.frame->0.no_signal
        },
        !(slot.frame is Some && slot.frame->0.seq > *old(last_seq)) ==> {
            &&& *final(last_seq) == *old(last_seq)
            &&& f is None
        },
        f matches Some(c) ==> {
            &&& c.bytes@ == slot.frame->0.bytes@
            &&& c.row_bytes == slot.frame->0.row_bytes
            &&& c.size == slot.frame->0.size
            &&& c.seq == slot.frame->0.seq
            &&& !c.no_signal
        },
{
    match slot.take_newer_than(*last_seq) {
        Some(frame) => {
            *last_seq = frame.seq;
            if frame.no_signal {
                None
            } else {
                Some(frame)
            }
        },
        None => None,
    }
}

/// Hand one rendered frame to the card open for its output, if there is one.
/// A refusal comes back as a message naming the output; an output with no
/// card simply has nowhere to send.
pub fn send_frame(playbacks: &Playbacks, output: OutputId, bytes: &[u8], row_bytes: u32) -> (r: Option<String>)
    ensures
        r is None <==> (forall|i: int| 0 <= i < playbacks@.len() ==> (#[trigger] playbacks@[i]).output != output),
        r matches Some(m) ==> m@ == output.name_spec() + ": "@ + Error::NotCompiledIn.message_spec(),
{
    match playbacks.find(output) {
        Some(p) => match p.playback.schedule(bytes, row_bytes) {
            Ok(()) => None,
            Err(e) => {
                let mut m = output.name();
                m.append(": ");
                let detail = e.message();
                m.append(detail.as_str());
                Some(m)
            },
        },
        None => None,
    }
}

/// The buffer counters the cards in `s` report, keyed by output id: one for
/// each output with a card open. No card ever opens in this build, and a
/// card that is not open reports zero.
pub open spec fn counters_of(s: Seq<PlaybackSlot>) -> Map<u32, i32> {
    Map::new(|k: u32| exists|i: int| 0 <= i < s.len() && (#[trigger] s[i]).output.0 == k, |k: u32| 0i32)
}

/// The per-output buffer counters, keyed by output id.
pub fn buffered_counts(playbacks: &Playbacks) -> (v: BTreeMap<u32, i32>)
    ensures
        v@ == counters_of(playbacks@),
{
    let mut v: BTreeMap<u32, i32> = BTreeMap::new();
    let mut i: usize = 0;
    assert(v@ =~= counters_of(playbacks@.subrange(0, 0)));
    while i < playbacks.len()
        invariant
            i <= playbacks@.len(),
            v@ == counters_of(playbacks@.subrange(0, i as int)),
        decreases playbacks@.len() - i,
    {
        let p = playbacks.slot(i);
        v.insert(p.output.0, p.playback.stats().buffered);
        let ghost before = playbacks@.subrange(0, i as int);
        let ghost after = playbacks@.subrange(0, i as int + 1);
        assert(after =~= before.push(*p));
        assert forall|k: u32| #[trigger] v@.contains_key(k) <==> counters_of(after).contains_key(k) by {
            if k == p.output.0 {
                assert(after[i as int].output.0 == k);
            } else if v@.contains_key(k) {
                let j = choose|j: int| 0 <= j < before.len() && (#[trigger] before[j]).output.0 == k;
                assert(after[j] == before[j]);
            } else if counters_of(after).contains_key(k) {
                let j = choose|j: int| 0 <= j < after.len() && (#[trigger] after[j]).output.0 == k;
                assert(j < before.len());
                assert(after[j] == before[j]);
            }
        }
        assert(v@ =~= counters_of(after));
        i += 1;
    }
    assert(playbacks@.subrange(0, playbacks@.len() as int) =~= playbacks@);
    v
}

/// Why a `WIDTHxHEIGHT` size did not parse.
#[derive(Debug, Clone, Copy, PartialEq, Eq, Structural)]
pub enum SizeError {
    /// No `x` or `X` between the two numbers.
    NoSeparator,
    /// The part before the separator is not a number.
    BadWidth,
    /// The part after it is not a number.
    BadHeight,
}

/// Whitespace as `str::trim` counts it: the Unicode `White_Space` property.
pub open spec fn is_whitespace(c: char) -> bool {
    ||| ('\u{9}' <= c && c <= '\u{d}')
    ||| c == ' '
    ||| c == '\u{85}'
    ||| c == '\u{a0}'
    ||| c == '\u{1680}'
    ||| ('\u{2000}' <= c && c <= '\u{200a}')
    ||| c == '\u{2028}'
    ||| c == '\u{2029}'
    ||| c == '\u{202f}'
    ||| c == '\u{205f}'
    ||| c == '\u{3000}'
}

pub fn is_whitespace_exec(c: char) -> (b: bool)
    ensures
        b == is_whitespace(c),
{
    ('\u{9}' <= c && c <= '\u{d}') || c == ' ' || c == '\u{85}' || c == '\u{a0}' || c == '\u{1680}'
        || ('\u{2000}' <= c && c <= '\u{200a}') || c == '\u{2028}' || c == '\u{2029}' || c == '\u{202f}'
        || c == '\u{205f}' || c == '\u{3000}'
}

/// Leading whitespace dropped.
pub open spec fn trim_start(s: Seq<char>) -> Seq<char>
    decreases s.len(),
{
    if s.len() > 0 && is_whitespace(s[0]) {
        trim_start(s.drop_first())
    } else {
        s
    }
}

/// Trailing whitespace dropped.
pub open spec fn trim_end(s: Seq<char>) -> Seq<char>
    decreases s.len(),
{
    if s.len() > 0 && is_whitespace(s.last()) {
        trim_end(s.drop_last())
    } else {
        s
    }
}

/// `str::trim`.
pub open spec fn trim(s: Seq<char>) -> Seq<char> {
    trim_end(trim_start(s))
}

/// The value of a run of decimal digits.
pub open spec fn digits_value(s: Seq<char>) -> nat
    decreases s.len(),
{
    if s.len() == 0 {
        0
    } else {
        digits_value(s.drop_last()) * 10 + ((s.last() as nat) - 48) as nat
    }
}

/// `u32::from_str`: an optional `+`, then one or more ASCII digits, no larger
/// than `u32::MAX`.
pub open spec fn parse_u32(s: Seq<char>) -> Option<u32> {
    let digits = unsigned_digits(s);
    if digits.len() == 0 {
        None
    } else if !all_digits(digits) {
        None
    } else if digits_value(digits) > u32::MAX {
        None
    } else {
        Some(digits_value(digits) as u32)
    }
}

/// What follows an optional leading `+` (a lone `+` is kept, and is then not
/// a digit).
pub open spec fn unsigned_digits(s: Seq<char>) -> Seq<char> {
    if s.len() > 1 && s[0] == '+' { s.drop_first() } else { s }
}

pub open spec fn all_digits(s: Seq<char>) -> bool {
    forall|i: int| 0 <= i < s.len() ==> crate::text::is_digit(#[trigger] s[i])
}

/// The position of the first `x` or `X`, or -1.
pub open spec fn separator(s: Seq<char>) -> int
    decreases s.len(),
{
    if s.len() == 0 {
        -1
    } else if separator(s.drop_last()) >= 0 {
        separator(s.drop_last())
    } else if s.last() == 'x' || s.last() == 'X' {
        s.len() - 1
    } else {
        -1
    }
}

/// `WIDTHxHEIGHT`, with either case of `x` and spaces allowed around the
/// numbers: `1920x1080`, `1280X720`, ` 640 x 480 `.
pub open spec fn parse_size_spec(s: Seq<char>) -> Result<Size, SizeError> {
    let k = separator(s);
    if k < 0 {
        Err(SizeError::NoSeparator)
    } else if parse_u32(trim(s.subrange(0, k))) is None {
        Err(SizeError::BadWidth)
    } else if parse_u32(trim(s.subrange(k + 1, s.len() as int))) is None {
        Err(SizeError::BadHeight)
    } else {
        Ok(Size {
            w: parse_u32(trim(s.subrange(0, k)))->0,
            h: parse_u32(trim(s.subrange(k + 1, s.len() as int)))->0,
        })
    }
}

proof fn lemma_trim_start(s: Seq<char>, a: int)
    requires
        0 <= a <= s.len(),
        forall|i: int| 0 <= i < a ==> is_whitespace(#[trigger] s[i]),
        a == s.len() || !is_whitespace(s[a]),
    ensures
        trim_start(s) == s.subrange(a, s.len() as int),
    decreases a,
{
    if a == 0 {
        assert(s.subrange(0, s.len() as int) =~= s);
    } else {
        let d = s.drop_first();
        assert forall|i: int| 0 <= i < a - 1 implies is_whitespace(#[trigger] d[i]) by {
            assert(d[i] == s[i + 1]);
        }
        if a - 1 < d.len() {
            assert(d[a - 1] == s[a]);
        }
        lemma_trim_start(d, a - 1);
        assert(d.subrange(a - 1, d.len() as int) =~= s.subrange(a, s.len() as int));
    }
}

proof fn lemma_trim_end(s: Seq<char>, b: int)
    requires
        0 <= b <= s.len(),
        forall|i: int| b <= i < s.len() ==> is_whitespace(#[trigger] s[i]),
        b == 0 || !is_whitespace(s[b - 1]),
    ensures
        trim_end(s) == s.subrange(0, b),
    decreases s.len() - b,
{
    if b == s.len() {
        assert(s.subrange(0, b) =~= s);
    } else {
        let d = s.drop_last();
        assert forall|i: int| b <= i < d.len() implies is_whitespace(#[trigger] d[i]) by {
            assert(d[i] == s[i]);
        }
        if b > 0 {
            assert(d[b - 1] == s[b - 1]);
        }
        assert(is_whitespace(s[s.len() - 1]));
        lemma_trim_end(d, b);
        assert(d.subrange(0, b) =~= s.subrange(0, b));
    }
}

/// The bounds of `cs[lo..hi]` with whitespace trimmed off both ends.
fn trimmed(cs: &Vec<char>, lo: usize, hi: usize) -> (r: (usize, usize))
    requires
        lo <= hi <= cs@.len(),
    ensures
        lo <= r.0 <= r.1 <= hi,
        cs@.subrange(r.0 as int, r.1 as int) == trim(cs@.subrange(lo as int, hi as int)),
{
    let ghost s = cs@.subrange(lo as int, hi as int);
    let mut a = lo;
    while a < hi && is_whitespace_exec(cs[a])
        invariant
            lo <= a <= hi <= cs@.len(),
            forall|i: int| lo <= i < a ==> is_whitespace(#[trigger] cs@[i]),
        decreases hi - a,
    {
        a += 1;
    }
    proof {
        assert forall|i: int| 0 <= i < a - lo implies is_whitespace(#[trigger] s[i]) by {
            assert(s[i] == cs@[lo + i]);
        }
        if a < hi {
            assert(s[a - lo] == cs@[a as int]);
        }
        lemma_trim_start(s, a - lo);
        assert(s.subrange(a - lo, s.len() as int) =~= cs@.subrange(a as int, hi as int));
    }
    let ghost t = cs@.subrange(a as int, hi as int);
    let mut b = hi;
    while b > a && is_whitespace_exec(cs[b - 1])
        invariant
            a <= b <= hi <= cs@.len(),
            forall|i: int| b <= i < hi ==> is_whitespace(#[trigger] cs@[i]),
        decreases b - a,
    {
        b -= 1;
    }
    proof {
        assert forall|i: int| b - a <= i < t.len() implies is_whitespace(#[trigger] t[i]) by {
            assert(t[i] == cs@[a + i]);
        }
        if b > a {
            assert(t[b - a - 1] == cs@[b - 1]);
        }
        lemma_trim_end(t, b - a);
        assert(t.subrange(0, b - a) =~= cs@.subrange(a as int, b as int));
    }
    (a, b)
}

proof fn lemma_digits_grow(s: Seq<char>, k: int)
    requires
        0 <= k <= s.len(),
        forall|i: int| 0 <= i < s.len() ==> crate::text::is_digit(#[trigger] s[i]),
    ensures
        digits_value(s) >= digits_value(s.subrange(0, k)),
    decreases s.len() - k,
{
    if k == s.len() {
        assert(s.subrange(0, k) =~= s);
    } else {
        let d = s.drop_last();
        assert forall|i: int| 0 <= i < d.len() implies crate::text::is_digit(#[trigger] d[i]) by {
            assert(d[i] == s[i]);
        }
        lemma_digits_grow(d, k);
        assert(d.subrange(0, k) =~= s.subrange(0, k));
    }
}

/// `u32::from_str` on `cs[lo..hi]`.
fn parse_u32_exec(cs: &Vec<char>, lo: usize, hi: usize) -> (r: Option<u32>)
    requires
        lo <= hi <= cs@.len(),
    ensures
        r == parse_u32(cs@.subrange(lo as int, hi as int)),
{
    let ghost s = cs@.subrange(lo as int, hi as int);
    let start = if hi - lo > 1 && cs[lo] == '+' { lo + 1 } else { lo };
    let ghost digits = unsigned_digits(s);
    if hi > lo {
        assert(s[0] == cs@[lo as int]);
    }
    assert(digits =~= cs@.subrange(start as int, hi as int));
    if start == hi {
        return None;
    }
    let mut acc: u64 = 0;
    let mut j = start;
    while j < hi
        invariant
            start <= j <= hi <= cs@.len(),
            digits == cs@.subrange(start as int, hi as int),
            digits == unsigned_digits(s),
            s == cs@.subrange(lo as int, hi as int),
            forall|i: int| start <= i < j ==> crate::text::is_digit(#[trigger] cs@[i]),
            acc == digits_value(cs@.subrange(start as int, j as int)),
            acc <= u32::MAX,
        decreases hi - j,
    {
        let c = cs[j];
        if !('0' <= c && c <= '9') {
            assert(digits[j - start] == c);
            assert(!crate::text::is_digit(digits[j - start]));
            assert(!all_digits(digits));
            return None;
        }
        assert(cs@.subrange(start as int, j as int + 1).drop_last() =~= cs@.subrange(start as int, j as int));
        let d = (c as u32 - 48) as u64;
        acc = acc * 10 + d;
        j += 1;
        if acc > u32::MAX as u64 {
            proof {
                if forall|i: int| 0 <= i < digits.len() ==> crate::text::is_digit(#[trigger] digits[i]) {
                    lemma_digits_grow(digits, j - start);
                    assert(digits.subrange(0, j - start) =~= cs@.subrange(start as int, j as int));
                    assert(digits_value(digits) > u32::MAX);
                } else {
                    assert(exists|i: int| 0 <= i < digits.len() && !crate::text::is_digit(#[trigger] digits[i]));
                }
                assert(parse_u32(s) is None);
            }
            return None;
        }
    }
    assert(cs@.subrange(start as int, hi as int) =~= digits);
    assert forall|i: int| 0 <= i < digits.len() implies crate::text::is_digit(#[trigger] digits[i]) by {
        assert(digits[i] == cs@[start + i]);
    }
    Some(acc as u32)
}

/// Read a `WIDTHxHEIGHT` raster size, the way people type them.
pub fn parse_size(s: &str) -> (r: Result<Size, SizeError>)
    ensures
        r == parse_size_spec(s@),
{
    let cs = crate::text::chars_of(s);
    let n = cs.len();
    let mut k: usize = 0;
    while k < n && cs[k] != 'x' && cs[k] != 'X'
        invariant
            n == cs@.len(),
            k <= n,
            forall|i: int| 0 <= i < k ==> cs@[i] != 'x' && cs@[i] != 'X',
        decreases n - k,
    {
        k += 1;
    }
    proof { lemma_separator(cs@, if k < n { k as int } else { -1 }); }
    if k == n {
        return Err(SizeError::NoSeparator);
    }
    let (a, b) = trimmed(&cs, 0, k);
    let w = parse_u32_exec(&cs, a, b);
    assert(cs@.subrange(a as int, b as int).subrange(0, (b - a) as int) =~= cs@.subrange(a as int, b as int));
    let w = match w {
        Some(v) => v,
        None => return Err(SizeError::BadWidth),
    };
    let (c, d) = trimmed(&cs, k + 1, n);
    let h = match parse_u32_exec(&cs, c, d) {
        Some(v) => v,
        None => return Err(SizeError::BadHeight),
    };
    Ok(Size::new(w, h))
}

proof fn lemma_separator(s: Seq<char>, k: int)
    requires
        -1 <= k < s.len(),
        k >= 0 ==> (s[k] == 'x' || s[k] == 'X'),
        forall|i: int| 0 <= i < s.len() && (k < 0 || i < k) ==> s[i] != 'x' && s[i] != 'X',
    ensures
        separator(s) == k,
    decreases s.len(),
{
    if s.len() > 0 {
        let d = s.drop_last();
        if k < s.len() - 1 {
            assert forall|i: int| 0 <= i < d.len() && (k < 0 || i < k) implies d[i] != 'x' && d[i] != 'X' by {
                assert(d[i] == s[i]);
            }
            if k >= 0 {
                assert(d[k] == s[k]);
            }
            lemma_separator(d, k);
        } else {
            assert forall|i: int| 0 <= i < d.len() implies d[i] != 'x' && d[i] != 'X' by {
                assert(d[i] == s[i]);
            }
            lemma_separator(d, -1);
        }
    }
}

} // verus!
