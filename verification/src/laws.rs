//! What holds of the frame path, the pictures it makes and the control
//! surface's view of the show, whatever the inputs.
use vstd::prelude::*;
use crate::commands::Feed;
use crate::control::{buffered_of, with_body, enable_hint, refusal_text, is_snapshot_of, on_air_of, on_air_spec, plan_for, tally_changed, Runtime, Snapshot};
use crate::decklink::Device;
use crate::pattern::{cb_of, cr_of, frame_of, luma_sum, macro_left, macro_right, macro_row, macro_width, packs, round_ratio, y_of};
use crate::geom::{FitMode, Size};
use crate::runtime::{
    digits_value, grace_spec, pace_spec, parse_size_spec, parse_u32, separator, still_wanted, trim, trim_start,
    unsigned_digits, counters_of, wanted, Pace, PlaybackSlot, SizeError,
};
use crate::text::{decimal, digit_char, is_digit, lemma_decimal_digits};
use crate::format::{trunc_div, FrameRate, VideoFormat};
use crate::show::{first_index, lemma_first_index, IdleFill, Output, OutputId, PlanSource, ShowError, ShowModel};
use crate::show_file::is_first_show;
use crate::source::{marked, marker_byte, marker_column, marker_step, offers, put_spec, FrameSlot, SWEEP_FRAMES};

verus! {

// ---- the pictures ------------------------------------------------------------

/// A solid frame is one macropixel repeated: every macropixel of a frame of
/// one colour holds the same four bytes, U Y V Y.
pub proof fn a_solid_frame_repeats_one_macropixel(out: Seq<u8>, size: Size, rgb: [u8; 3])
    requires
        frame_of(out, size, |x: int, y: int| rgb),
    ensures
        forall|t: int, k: int| 0 <= t < macro_width(size.w) * size.h && 0 <= k < 4 ==>
            #[trigger] out[4 * t + k] == seq![cb_of(rgb), y_of(rgb), cr_of(rgb), y_of(rgb)][k],
{
    assert forall|t: int, k: int| 0 <= t < macro_width(size.w) * size.h && 0 <= k < 4 implies
        #[trigger] out[4 * t + k] == seq![cb_of(rgb), y_of(rgb), cr_of(rgb), y_of(rgb)][k] by {
        let c = |x: int, y: int| rgb;
        assert(packs(out, t, c(macro_left(t, size), macro_row(t, size)), c(macro_right(t, size), macro_row(t, size))));
    }
}

proof fn lemma_round_between(num: int, den: int, lo: int, hi: int)
    requires
        den > 0,
        lo * den <= num <= hi * den,
    ensures
        lo <= round_ratio(num, den) <= hi,
{
    assert(lo <= (2 * num + den) / (2 * den) <= hi) by (nonlinear_arith)
        requires den > 0, lo * den <= num <= hi * den;
}

/// Every colour lands on the legal range: luma on 16..235, chroma on 16..240.
/// Black is the bottom of it and white the top.
pub proof fn every_colour_lands_on_the_legal_range(rgb: [u8; 3])
    ensures
        16 <= y_of(rgb) <= 235,
        16 <= cb_of(rgb) <= 240,
        16 <= cr_of(rgb) <= 240,
        y_of([0u8, 0u8, 0u8]) == 16,
        y_of([255u8, 255u8, 255u8]) == 235,
{
    let l = luma_sum(rgb);
    assert(0 <= l <= 2_550_000);
    lemma_round_between(219 * l + 16 * 2_550_000, 2_550_000, 16, 235);
    assert(-9278 * 255 <= 10000 * rgb[2] - l <= 9278 * 255);
    lemma_round_between(128 * 255 * 9278 + 112 * (10000 * rgb[2] - l), 255 * 9278int, 16, 240);
    assert(-7874 * 255 <= 10000 * rgb[0] - l <= 7874 * 255);
    lemma_round_between(128 * 255 * 7874 + 112 * (10000 * rgb[0] - l), 255 * 7874int, 16, 240);
}

proof fn lemma_round_to_centre(d: int)
    requires
        d > 0,
    ensures
        round_ratio(128 * d, d) == 128,
{
    assert(2 * (128 * d) + d == 128 * (2 * d) + d) by (nonlinear_arith);
    vstd::arithmetic::div_mod::lemma_fundamental_div_mod_converse(2 * (128 * d) + d, 2 * d, 128, d);
}

/// Neutral colours are exactly neutral in chroma, or a grey ramp would tint.
pub proof fn a_grey_has_no_chroma(v: u8)
    ensures
        cb_of([v, v, v]) == 128,
        cr_of([v, v, v]) == 128,
{
    assert(luma_sum([v, v, v]) == 10000 * v);
    lemma_round_to_centre(255 * 9278int);
    lemma_round_to_centre(255 * 7874int);
}

// ---- the hand-off of captured frames -----------------------------------------

/// Latest wins: after two frames are put, the slot hands out the second, and
/// nothing of the first is left to show late.
pub proof fn the_slot_keeps_only_the_newest_frame(
    a: FrameSlot,
    b: FrameSlot,
    c: FrameSlot,
    first: Seq<u8>,
    second: Seq<u8>,
    row_bytes: u32,
    size: Size,
    no_signal: bool,
)
    requires
        put_spec(a, b, first, row_bytes, size, no_signal),
        put_spec(b, c, second, row_bytes, size, no_signal),
    ensures
        c.frame->0.bytes@ == second,
        c.frame->0.seq == a.seq.wrapping_add(1).wrapping_add(1),
        a.seq.wrapping_add(1).wrapping_add(1) > a.seq ==> offers(c, a.seq),
{
}

/// A frame already taken is not handed out again: re-uploading an unchanged
/// frame would be wasted bandwidth every tick.
pub proof fn a_frame_already_seen_is_not_handed_out_again(slot: FrameSlot, since: u64)
    requires
        slot.frame is Some,
        since >= slot.frame->0.seq,
    ensures
        !offers(slot, since),
{
}

// ---- the moving test card ----------------------------------------------------

/// The synthetic picture repeats once a sweep, at any width: the frame handed
/// out `SWEEP_FRAMES` ticks later is the same frame.
pub proof fn the_marker_repeats_every_sweep(base: Seq<u8>, size: Size, tick: u64)
    requires
        tick as int + SWEEP_FRAMES as int <= u64::MAX,
    ensures
        marker_column((tick + SWEEP_FRAMES) as u64, size) == marker_column(tick, size),
        forall|i: int| #[trigger] marked(base, size, marker_column((tick + SWEEP_FRAMES) as u64, size), i)
            == marked(base, size, marker_column(tick, size), i),
{
    let later = (tick + SWEEP_FRAMES) as u64;
    assert(later / 2 == tick / 2 + 100);
    assert((tick / 2 + 100) % 100 == (tick / 2) % 100) by {
        vstd::arithmetic::div_mod::lemma_mod_add_multiples_vanish((tick / 2) as int, 100);
    }
    assert(marker_step(later) == marker_step(tick));
}

/// The first frame is the bars with the marker down the left column, and
/// every frame differs from the bars only in the marker's column: every byte
/// outside it is the bars', every byte inside it the marker's.
pub proof fn a_frame_is_the_bars_and_one_marked_column(base: Seq<u8>, size: Size, tick: u64)
    ensures
        marker_column(0, size) == 0,
        forall|i: int| 0 <= i < base.len() ==> {
            let stride = (macro_width(size.w) * 4) as int;
            let m = #[trigger] marked(base, size, marker_column(tick, size), i);
            &&& (i % stride) / 4 != marker_column(tick, size) ==> m == base[i]
            &&& (i % stride) / 4 == marker_column(tick, size) ==> m == marker_byte(i % 4)
        },
{
    assert(marker_step(0) == 0);
    assert(0 * (macro_width(size.w) as int - 1) == 0);
}

/// Each sweep crosses the whole raster left to right: the marker stays on the
/// raster, holds each position for two ticks, starts a sweep on the left
/// column and ends it on the right one, never moves left within a sweep, and
/// has left the left column after the first step wherever there is room.
pub proof fn the_marker_sweeps_the_whole_raster(size: Size, tick: u64)
    requires
        size.w > 0,
    ensures
        0 <= marker_column(tick, size) < macro_width(size.w),
        marker_step(tick) == 0 ==> marker_column(tick, size) == 0,
        marker_step(tick) == SWEEP_FRAMES / 2 - 1 ==> marker_column(tick, size) == macro_width(size.w) - 1,
        tick % 2 == 0 && tick < u64::MAX ==> marker_column((tick + 1) as u64, size) == marker_column(tick, size),
        tick as int + 2 <= u64::MAX && marker_step(tick) < SWEEP_FRAMES / 2 - 1 ==> {
            &&& marker_step((tick + 2) as u64) == marker_step(tick) + 1
            &&& marker_column(tick, size) <= marker_column((tick + 2) as u64, size)
        },
        macro_width(size.w) > 1 && marker_step(tick) > 0 ==> marker_column(tick, size) > 0,
{
    let last = macro_width(size.w) as int - 1;
    let k = marker_step(tick);
    assert(0 <= k < 100);
    assert(0 <= (k * last + 98) / 99 <= last) by (nonlinear_arith)
        requires 0 <= k < 100, last >= 0;
    if k == 0 {
        assert(k * last == 0) by (nonlinear_arith)
            requires k == 0;
    }
    if k == 99 {
        assert((99 * last + 98) / 99 == last);
    }
    if tick % 2 == 0 && tick < u64::MAX {
        assert((tick + 1) / 2 == tick / 2);
    }
    if tick as int + 2 <= u64::MAX && k < 99 {
        let t2 = (tick + 2) as u64;
        assert(t2 / 2 == tick / 2 + 1);
        vstd::arithmetic::div_mod::lemma_fundamental_div_mod((tick / 2) as int, 100);
        vstd::arithmetic::div_mod::lemma_fundamental_div_mod((tick / 2 + 1) as int, 100);
        vstd::arithmetic::div_mod::lemma_mod_add_multiples_vanish(k + 1, 100);
        assert((tick / 2 + 1) as int == 100 * ((tick / 2) as int / 100) + (k + 1));
        vstd::arithmetic::div_mod::lemma_mod_multiples_vanish((tick / 2) as int / 100, k + 1, 100);
        assert(marker_step(t2) == k + 1);
        assert((k * last + 98) / 99 <= ((k + 1) * last + 98) / 99) by (nonlinear_arith)
            requires 0 <= k, last >= 0;
    }
    if last > 0 && k > 0 {
        assert((k * last + 98) / 99 > 0) by (nonlinear_arith)
            requires k >= 1, last >= 1;
    }
}

// ---- the frame path's clock --------------------------------------------------

/// Sleeping wakes exactly on the tick's deadline, counted from tick zero, so
/// no scheduling delay is ever folded into the next deadline.
pub proof fn sleeping_wakes_on_the_deadline(elapsed: u64, tick: u64, period: u64)
    requires
        tick * period <= u64::MAX,
    ensures
        pace_spec(elapsed as nat, tick as nat, period as nat) matches Pace::Sleep(d) ==> elapsed + d == tick * period,
        pace_spec(elapsed as nat, tick as nat, period as nat) is Sleep <==> tick * period > elapsed,
{
}

/// Falling far behind re-bases onto the period now running rather than
/// sprinting through the missed ones, and only when more than ten periods
/// behind.
pub proof fn a_rebase_lands_on_the_current_period(elapsed: u64, tick: u64, period: u64)
    requires
        period > 0,
        tick * period <= u64::MAX,
    ensures
        pace_spec(elapsed as nat, tick as nat, period as nat) matches Pace::Rebase(k) ==> {
            &&& k * period <= elapsed < (k + 1) * period
            &&& elapsed > tick * period + 10 * period
        },
{
    let q = elapsed / period;
    assert(q * period <= elapsed < (q + 1) * period) by (nonlinear_arith)
        requires period > 0, q == elapsed / period;
}

/// A live input is never declared lost over a gap that a slower source or a
/// mode change explains: anything up to 200 ms, or up to three frame periods.
pub proof fn a_short_gap_never_loses_the_input(since_good: nat, period: nat)
    ensures
        since_good <= 200_000_000 ==> since_good <= grace_spec(period),
        since_good <= 3 * period ==> since_good <= grace_spec(period),
{
}

// ---- sizes on the command line -----------------------------------------------

proof fn lemma_digits_value_of_decimal(n: nat)
    ensures
        digits_value(decimal(n)) == n,
    decreases n,
{
    let r = n % 10;
    assert(r < 10);
    assert((digit_char(r) as nat) == 48 + r);
    if n >= 10 {
        lemma_digits_value_of_decimal(n / 10);
        let d = decimal(n / 10);
        assert(decimal(n).drop_last() =~= d);
        assert(decimal(n).last() == digit_char(r));
        assert((n / 10) * 10 + r == n) by (nonlinear_arith) requires r == n % 10;
        let s = decimal(n);
        assert(s.len() > 0);
        assert(digits_value(s) == digits_value(s.drop_last()) * 10 + (((s.last() as nat) - 48) as nat));
        assert(digits_value(s.drop_last()) == n / 10);
        assert(((s.last() as nat) - 48) as nat == r);
    } else {
        assert(decimal(n).drop_last() =~= Seq::<char>::empty());
        assert(r == n);
        assert(decimal(n).last() == digit_char(n));
        let s = decimal(n);
        assert(digits_value(s) == digits_value(s.drop_last()) * 10 + (((s.last() as nat) - 48) as nat));
        assert(digits_value(s.drop_last()) == 0);
    }
}

proof fn lemma_no_whitespace_to_trim(s: Seq<char>)
    requires
        forall|i: int| 0 <= i < s.len() ==> is_digit(#[trigger] s[i]),
    ensures
        trim(s) == s,
{
    if s.len() > 0 {
        assert(is_digit(s[0]));
        assert(is_digit(s[s.len() - 1]));
    }
    assert(trim_start(s) == s);
}

proof fn lemma_decimal_parses(n: nat)
    requires
        n <= u32::MAX,
    ensures
        parse_u32(trim(decimal(n))) == Some(n as u32),
{
    lemma_decimal_digits(n);
    lemma_no_whitespace_to_trim(decimal(n));
    lemma_digits_value_of_decimal(n);
    let s = decimal(n);
    assert(!is_digit('+'));
    assert(unsigned_digits(s) == s) by {
        if s.len() > 1 {
            assert(is_digit(s[0]));
        }
    }
}

proof fn lemma_separator_after_digits(a: Seq<char>, rest: Seq<char>)
    requires
        forall|i: int| 0 <= i < a.len() ==> is_digit(#[trigger] a[i]),
    ensures
        separator(a + seq!['x'] + rest) == a.len(),
    decreases rest.len(),
{
    let s = a + seq!['x'] + rest;
    if rest.len() == 0 {
        assert(s.drop_last() =~= a);
        lemma_no_separator_in_digits(a);
    } else {
        assert(s.drop_last() =~= a + seq!['x'] + rest.drop_last());
        lemma_separator_after_digits(a, rest.drop_last());
    }
}

proof fn lemma_no_separator_in_digits(a: Seq<char>)
    requires
        forall|i: int| 0 <= i < a.len() ==> is_digit(#[trigger] a[i]),
    ensures
        separator(a) == -1,
    decreases a.len(),
{
    if a.len() > 0 {
        let d = a.drop_last();
        assert forall|i: int| 0 <= i < d.len() implies is_digit(#[trigger] d[i]) by {
            assert(d[i] == a[i]);
        }
        lemma_no_separator_in_digits(d);
        assert(is_digit(a.last()));
    }
}

/// A raster size written the way the library writes one, `WIDTHxHEIGHT` in
/// decimal, reads back as the same size.
pub proof fn a_written_size_reads_back(size: Size)
    ensures
        parse_size_spec(decimal(size.w as nat) + seq!['x'] + decimal(size.h as nat)) == Ok::<Size, SizeError>(size),
{
    let w = decimal(size.w as nat);
    let h = decimal(size.h as nat);
    let s = w + seq!['x'] + h;
    lemma_decimal_digits(size.w as nat);
    lemma_separator_after_digits(w, h);
    assert(s.subrange(0, w.len() as int) =~= w);
    assert(s.subrange(w.len() as int + 1, s.len() as int) =~= h);
    lemma_decimal_parses(size.w as nat);
    lemma_decimal_parses(size.h as nat);
}

// ---- frame rates --------------------------------------------------------------

/// The whole point of keeping a rate as a rational: in a time scale of the
/// rate's own numerator, a frame lasts exactly its denominator — 1001 ticks of
/// 1/60000 s at 59.94, with nothing lost to rounding.
pub proof fn a_frame_lasts_exactly_its_rational(rate: FrameRate)
    requires
        rate.num > 0,
    ensures
        trunc_div(rate.num * rate.den, rate.num as int) == rate.den,
{
    assert((rate.num * rate.den) / (rate.num as int) == rate.den) by (nonlinear_arith)
        requires rate.num > 0;
}

// ---- the output cards --------------------------------------------------------

/// Reconciling again with nothing changed closes nothing more: a card kept
/// once is still wanted the second time.
pub proof fn reconciling_twice_is_reconciling_once(
    slots: Seq<PlaybackSlot>,
    devices: Seq<(OutputId, Option<crate::show::DeviceRef>)>,
    format: VideoFormat,
)
    ensures
        slots.filter(still_wanted(devices, format)).filter(still_wanted(devices, format))
            == slots.filter(still_wanted(devices, format)),
{
    let keep = still_wanted(devices, format);
    let once = slots.filter(keep);
    assert forall|i: int| 0 <= i < once.len() implies #[trigger] keep(once[i]) by {
        slots.lemma_filter_pred(keep, i);
    }
    lemma_filter_all(once, keep);
}

/// What a reconcile leaves open: every card is one its output still wants,
/// at the current format; every card still wanted stays open as it was; and
/// a card stays open only for an output with an entry naming a device, so an
/// output whose entries name none has no card at all.
pub proof fn reconciling_keeps_exactly_the_wanted_cards(
    before: Seq<PlaybackSlot>,
    devices: Seq<(OutputId, Option<crate::show::DeviceRef>)>,
    format: VideoFormat,
)
    ensures
        forall|i: int| 0 <= i < before.filter(still_wanted(devices, format)).len() ==> {
            let c = #[trigger] before.filter(still_wanted(devices, format))[i];
            &&& wanted(devices, c.output) == Some(c.persistent_id)
            &&& c.format == format
        },
        forall|i: int| 0 <= i < before.len() && still_wanted(devices, format)(#[trigger] before[i])
            ==> before.filter(still_wanted(devices, format)).contains(before[i]),
        forall|i: int| 0 <= i < before.filter(still_wanted(devices, format)).len() ==> exists|j: int|
            0 <= j < devices.len() && (#[trigger] devices[j]).0 == (#[trigger] before.filter(still_wanted(devices, format))[i]).output
                && devices[j].1 is Some,
{
    let keep = still_wanted(devices, format);
    let after = before.filter(keep);
    assert forall|i: int| 0 <= i < after.len() implies #[trigger] keep(after[i]) by {
        before.lemma_filter_pred(keep, i);
    }
    assert forall|i: int| 0 <= i < before.len() && keep(#[trigger] before[i]) implies after.contains(before[i]) by {
        before.lemma_filter_contains(keep, i);
    }
    assert forall|i: int| 0 <= i < after.len() implies exists|j: int|
        0 <= j < devices.len() && (#[trigger] devices[j]).0 == (#[trigger] after[i]).output && devices[j].1 is Some by {
        assert(keep(after[i]));
        lemma_wanted_is_named(devices, after[i].output);
    }
}

/// An output that wants a card has an entry naming a device: one whose
/// entries name none wants no card.
proof fn lemma_wanted_is_named(devices: Seq<(OutputId, Option<crate::show::DeviceRef>)>, id: OutputId)
    ensures
        wanted(devices, id) is Some ==> exists|j: int| 0 <= j < devices.len() && (#[trigger] devices[j]).0 == id && devices[j].1 is Some,
    decreases devices.len(),
{
    if devices.len() > 0 {
        let d = devices.drop_last();
        lemma_wanted_is_named(d, id);
        let n = devices.len() - 1;
        if devices.last().0 == id && devices.last().1 is Some {
            assert(devices[n] == devices.last());
        } else if wanted(devices, id) is Some {
            let j = choose|j: int| 0 <= j < d.len() && (#[trigger] d[j]).0 == id && d[j].1 is Some;
            assert(devices[j] == d[j]);
        }
    }
}

proof fn lemma_filter_all<T>(s: Seq<T>, p: spec_fn(T) -> bool)
    requires
        forall|i: int| 0 <= i < s.len() ==> #[trigger] p(s[i]),
    ensures
        s.filter(p) == s,
    decreases s.len(),
{
    reveal(Seq::filter);
    if s.len() > 0 {
        let d = s.drop_last();
        assert forall|i: int| 0 <= i < d.len() implies #[trigger] p(d[i]) by {
            assert(d[i] == s[i]);
        }
        lemma_filter_all(d, p);
        assert(s =~= d.push(s.last()));
    } else {
        assert(s.filter(p) =~= s);
    }
}

// ---- what a control surface is told ------------------------------------------

/// A refusal always carries a message, so a client never has to invent one.
pub proof fn a_refusal_always_carries_a_message(e: ShowError, msg: Seq<char>)
    ensures
        e.message_spec().len() > 0,
        enable_hint().len() > 0,
        refusal_text(msg).len() > 0,
{
    reveal_strlit("the command was refused");
    reveal_strlit("no region with id ");
    reveal_strlit("no output with id ");
    reveal_strlit("pass either \"enabled\": true/false or \"toggle\": true");
}

/// A control surface is told a buffer counter for exactly the outputs with a
/// card open, and never two for one output.
pub proof fn a_counter_is_reported_only_for_an_open_card(s: Seq<PlaybackSlot>, id: OutputId)
    ensures
        buffered_of(counters_of(s), id) is Some <==> exists|i: int| 0 <= i < s.len() && (#[trigger] s[i]).output == id,
{
    if buffered_of(counters_of(s), id) is Some {
        let i = choose|i: int| 0 <= i < s.len() && (#[trigger] s[i]).output.0 == id.0;
        assert(s[i].output == id);
    }
    if exists|i: int| 0 <= i < s.len() && (#[trigger] s[i]).output == id {
        let i = choose|i: int| 0 <= i < s.len() && (#[trigger] s[i]).output == id;
        assert(s[i].output.0 == id.0);
    }
}

/// Editing an output changes only the fields the body gives: a field the
/// body leaves out keeps its value, one it gives takes the given value, and
/// the output's id, card and crosspoint never change.
pub proof fn editing_an_output_changes_only_what_is_given(
    o: Output,
    label: Option<String>,
    idle: Option<IdleFill>,
    fit: Option<FitMode>,
)
    ensures
        ({
            let e = with_body(o, label, idle, fit);
            &&& e.id == o.id
            &&& e.device == o.device
            &&& e.assigned == o.assigned
            &&& label is None ==> e.label == o.label
            &&& label matches Some(l) ==> e.label == l
            &&& idle is None ==> e.idle == o.idle
            &&& idle matches Some(f) ==> e.idle == f
            &&& fit is None ==> e.fit == o.fit
            &&& fit matches Some(f) ==> e.fit == f
        }),
        with_body(o, None, None, None) == o,
{
}

/// The frame counter and the card buffer counters move every frame; a change
/// in them alone does not push a message.
pub proof fn the_frame_counter_does_not_push_a_message(a: Runtime, b: Runtime)
    requires
        a.input_live == b.input_live,
        a.input_size == b.input_size,
        a.decklink@ == b.decklink@,
    ensures
        !tally_changed(a, b),
{
}

/// Losing or regaining the input is exactly what tally cares about, and does
/// push.
pub proof fn losing_the_input_does_push_a_message(a: Runtime, b: Runtime)
    requires
        a.input_live != b.input_live,
    ensures
        tally_changed(a, b),
{
}

/// The snapshot reports what is on air, not just what is routed: with the
/// outputs killed, every output reads as muted, routed or not.
pub proof fn a_killed_show_reports_every_output_muted<R>(
    v: Snapshot,
    s: ShowModel<R>,
    rt: Runtime,
    revision: u64,
    whole: R,
)
    requires
        is_snapshot_of(v, s, rt, revision, whole),
        !s.outputs_enabled,
    ensures
        v.outputs@.len() == s.outputs.len(),
        forall|i: int| 0 <= i < s.outputs.len() ==> (#[trigger] v.outputs@[i]).on_air@ == "muted"@,
        forall|i: int| 0 <= i < s.outputs.len() ==> (#[trigger] v.outputs@[i]).assigned == s.outputs[i].assigned,
{
    let plan = s.planned(rt.input_live, whole);
    assert forall|i: int| 0 <= i < s.outputs.len() implies (#[trigger] v.outputs@[i]).on_air@ == "muted"@ by {
        let id = s.outputs[i].id;
        lemma_first_index(plan, plan_for::<R>(id));
        assert(plan_for::<R>(id)(plan[i]));
        assert(on_air_of(plan, id) == PlanSource::<R>::Muted);
    }
}

/// Every output of the show appears in the snapshot, in show order, whatever
/// is routed.
pub proof fn every_output_appears_in_the_snapshot<R>(v: Snapshot, s: ShowModel<R>, rt: Runtime, revision: u64, whole: R)
    requires
        is_snapshot_of(v, s, rt, revision, whole),
    ensures
        v.outputs@.len() == s.outputs.len(),
        forall|i: int| 0 <= i < s.outputs.len() ==> (#[trigger] v.outputs@[i]).id == s.outputs[i].id,
{
}

/// Every command moves the revision on by one, so a state feed that has sent
/// the revision before it is due to send again after a command; and having
/// sent a revision it is not due again until the revision moves.
pub proof fn a_command_is_always_pushed(feed: Feed, revision: u64)
    requires
        feed.last == Some(revision),
    ensures
        feed.last != Some(revision.wrapping_add(1)),
        !(feed.last != Some(revision)),
{
}

// ---- a first run ------------------------------------------------------------

/// A machine with no card still gets a usable show: outputs to route to, one
/// region to drag, and every output planned.
pub proof fn a_machine_with_no_card_still_gets_a_usable_show<R>(
    s: crate::show::Show<R>,
    input_device: Option<i64>,
    region: R,
    whole: R,
    input_live: bool,
)
    requires
        is_first_show(s, Seq::<Device>::empty(), input_device, region),
    ensures
        s@.outputs.len() == 4,
        s@.rois.len() == 1,
        s@.planned(input_live, whole).len() == 4,
{
    assert(Seq::<Device>::empty().filter(crate::show_file::plays_out(input_device)) =~= Seq::<Device>::empty());
}

} // verus!
