//! What holds of the show across every state and every operation.
use vstd::prelude::*;
use crate::show::{
    first_index, lemma_first_index, lemma_first_index_is, lemma_model_output_pos, lemma_model_roi_pos,
    output_carries, output_has_id, output_kept, roi_kept, IdleFill, Output, OutputId, Pattern, PlanSource, RoiId,
    ShowError, ShowModel,
};
use crate::geom::FitMode;

use crate::engine::{plan_draws, plan_ids};
use crate::gpu::{draw_spec, Draw};

verus! {

broadcast use vstd::seq_lib::group_filter_ensures;

/// Every output is planned, in every state: the plan has exactly one entry
/// per output, in output order, whatever the routing, the global kill or the
/// input say.
pub proof fn every_output_is_planned<R>(s: ShowModel<R>, input_live: bool, whole: R)
    ensures
        s.planned(input_live, whole).len() == s.outputs.len(),
        forall|i: int| 0 <= i < s.outputs.len() ==> (#[trigger] s.planned(input_live, whole)[i]).output == s.outputs[i].id,
{
}

/// Every output gets exactly one frame, every frame: rendering the show's
/// plan draws each output once and hands each one frame, in output order,
/// whether or not a card is assigned to it.
pub proof fn every_output_gets_one_frame<R>(s: ShowModel<R>, input_live: bool, whole: R)
    ensures
        plan_ids(s.planned(input_live, whole)).len() == s.outputs.len(),
        forall|i: int| 0 <= i < s.outputs.len() ==> #[trigger] plan_ids(s.planned(input_live, whole))[i] == s.outputs[i].id,
        plan_draws(s.planned(input_live, whole), input_live).len() == s.outputs.len(),
        forall|i: int| 0 <= i < s.outputs.len() ==> #[trigger] plan_draws(s.planned(input_live, whole), input_live)[i] == (
            s.outputs[i].id,
            draw_spec(s.planned(input_live, whole)[i].source, input_live),
        ),
{
    every_output_is_planned(s, input_live, whole);
}

/// The global kill mutes every output — routed or idle, input or not — and
/// still plans every one of them.
pub proof fn the_kill_mutes_everything<R>(s: ShowModel<R>, input_live: bool, whole: R)
    requires
        !s.outputs_enabled,
    ensures
        s.planned(input_live, whole).len() == s.outputs.len(),
        forall|i: int| 0 <= i < s.outputs.len() ==> (#[trigger] s.planned(input_live, whole)[i]).source == PlanSource::<R>::Muted,
{
}

/// With no input, nothing is cropped: a routed output carries `NoInput`
/// (black, never a frozen last frame), and a generated idle fill is left as
/// it was.
pub proof fn a_lost_input_is_never_cropped<R>(s: ShowModel<R>, whole: R)
    ensures
        forall|i: int| 0 <= i < s.outputs.len() ==> !((#[trigger] s.planned(false, whole)[i]).source is Crop),
        forall|i: int| 0 <= i < s.outputs.len() && s.outputs_enabled
            && (#[trigger] s.outputs[i]).assigned is Some && s.has_roi(s.outputs[i].assigned->0)
            ==> s.planned(false, whole)[i].source == PlanSource::<R>::NoInput,
{
    assert forall|i: int| 0 <= i < s.outputs.len() && s.outputs_enabled
        && (#[trigger] s.outputs[i]).assigned is Some && s.has_roi(s.outputs[i].assigned->0)
        implies s.planned(false, whole)[i].source == PlanSource::<R>::NoInput by {
        lemma_model_roi_pos(s, s.outputs[i].assigned->0);
    }
}

/// An enabled output routed to an existing region carries exactly that
/// region's rectangle, with the output's fit, while the input is live.
pub proof fn a_routed_region_goes_on_air<R>(s: ShowModel<R>, i: int, whole: R)
    requires
        s.outputs_enabled,
        0 <= i < s.outputs.len(),
        s.outputs[i].assigned is Some,
        s.has_roi(s.outputs[i].assigned->0),
    ensures
        s.planned(true, whole)[i].source == (PlanSource::Crop {
            roi: s.outputs[i].assigned,
            rect: s.rois[s.roi_pos(s.outputs[i].assigned->0)].rect,
            fit: s.outputs[i].fit,
        }),
        s.rois[s.roi_pos(s.outputs[i].assigned->0)].id == s.outputs[i].assigned->0,
{
    lemma_model_roi_pos(s, s.outputs[i].assigned->0);
}

/// An enabled output with nothing live routed to it shows its idle fill:
/// bars as bars and black as black whatever the input does, and the full
/// input only while there is one (black otherwise).
pub proof fn an_unrouted_output_shows_its_idle_fill<R>(s: ShowModel<R>, i: int, input_live: bool, whole: R)
    requires
        s.outputs_enabled,
        0 <= i < s.outputs.len(),
        s.outputs[i].assigned is None || !s.has_roi(s.outputs[i].assigned->0),
    ensures
        s.planned(input_live, whole)[i].output == s.outputs[i].id,
        s.outputs[i].idle == IdleFill::Bars ==> s.planned(input_live, whole)[i].source == PlanSource::<R>::Pattern(Pattern::Bars),
        s.outputs[i].idle == IdleFill::Black ==> s.planned(input_live, whole)[i].source == PlanSource::<R>::Pattern(Pattern::Black),
        s.outputs[i].idle == IdleFill::FullInput && input_live ==> s.planned(input_live, whole)[i].source == (PlanSource::Crop {
            roi: None,
            rect: whole,
            fit: s.outputs[i].fit,
        }),
        s.outputs[i].idle == IdleFill::FullInput && !input_live ==> s.planned(input_live, whole)[i].source == PlanSource::<R>::NoInput,
{
    if s.outputs[i].assigned is Some {
        lemma_model_roi_pos(s, s.outputs[i].assigned->0);
    }
}

/// What the GPU draws for a planned source: a crop only of a live input;
/// colour bars only for the bars pattern; legal black for everything else —
/// the black pattern, a muted output, a lost input, and a crop whose input
/// has gone.
pub proof fn only_bars_are_drawn_as_bars<R>(roi: Option<RoiId>, rect: R, fit: FitMode, input_live: bool)
    ensures
        draw_spec(PlanSource::<R>::Pattern(Pattern::Bars), input_live) == Draw::Fill(1),
        draw_spec(PlanSource::<R>::Pattern(Pattern::Black), input_live) == Draw::Fill(0),
        draw_spec(PlanSource::<R>::Muted, input_live) == Draw::Fill(0),
        draw_spec(PlanSource::<R>::NoInput, input_live) == Draw::Fill(0),
        draw_spec(PlanSource::Crop { roi, rect, fit }, true) == Draw::Crop,
        draw_spec(PlanSource::Crop { roi, rect, fit }, false) == Draw::Fill(0),
        forall|src: PlanSource<R>| #[trigger] draw_spec(src, input_live) == Draw::Fill(1)
            ==> src == PlanSource::<R>::Pattern(Pattern::Bars),
{
}

/// A route that is taken is what the output then carries; a refused one
/// changes nothing at all.
pub proof fn a_route_reads_back<R>(s: ShowModel<R>, output: OutputId, roi: Option<RoiId>)
    ensures
        s.routed(output, roi).1 is Ok ==> {
            let t = s.routed(output, roi).0;
            &&& t.output_pos(output) == s.output_pos(output)
            &&& t.outputs[t.output_pos(output)].assigned == roi
        },
        s.routed(output, roi).1 is Err ==> s.routed(output, roi).0 == s,
        s.routed(output, roi).1 is Ok <==> ((roi is None || s.has_roi(roi->0)) && s.has_output(output)),
{
    lemma_model_output_pos(s, output);
    if s.routed(output, roi).1 is Ok {
        let t = s.routed(output, roi).0;
        let k = s.output_pos(output);
        lemma_first_index(s.outputs, output_has_id(output));
        assert forall|j: int| 0 <= j < t.outputs.len() && j < k implies !output_has_id(output)(#[trigger] t.outputs[j]) by {
            assert(!output_has_id(output)(s.outputs[j]));
        }
        assert(output_has_id(output)(t.outputs[k]));
        lemma_first_index_is(t.outputs, output_has_id(output), k);
    }
}

/// A route changes one crosspoint and nothing else: every other output, and
/// every region, is as it was. So one region can feed many outputs, and an
/// output holds only the last region routed to it.
pub proof fn a_route_touches_only_its_output<R>(s: ShowModel<R>, output: OutputId, roi: Option<RoiId>)
    requires
        s.routed(output, roi).1 is Ok,
    ensures
        ({
            let t = s.routed(output, roi).0;
            &&& t.outputs.len() == s.outputs.len()
            &&& t.rois == s.rois
            &&& t.outputs_enabled == s.outputs_enabled
            &&& forall|j: int| 0 <= j < s.outputs.len() && j != s.output_pos(output) ==> #[trigger] t.outputs[j] == s.outputs[j]
            &&& forall|j: int| 0 <= j < s.outputs.len() ==> (#[trigger] t.outputs[j]).id == s.outputs[j].id
        }),
{
    lemma_model_output_pos(s, output);
}

/// Positions are found by id, so two output lists with the same ids in the
/// same order put every id at the same position.
proof fn lemma_same_positions<R>(s: ShowModel<R>, t: ShowModel<R>, id: OutputId)
    requires
        t.outputs.len() == s.outputs.len(),
        forall|j: int| 0 <= j < s.outputs.len() ==> (#[trigger] t.outputs[j]).id == s.outputs[j].id,
    ensures
        t.output_pos(id) == s.output_pos(id),
{
    lemma_first_index(s.outputs, output_has_id(id));
    let k = s.output_pos(id);
    assert forall|j: int| 0 <= j < t.outputs.len() && (k < 0 || j < k) implies !output_has_id(id)(#[trigger] t.outputs[j]) by {
        assert(!output_has_id(id)(s.outputs[j]));
    }
    if k >= 0 {
        assert(output_has_id(id)(s.outputs[k]));
    }
    lemma_first_index_is(t.outputs, output_has_id(id), k);
}

/// An output holds only the last region routed to it: a second route
/// replaces the first.
pub proof fn an_output_takes_only_the_last_region_routed_to_it<R>(s: ShowModel<R>, output: OutputId, a: RoiId, b: RoiId)
    requires
        s.routed(output, Some(a)).1 is Ok,
        s.has_roi(b),
    ensures
        ({
            let t = s.routed(output, Some(a)).0;
            let u = t.routed(output, Some(b)).0;
            &&& t.routed(output, Some(b)).1 is Ok
            &&& u.outputs[u.output_pos(output)].assigned == Some(b)
            &&& u.output_pos(output) == s.output_pos(output)
            &&& u.outputs.len() == s.outputs.len()
        }),
{
    a_route_reads_back(s, output, Some(a));
    a_route_touches_only_its_output(s, output, Some(a));
    let t = s.routed(output, Some(a)).0;
    lemma_model_output_pos(s, output);
    assert(t.rois == s.rois);
    assert(t.has_roi(b));
    lemma_same_positions(s, t, output);
    assert(t.has_output(output));
    a_route_reads_back(t, output, Some(b));
    a_route_touches_only_its_output(t, output, Some(b));
    let u = t.routed(output, Some(b)).0;
    lemma_same_positions(t, u, output);
}

/// One region can feed many outputs: routing it to a second output leaves it
/// on the first.
pub proof fn one_region_can_feed_many_outputs<R>(s: ShowModel<R>, first: OutputId, second: OutputId, roi: RoiId)
    requires
        s.routed(first, Some(roi)).1 is Ok,
        s.has_output(second),
    ensures
        ({
            let t = s.routed(first, Some(roi)).0;
            let u = t.routed(second, Some(roi)).0;
            &&& t.routed(second, Some(roi)).1 is Ok
            &&& u.outputs[u.output_pos(first)].assigned == Some(roi)
            &&& u.outputs[u.output_pos(second)].assigned == Some(roi)
            &&& u.outputs.len() == s.outputs.len()
        }),
{
    a_route_reads_back(s, first, Some(roi));
    a_route_touches_only_its_output(s, first, Some(roi));
    let t = s.routed(first, Some(roi)).0;
    lemma_same_positions(s, t, second);
    lemma_model_output_pos(s, second);
    lemma_model_output_pos(s, first);
    a_route_reads_back(t, second, Some(roi));
    a_route_touches_only_its_output(t, second, Some(roi));
    let u = t.routed(second, Some(roi)).0;
    lemma_same_positions(t, u, first);
    lemma_same_positions(s, t, first);
    lemma_model_output_pos(t, first);
    lemma_model_output_pos(t, second);
}

/// Removing a region clears every crosspoint that carried it, and leaves
/// every output in place and still planned.
pub proof fn removing_a_region_clears_its_crosspoints<R>(s: ShowModel<R>, id: RoiId, input_live: bool, whole: R)
    requires
        s.without_roi(id).1 is Ok,
    ensures
        ({
            let t = s.without_roi(id).0;
            &&& !t.has_roi(id)
            &&& t.outputs.len() == s.outputs.len()
            &&& forall|j: int| 0 <= j < t.outputs.len() ==> (#[trigger] t.outputs[j]).assigned != Some(id)
            &&& forall|j: int| 0 <= j < t.outputs.len() ==> (#[trigger] t.outputs[j]).id == s.outputs[j].id
            &&& t.planned(input_live, whole).len() == s.outputs.len()
            &&& t.carriers(id).len() == 0
        }),
{
    let t = s.without_roi(id).0;
    let keep = roi_kept::<R>(id);
    assert forall|i: int| 0 <= i < t.rois.len() implies #[trigger] t.rois[i].id != id by {
        assert(keep(t.rois[i]));
    }
    let p = output_carries(id);
    if t.outputs.filter(p).len() > 0 {
        let o = t.outputs.filter(p)[0];
        assert(p(o));
        assert(t.outputs.contains(o)) by {
            t.outputs.lemma_filter_contains_rev(p, o);
        }
    }
}

/// Removing a region touches only the outputs that carried it: each of
/// those loses its crosspoint and keeps everything else, every other output
/// is exactly as it was, and every other region stays.
pub proof fn removing_a_region_leaves_every_other_crosspoint<R>(s: ShowModel<R>, id: RoiId)
    requires
        s.has_roi(id),
    ensures
        s.without_roi(id).1 is Ok,
        ({
            let t = s.without_roi(id).0;
            &&& t.outputs.len() == s.outputs.len()
            &&& forall|j: int| 0 <= j < s.outputs.len() && s.outputs[j].assigned != Some(id)
                ==> #[trigger] t.outputs[j] == s.outputs[j]
            &&& forall|j: int| 0 <= j < s.outputs.len() && s.outputs[j].assigned == Some(id)
                ==> #[trigger] t.outputs[j] == (Output { assigned: None, ..s.outputs[j] })
            &&& forall|i: int| 0 <= i < s.rois.len() && s.rois[i].id != id ==> t.rois.contains(#[trigger] s.rois[i])
            &&& t.outputs_enabled == s.outputs_enabled
        }),
{
    let keep = roi_kept::<R>(id);
    assert forall|i: int| 0 <= i < s.rois.len() && s.rois[i].id != id implies s.rois.filter(keep).contains(#[trigger] s.rois[i]) by {
        s.rois.lemma_filter_contains(keep, i);
    }
}

/// The ids of a consistent show are never reused: a region added after any
/// region was removed gets an id that no region has had before, and in
/// particular not the removed one's.
pub proof fn region_ids_are_never_reused<R>(s: ShowModel<R>, id: RoiId, name: String, rect: R)
    requires
        s.wf(),
        s.has_roi(id),
    ensures
        ({
            let t = s.without_roi(id).0;
            let (u, fresh) = t.with_roi(name, rect);
            &&& fresh != id
            &&& forall|i: int| 0 <= i < s.rois.len() ==> (#[trigger] s.rois[i]).id != fresh
        }),
{
}

/// A click on an off crosspoint takes the region; a click on a live one
/// clears it; so two clicks on an unrouted output give the show back as it
/// was.
pub proof fn clicking_a_crosspoint_twice_undoes_it<R>(s: ShowModel<R>, output: OutputId, roi: RoiId)
    requires
        s.has_output(output),
        s.has_roi(roi),
        s.outputs[s.output_pos(output)].assigned is None,
    ensures
        s.toggled(output, roi).1 is Ok,
        ({
            let t = s.toggled(output, roi).0;
            &&& t.outputs[t.output_pos(output)].assigned == Some(roi)
            &&& t.toggled(output, roi).1 is Ok
            &&& t.toggled(output, roi).0 == s
        }),
{
    lemma_model_output_pos(s, output);
    let k = s.output_pos(output);
    let t = s.toggled(output, roi).0;
    a_route_reads_back(s, output, Some(roi));
    a_route_touches_only_its_output(s, output, Some(roi));
    lemma_model_output_pos(t, output);
    assert(t.has_roi(roi)) by {
        let i = choose|i: int| 0 <= i < s.rois.len() && #[trigger] s.rois[i].id == roi;
        assert(t.rois[i].id == roi);
    }
    a_route_reads_back(t, output, None);
    let u = t.toggled(output, roi).0;
    assert(u.outputs =~= s.outputs) by {
        assert(u.outputs[k] == s.outputs[k]);
    }
}

/// A click on a crosspoint that is off routes the region to the output, and
/// a click on one that is on clears it; either way no other output moves.
/// An unknown output is refused, then an unknown region, and a refused click
/// changes nothing.
pub proof fn a_click_takes_the_region_or_clears_it<R>(s: ShowModel<R>, output: OutputId, roi: RoiId)
    ensures
        !s.has_output(output) ==> s.toggled(output, roi) == (s, Err::<(), ShowError>(ShowError::NoSuchOutput(output))),
        s.has_output(output) && s.outputs[s.output_pos(output)].assigned != Some(roi) && !s.has_roi(roi)
            ==> s.toggled(output, roi) == (s, Err::<(), ShowError>(ShowError::NoSuchRoi(roi))),
        s.has_output(output) && (s.has_roi(roi) || s.outputs[s.output_pos(output)].assigned == Some(roi)) ==> {
            let t = s.toggled(output, roi).0;
            let k = s.output_pos(output);
            &&& s.toggled(output, roi).1 is Ok
            &&& 0 <= k < s.outputs.len()
            &&& s.outputs[k].id == output
            &&& t.outputs.len() == s.outputs.len()
            &&& t.rois == s.rois
            &&& t.outputs[k] == (Output {
                assigned: if s.outputs[k].assigned == Some(roi) { None } else { Some(roi) },
                ..s.outputs[k]
            })
            &&& forall|j: int| 0 <= j < s.outputs.len() && j != k ==> #[trigger] t.outputs[j] == s.outputs[j]
        },
{
    lemma_model_output_pos(s, output);
}

/// Every operation keeps a consistent show consistent: ids stay fresh and
/// distinct, and no crosspoint names a region that is gone.
pub proof fn every_operation_keeps_the_show_consistent<R>(
    s: ShowModel<R>,
    name: String,
    rect: R,
    label: String,
    roi: RoiId,
    output: OutputId,
    target: Option<RoiId>,
)
    requires
        s.wf(),
    ensures
        s.next_roi_id < u32::MAX ==> s.with_roi(name, rect).0.wf(),
        s.next_output_id < u32::MAX ==> s.with_output(label).0.wf(),
        s.without_roi(roi).0.wf(),
        s.without_output(output).0.wf(),
        s.routed(output, target).0.wf(),
        s.toggled(output, roi).0.wf(),
{
    // adding a region
    if s.next_roi_id < u32::MAX {
        let t = s.with_roi(name, rect).0;
        assert forall|i: int| 0 <= i < t.outputs.len() && (#[trigger] t.outputs[i]).assigned is Some
            implies t.has_roi(t.outputs[i].assigned->0) by {
            let j = choose|j: int| 0 <= j < s.rois.len() && #[trigger] s.rois[j].id == s.outputs[i].assigned->0;
            assert(t.rois[j] == s.rois[j]);
        }
    }
    // adding an output
    // removing a region
    if s.has_roi(roi) {
        let t = s.without_roi(roi).0;
        let keep = roi_kept::<R>(roi);
        assert forall|i: int| 0 <= i < t.rois.len() implies (#[trigger] t.rois[i]).id.0 < t.next_roi_id by {
            let r = t.rois[i];
            assert(s.rois.contains(r)) by { s.rois.lemma_filter_contains_rev(keep, r); }
        }
        lemma_filter_distinct_rois(s.rois, keep);
        assert forall|i: int| 0 <= i < t.outputs.len() && (#[trigger] t.outputs[i]).assigned is Some
            implies t.has_roi(t.outputs[i].assigned->0) by {
            let a = t.outputs[i].assigned->0;
            assert(s.outputs[i].assigned == Some(a));
            let j = choose|j: int| 0 <= j < s.rois.len() && #[trigger] s.rois[j].id == a;
            assert(keep(s.rois[j]));
            assert(t.rois.contains(s.rois[j]));
        }
    }
    // removing an output
    if s.has_output(output) {
        let t = s.without_output(output).0;
        let keep = output_kept(output);
        assert forall|i: int| 0 <= i < t.outputs.len() implies (#[trigger] t.outputs[i]).id.0 < t.next_output_id
            && (t.outputs[i].assigned is Some ==> t.has_roi(t.outputs[i].assigned->0)) by {
            let o = t.outputs[i];
            assert(s.outputs.contains(o)) by { s.outputs.lemma_filter_contains_rev(keep, o); }
            let k = choose|k: int| 0 <= k < s.outputs.len() && s.outputs[k] == o;
            assert(s.outputs[k] == o);
            if o.assigned is Some {
                let a = o.assigned->0;
                assert(s.has_roi(a));
                let j = choose|j: int| 0 <= j < s.rois.len() && #[trigger] s.rois[j].id == a;
                assert(t.rois[j].id == a);
            }
        }
        lemma_filter_distinct_outputs(s.outputs, keep);
    }
    // routing, and therefore clicking
    routing_keeps_the_show_consistent(s, output, target);
    routing_keeps_the_show_consistent(s, output, None);
    routing_keeps_the_show_consistent(s, output, Some(roi));
}

proof fn routing_keeps_the_show_consistent<R>(s: ShowModel<R>, output: OutputId, target: Option<RoiId>)
    requires
        s.wf(),
    ensures
        s.routed(output, target).0.wf(),
{
    lemma_model_output_pos(s, output);
    if s.routed(output, target).1 is Ok {
        let t = s.routed(output, target).0;
        let k = s.output_pos(output);
        assert forall|i: int| 0 <= i < t.outputs.len() implies (#[trigger] t.outputs[i]).id == s.outputs[i].id by {}
        assert forall|i: int| 0 <= i < t.outputs.len() && (#[trigger] t.outputs[i]).assigned is Some
            implies t.has_roi(t.outputs[i].assigned->0) by {
            let a = t.outputs[i].assigned->0;
            if i != k {
                assert(t.outputs[i] == s.outputs[i]);
            }
            assert(s.has_roi(a));
            let j = choose|j: int| 0 <= j < s.rois.len() && #[trigger] s.rois[j].id == a;
            assert(t.rois[j].id == a);
        }
        assert forall|i: int, j: int| 0 <= i < t.outputs.len() && 0 <= j < t.outputs.len() && i != j
            implies (#[trigger] t.outputs[i]).id != (#[trigger] t.outputs[j]).id by {
            assert(s.outputs[i].id != s.outputs[j].id);
        }
    }
}

proof fn lemma_filter_distinct_rois<R>(s: Seq<crate::show::Roi<R>>, p: spec_fn(crate::show::Roi<R>) -> bool)
    requires
        forall|i: int, j: int| 0 <= i < s.len() && 0 <= j < s.len() && i != j ==> (#[trigger] s[i]).id != (#[trigger] s[j]).id,
    ensures
        forall|i: int, j: int| 0 <= i < s.filter(p).len() && 0 <= j < s.filter(p).len() && i != j
            ==> (#[trigger] s.filter(p)[i]).id != (#[trigger] s.filter(p)[j]).id,
    decreases s.len(),
{
    reveal(Seq::filter);
    if s.len() > 0 {
        let d = s.drop_last();
        assert forall|i: int, j: int| 0 <= i < d.len() && 0 <= j < d.len() && i != j implies (#[trigger] d[i]).id != (#[trigger] d[j]).id by {
            assert(d[i] == s[i] && d[j] == s[j]);
        }
        lemma_filter_distinct_rois(d, p);
        if p(s.last()) {
            let f = s.filter(p);
            assert forall|i: int| 0 <= i < d.filter(p).len() implies (#[trigger] d.filter(p)[i]).id != s.last().id by {
                let x = d.filter(p)[i];
                d.lemma_filter_contains_rev(p, x);
                let k = choose|k: int| 0 <= k < d.len() && d[k] == x;
                assert(s[k] == x);
                assert(s[s.len() - 1] == s.last());
            }
            assert forall|i: int, j: int| 0 <= i < f.len() && 0 <= j < f.len() && i != j implies (#[trigger] f[i]).id != (#[trigger] f[j]).id by {
                if i < f.len() - 1 && j < f.len() - 1 {
                    assert(f[i] == d.filter(p)[i] && f[j] == d.filter(p)[j]);
                } else if i < f.len() - 1 {
                    assert(f[i] == d.filter(p)[i]);
                } else if j < f.len() - 1 {
                    assert(f[j] == d.filter(p)[j]);
                }
            }
        }
    }
}

proof fn lemma_filter_distinct_outputs(s: Seq<crate::show::Output>, p: spec_fn(crate::show::Output) -> bool)
    requires
        forall|i: int, j: int| 0 <= i < s.len() && 0 <= j < s.len() && i != j ==> (#[trigger] s[i]).id != (#[trigger] s[j]).id,
    ensures
        forall|i: int, j: int| 0 <= i < s.filter(p).len() && 0 <= j < s.filter(p).len() && i != j
            ==> (#[trigger] s.filter(p)[i]).id != (#[trigger] s.filter(p)[j]).id,
    decreases s.len(),
{
    reveal(Seq::filter);
    if s.len() > 0 {
        let d = s.drop_last();
        assert forall|i: int, j: int| 0 <= i < d.len() && 0 <= j < d.len() && i != j implies (#[trigger] d[i]).id != (#[trigger] d[j]).id by {
            assert(d[i] == s[i] && d[j] == s[j]);
        }
        lemma_filter_distinct_outputs(d, p);
        if p(s.last()) {
            let f = s.filter(p);
            assert forall|i: int| 0 <= i < d.filter(p).len() implies (#[trigger] d.filter(p)[i]).id != s.last().id by {
                let x = d.filter(p)[i];
                d.lemma_filter_contains_rev(p, x);
                let k = choose|k: int| 0 <= k < d.len() && d[k] == x;
                assert(s[k] == x);
                assert(s[s.len() - 1] == s.last());
            }
            assert forall|i: int, j: int| 0 <= i < f.len() && 0 <= j < f.len() && i != j implies (#[trigger] f[i]).id != (#[trigger] f[j]).id by {
                if i < f.len() - 1 && j < f.len() - 1 {
                    assert(f[i] == d.filter(p)[i] && f[j] == d.filter(p)[j]);
                } else if i < f.len() - 1 {
                    assert(f[i] == d.filter(p)[i]);
                } else if j < f.len() - 1 {
                    assert(f[j] == d.filter(p)[j]);
                }
            }
        }
    }
}

/// Repair makes any loaded show consistent in the two ways a hand edit can
/// break it — no crosspoint names a missing region, and both id counters are
/// past every id in use — and it never moves a counter backwards.
pub proof fn repair_makes_a_loaded_show_consistent<R>(s: ShowModel<R>)
    requires
        forall|i: int| 0 <= i < s.rois.len() ==> (#[trigger] s.rois[i]).id.0 < u32::MAX,
        forall|i: int| 0 <= i < s.outputs.len() ==> (#[trigger] s.outputs[i]).id.0 < u32::MAX,
    ensures
        s.repaired().no_dangling(),
        s.repaired().ids_fresh(),
        s.repaired().next_roi_id >= s.next_roi_id,
        s.repaired().next_output_id >= s.next_output_id,
        s.repaired().rois == s.rois,
        s.repaired().outputs.len() == s.outputs.len(),
        s.ids_distinct() ==> s.repaired().ids_distinct(),
{
    crate::show::lemma_max_roi_id(s.rois);
    crate::show::lemma_max_output_id(s.outputs);
    let t = s.repaired();
    assert forall|i: int| 0 <= i < t.outputs.len() implies (#[trigger] t.outputs[i]).id == s.outputs[i].id by {}
    assert forall|i: int| 0 <= i < t.outputs.len() && (#[trigger] t.outputs[i]).assigned is Some
        implies t.has_roi(t.outputs[i].assigned->0) by {
        let a = t.outputs[i].assigned->0;
        assert(s.has_roi(a));
        let j = choose|j: int| 0 <= j < s.rois.len() && #[trigger] s.rois[j].id == a;
        assert(t.rois[j].id == a);
    }
    if s.ids_distinct() {
        assert forall|i: int, j: int| 0 <= i < t.outputs.len() && 0 <= j < t.outputs.len() && i != j
            implies (#[trigger] t.outputs[i]).id != (#[trigger] t.outputs[j]).id by {
            assert(s.outputs[i].id != s.outputs[j].id);
        }
    }
}

} // verus!
