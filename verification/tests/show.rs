use kestrel::show::{IdleFill, OutputId, Pattern, PlanSource, RoiId, Show, ShowError};

/// A region's rectangle, normalised to the input frame.
#[derive(Debug, Clone, Copy, PartialEq)]
struct Rect {
    x: f64,
    y: f64,
    w: f64,
    h: f64,
}

const FULL: Rect = Rect { x: 0.0, y: 0.0, w: 1.0, h: 1.0 };

fn rect(x: f64, y: f64, w: f64, h: f64) -> Rect {
    Rect { x, y, w, h }
}

fn show_with(n_outputs: usize, n_rois: usize) -> Show<Rect> {
    let mut s = Show::with_outputs(n_outputs);
    for i in 0..n_rois {
        s.add_roi(format!("R{i}"), rect(0.1 * i as f64, 0.1, 0.3, 0.3));
    }
    s
}

// --- the load-bearing invariant ------------------------------------

#[test]
fn every_output_is_planned_in_every_state() {
    let mut s = show_with(4, 2);
    let roi = s.rois[0].id;
    let first = s.outputs[0].id;
    s.route(first, Some(roi)).unwrap();

    for enabled in [true, false] {
        for live in [true, false] {
            s.outputs_enabled = enabled;
            let plan = s.plan(live, FULL);
            assert_eq!(
                plan.len(),
                4,
                "outputs must never drop out of the plan \
                 (enabled={enabled}, live={live})"
            );
            for o in &s.outputs {
                assert!(
                    plan.iter().any(|p| p.output == o.id),
                    "{} missing (enabled={enabled}, live={live})",
                    o.id.name()
                );
            }
        }
    }
}

#[test]
fn an_output_with_no_region_is_still_planned() {
    let s = show_with(3, 0);
    let plan = s.plan(true, FULL);
    assert_eq!(plan.len(), 3);
    assert!(plan
        .iter()
        .all(|p| p.source == PlanSource::Pattern(Pattern::Black)));
}

#[test]
fn the_global_kill_mutes_everything_including_idle_fills() {
    let mut s = show_with(3, 1);
    let roi = s.rois[0].id;
    let first = s.outputs[0].id;
    s.route(first, Some(roi)).unwrap();
    s.outputs[1].idle = IdleFill::Bars;
    s.outputs_enabled = false;

    let plan = s.plan(true, FULL);
    assert_eq!(plan.len(), 3);
    assert!(
        plan.iter().all(|p| p.source == PlanSource::Muted),
        "the kill must beat both a routed region and a bars idle: {plan:?}"
    );
}

#[test]
fn losing_the_input_blacks_a_routed_output_rather_than_freezing_it() {
    let mut s = show_with(1, 1);
    let roi = s.rois[0].id;
    let first = s.outputs[0].id;
    s.route(first, Some(roi)).unwrap();
    assert_eq!(s.plan(false, FULL)[0].source, PlanSource::NoInput);
}

#[test]
fn losing_the_input_does_not_disturb_a_generated_idle_fill() {
    let mut s = show_with(2, 0);
    s.outputs[0].idle = IdleFill::Bars;
    s.outputs[1].idle = IdleFill::FullInput;
    let plan = s.plan(false, FULL);
    assert_eq!(plan[0].source, PlanSource::Pattern(Pattern::Bars));
    assert_eq!(
        plan[1].source,
        PlanSource::NoInput,
        "a full-input idle has nothing to show without an input"
    );
}

// --- the crosspoint -------------------------------------------------

#[test]
fn one_region_can_feed_many_outputs() {
    let mut s = show_with(3, 1);
    let roi = s.rois[0].id;
    for o in s.outputs.iter().map(|o| o.id).collect::<Vec<_>>() {
        s.route(o, Some(roi)).unwrap();
    }
    assert_eq!(s.outputs_for(roi).len(), 3);
}

#[test]
fn an_output_takes_only_the_last_region_routed_to_it() {
    let mut s = show_with(1, 2);
    let (a, b) = (s.rois[0].id, s.rois[1].id);
    let out = s.outputs[0].id;
    s.route(out, Some(a)).unwrap();
    s.route(out, Some(b)).unwrap();
    assert_eq!(s.output(out).unwrap().assigned, Some(b));
    assert!(s.outputs_for(a).is_empty());
}

#[test]
fn clicking_a_live_crosspoint_clears_it() {
    let mut s = show_with(1, 1);
    let (out, roi) = (s.outputs[0].id, s.rois[0].id);
    s.toggle_crosspoint(out, roi).unwrap();
    assert_eq!(s.output(out).unwrap().assigned, Some(roi));
    s.toggle_crosspoint(out, roi).unwrap();
    assert_eq!(s.output(out).unwrap().assigned, None);
}

#[test]
fn deleting_a_region_clears_the_outputs_carrying_it() {
    let mut s = show_with(2, 1);
    let roi = s.rois[0].id;
    let (a, b) = (s.outputs[0].id, s.outputs[1].id);
    s.route(a, Some(roi)).unwrap();
    s.route(b, Some(roi)).unwrap();
    s.remove_roi(roi).unwrap();
    assert!(s.outputs.iter().all(|o| o.assigned.is_none()));
    // And they keep outputting.
    assert_eq!(s.plan(true, FULL).len(), 2);
}

#[test]
fn routing_an_unknown_region_is_refused_rather_than_silently_ignored() {
    let mut s = show_with(1, 0);
    let out = s.outputs[0].id;
    assert_eq!(
        s.route(out, Some(RoiId(99))),
        Err(ShowError::NoSuchRoi(RoiId(99)))
    );
    assert_eq!(
        s.route(OutputId(99), None),
        Err(ShowError::NoSuchOutput(OutputId(99)))
    );
}

#[test]
fn ids_are_never_reused_after_a_delete() {
    let mut s = show_with(0, 2);
    let first = s.rois[0].id;
    s.remove_roi(first).unwrap();
    let new = s.add_roi("later".to_string(), FULL);
    assert_ne!(new, first, "a stale control-surface id must not resolve");
}

// --- further tests ---------------------------------------------------

#[test]
fn a_routed_region_is_cropped_while_the_input_is_live() {
    let mut s = show_with(2, 1);
    let roi = s.rois[0].id;
    let out = s.outputs[1].id;
    s.route(out, Some(roi)).unwrap();
    let plan = s.plan(true, FULL);
    assert_eq!(
        plan[1].source,
        PlanSource::Crop { roi: Some(roi), rect: rect(0.0, 0.1, 0.3, 0.3), fit: kestrel::geom::FitMode::Fit }
    );
    assert!(plan[1].source.is_live_region());
    assert!(!plan[0].source.is_live_region());
}

#[test]
fn a_full_input_idle_carries_the_whole_frame() {
    let mut s = show_with(1, 0);
    s.outputs[0].idle = IdleFill::FullInput;
    let plan = s.plan(true, FULL);
    assert_eq!(
        plan[0].source,
        PlanSource::Crop { roi: None, rect: FULL, fit: kestrel::geom::FitMode::Fit }
    );
    assert!(!plan[0].source.is_live_region());
}

#[test]
fn clicking_an_empty_crosspoint_twice_leaves_it_as_it_was() {
    let mut s = show_with(2, 2);
    let before = s.clone();
    let (out, roi) = (s.outputs[1].id, s.rois[1].id);
    s.toggle_crosspoint(out, roi).unwrap();
    s.toggle_crosspoint(out, roi).unwrap();
    assert_eq!(s, before);
}

#[test]
fn a_refused_route_changes_nothing() {
    let mut s = show_with(2, 1);
    let before = s.clone();
    assert!(s.route(OutputId(7), Some(s.rois[0].id)).is_err());
    assert!(s.toggle_crosspoint(OutputId(7), RoiId(1)).is_err());
    assert!(s.remove_roi(RoiId(42)).is_err());
    assert!(s.remove_output(OutputId(42)).is_err());
    assert_eq!(s, before);
}

#[test]
fn the_error_messages_name_the_missing_id() {
    assert_eq!(ShowError::NoSuchRoi(RoiId(99)).message(), "no region with id roi99");
    assert_eq!(ShowError::NoSuchOutput(OutputId(3)).message(), "no output with id out3");
    assert_eq!(RoiId(7).name(), "roi7");
    assert_eq!(OutputId(12).name(), "out12");
}

#[test]
fn numbered_outputs_read_output_n() {
    let s = show_with(3, 0);
    let labels: Vec<&str> = s.outputs.iter().map(|o| o.label.as_str()).collect();
    assert_eq!(labels, ["Output 1", "Output 2", "Output 3"]);
    assert_eq!(s.outputs[2].id, OutputId(3));
}

#[test]
fn regions_take_palette_colours_in_turn() {
    let s = show_with(0, 9);
    assert_eq!(s.rois[0].colour, kestrel::show::ROI_PALETTE[0]);
    assert_eq!(s.rois[1].colour, kestrel::show::ROI_PALETTE[1]);
    assert_eq!(s.rois[8].colour, kestrel::show::ROI_PALETTE[0], "the palette wraps");
    assert!(s.rois.iter().all(|r| r.lock_aspect), "aspect lock starts on");
}

#[test]
fn removing_an_output_keeps_the_rest_in_order() {
    let mut s = show_with(3, 0);
    s.remove_output(OutputId(2)).unwrap();
    let ids: Vec<OutputId> = s.outputs.iter().map(|o| o.id).collect();
    assert_eq!(ids, [OutputId(1), OutputId(3)]);
    assert_eq!(s.add_output("again".to_string()), OutputId(4), "output ids are not reused either");
}

#[test]
fn repair_clears_a_dangling_crosspoint_and_moves_the_counters_on() {
    let mut s = show_with(1, 1);
    let (out, roi) = (s.outputs[0].id, s.rois[0].id);
    s.route(out, Some(roi)).unwrap();
    // A hand edit that removed the region but left the route, and reset the
    // counters.
    s.rois.clear();
    s.next_roi_id = 0;
    s.next_output_id = 0;
    s.repair();
    assert_eq!(s.outputs[0].assigned, None);
    assert_eq!(s.plan(true, FULL).len(), 1);
    assert_eq!(s.add_output("next".to_string()), OutputId(2));
}

#[test]
fn a_new_show_is_1080p50_with_the_outputs_live() {
    let s: Show<Rect> = Show::new();
    assert_eq!(s.output_format.name(), "1080p50");
    assert!(s.outputs_enabled);
    assert!(s.rois.is_empty() && s.outputs.is_empty());
    assert_eq!(s.version, kestrel::show::current_version());
    assert_eq!(s.input_size, kestrel::show::default_input_size());
    assert!(kestrel::show::yes());
    let d: Show<Rect> = Show::default();
    assert_eq!(d, s);
}

#[test]
fn every_operation_keeps_ids_distinct_and_crosspoints_pointing_at_regions() {
    let mut s = show_with(3, 3);
    let (a, b) = (s.rois[0].id, s.rois[2].id);
    s.route(OutputId(1), Some(a)).unwrap();
    s.route(OutputId(2), Some(b)).unwrap();
    s.remove_roi(a).unwrap();
    s.add_roi("again".to_string(), FULL);
    s.add_output("more".to_string());
    s.remove_output(OutputId(3)).unwrap();
    let mut rois: Vec<u32> = s.rois.iter().map(|r| r.id.0).collect();
    rois.dedup();
    assert_eq!(rois.len(), s.rois.len());
    let mut outs: Vec<u32> = s.outputs.iter().map(|o| o.id.0).collect();
    outs.sort();
    outs.dedup();
    assert_eq!(outs.len(), s.outputs.len());
    for o in &s.outputs {
        if let Some(r) = o.assigned {
            assert!(s.roi(r).is_some(), "{} points at a missing region", o.id.name());
        }
    }
}

#[test]
fn the_region_behind_an_output_is_found_through_its_route() {
    let mut s = show_with(2, 2);
    let roi = s.rois[1].id;
    s.route(OutputId(2), Some(roi)).unwrap();
    assert_eq!(s.routed_region(OutputId(2)).map(|r| r.name.as_str()), Some("R1"));
    assert!(s.routed_region(OutputId(1)).is_none(), "nothing routed");
    assert!(s.routed_region(OutputId(9)).is_none(), "no such output");
}
