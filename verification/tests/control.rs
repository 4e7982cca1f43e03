use kestrel::control::{
    apply_enable, fit_name, on_air_name, quality_name, scaling_name, apply_output_body, EnableBody, FormatView,
    OutputBody, Reply, Revision, Runtime, Shared,
};
use kestrel::format::VideoFormat;
use kestrel::geom::{FitMode, ScaleQuality, Size};
use kestrel::show::{IdleFill, OutputId, Pattern, PlanSource, RoiId, ScalingFilter, Show, ShowError};

#[derive(Debug, Clone, Copy, PartialEq)]
struct Rect {
    x: f64,
    y: f64,
    w: f64,
    h: f64,
}

const FULL: Rect = Rect { x: 0.0, y: 0.0, w: 1.0, h: 1.0 };

fn shared() -> Shared<Rect> {
    let mut show = Show::with_outputs(3);
    show.add_roi("Lectern".to_string(), Rect { x: 0.1, y: 0.1, w: 0.25, h: 0.25 });
    show.add_roi("Wide".to_string(), FULL);
    Shared::new(show)
}

#[test]
fn editing_bumps_the_revision_and_reading_does_not() {
    let mut s = shared();
    let r0 = s.revision();
    let _ = s.show().outputs.len();
    assert_eq!(s.revision(), r0, "a read must not look like a change");
    s.edit().outputs_enabled = false;
    assert!(s.revision() > r0);
}

#[test]
fn the_frame_counter_does_not_push_a_message_every_frame() {
    // The state feed sends on revision change. If ticking the frame counter
    // bumped it, the feed would be a 50 Hz firehose.
    let mut s = shared();
    let r0 = s.revision();
    for _ in 0..100 {
        let mut r = s.runtime();
        r.frames += 1;
        s.set_runtime(r);
    }
    assert_eq!(s.revision(), r0);
    assert_eq!(s.runtime().frames, 100);
}

#[test]
fn losing_the_input_does_push_a_message() {
    let mut s = shared();
    let mut r = s.runtime();
    r.input_live = true;
    s.set_runtime(r);
    let r0 = s.revision();
    let mut r = s.runtime();
    r.input_live = false;
    s.set_runtime(r);
    assert!(s.revision() > r0, "input lock is exactly what tally cares about");
}

#[test]
fn the_snapshot_reports_what_is_on_air_not_just_what_is_routed() {
    let mut s = shared();
    let (out, roi) = {
        let show = s.show();
        (show.outputs[0].id, show.rois[0].id)
    };
    s.edit().route(out, Some(roi)).unwrap();
    let mut r = s.runtime();
    r.input_live = true;
    s.set_runtime(r);

    let v = s.snapshot(FULL);
    assert_eq!(v.outputs[0].on_air, "region");
    assert_eq!(v.outputs[0].assigned_name.as_deref(), Some("Lectern"));

    // Kill the outputs: still routed, no longer on air.
    s.edit().outputs_enabled = false;
    let v = s.snapshot(FULL);
    assert_eq!(v.outputs[0].assigned, Some(roi), "the route survives a mute");
    assert!(
        v.outputs.iter().all(|o| o.on_air == "muted"),
        "every output must report muted, not just the routed one"
    );
}

#[test]
fn an_unrouted_output_still_appears_with_its_idle_fill() {
    let s = shared();
    let v = s.snapshot(FULL);
    assert_eq!(v.outputs.len(), 3);
    assert!(v.outputs.iter().all(|o| o.assigned.is_none()));
    assert!(v.outputs.iter().all(|o| o.on_air == "black"));
    // A scale figure exists exactly for an output with a region found for it.
    assert!(v.outputs.iter().all(|o| o.assigned_name.is_none()));
}

#[test]
fn a_region_carries_the_outputs_showing_it() {
    let mut s = shared();
    let (a, b, roi) = {
        let show = s.show();
        (show.outputs[0].id, show.outputs[1].id, show.rois[1].id)
    };
    {
        let show = s.edit();
        show.route(a, Some(roi)).unwrap();
        show.route(b, Some(roi)).unwrap();
    }
    let v = s.snapshot(FULL);
    let r = v.rois.iter().find(|r| r.id == roi).unwrap();
    assert_eq!(r.outputs, vec![a, b], "tally must list every output");
}

#[test]
fn a_refusal_always_carries_a_message() {
    let r: Reply = Reply::from_result(Err(ShowError::NoSuchRoi(RoiId(99))));
    assert!(!r.ok);
    assert!(
        r.error.as_deref().is_some_and(|e| !e.is_empty()),
        "a client must never have to invent the error text"
    );
}

// --- further tests ---------------------------------------------------

#[test]
fn a_refusal_names_what_was_missing() {
    let r = Reply::from_result(Err(ShowError::NoSuchOutput(OutputId(9))));
    assert_eq!(r.error.as_deref(), Some("no output with id out9"));
    assert_eq!(r.id, None);
    let ok = Reply::from_result(Ok(()));
    assert!(ok.ok && ok.error.is_none());
    let made = Reply::created(4);
    assert_eq!((made.ok, made.id), (true, Some(4)));
}

#[test]
fn a_refusal_with_an_empty_message_still_says_something() {
    let r = Reply::refused(String::new());
    assert!(!r.ok);
    assert_eq!(r.error.as_deref(), Some("the command was refused"));
    assert_eq!(r.id, None);
    let given = Reply::refused("no such thing".to_string());
    assert_eq!(given.error.as_deref(), Some("no such thing"));
}

#[test]
fn the_global_kill_can_be_set_or_toggled_and_keeps_every_route() {
    let mut show: Show<Rect> = Show::with_outputs(2);
    let roi = show.add_roi("A".to_string(), FULL);
    show.route(OutputId(1), Some(roi)).unwrap();
    let r = apply_enable(&mut show, &EnableBody { enabled: Some(false), toggle: false });
    assert!(r.ok);
    assert!(!show.outputs_enabled);
    assert_eq!(show.outputs[0].assigned, Some(roi), "muting leaves every route intact");
    let r = apply_enable(&mut show, &EnableBody { enabled: None, toggle: true });
    assert!(r.ok && show.outputs_enabled);
    let r = apply_enable(&mut show, &EnableBody { enabled: None, toggle: false });
    assert!(!r.ok);
    assert_eq!(r.error.as_deref(), Some("pass either \"enabled\": true/false or \"toggle\": true"));
    assert!(show.outputs_enabled, "a refused command changes nothing");
}

#[test]
fn an_outputs_idle_fill_and_fit_can_be_set() {
    let mut show: Show<Rect> = Show::with_outputs(2);
    let r = apply_output_body(
        &mut show,
        OutputId(2),
        OutputBody { label: None, idle: Some(IdleFill::Bars), fit: Some(FitMode::Fill) },
    );
    assert!(r.ok);
    assert_eq!(show.outputs[1].idle, IdleFill::Bars);
    assert_eq!(show.outputs[1].fit, FitMode::Fill);
    assert_eq!(show.outputs[1].label, "Output 2", "a field not given is left alone");
    let r = apply_output_body(&mut show, OutputId(2), OutputBody { label: Some("Screen".to_string()), idle: None, fit: None });
    assert!(r.ok);
    assert_eq!(show.outputs[1].label, "Screen");
    let r = apply_output_body(&mut show, OutputId(5), OutputBody { label: Some("x".to_string()), idle: None, fit: None });
    assert_eq!(r.error.as_deref(), Some("no output with id out5"));
}

#[test]
fn a_lost_input_reads_as_no_input_on_a_routed_output() {
    let mut s = shared();
    let (out, roi) = (OutputId(2), RoiId(2));
    s.edit().route(out, Some(roi)).unwrap();
    let v = s.snapshot(FULL);
    assert_eq!(v.outputs[1].on_air, "no input");
    assert_eq!(v.outputs[1].assigned_name.as_deref(), Some("Wide"));
    assert_eq!(v.outputs[0].on_air, "black");
}

#[test]
fn the_snapshot_reports_the_format_the_input_and_the_counters() {
    let mut s = shared();
    let mut r = s.runtime();
    r.input_size = Some(Size::new(1280, 720));
    r.input_device = Some("synthetic bars 1280x720".to_string());
    r.decklink = "DeckLink: not compiled in".to_string();
    r.buffered = std::collections::BTreeMap::from([(3, 5)]);
    r.frames = 42;
    s.set_runtime(r);
    let v = s.snapshot(FULL);
    assert_eq!(v.output_format.name, "1080p50");
    assert_eq!((v.output_format.width, v.output_format.height), (1920, 1080));
    assert_eq!((v.output_format.rate_num, v.output_format.rate_den), (50, 1));
    assert_eq!(v.scaling, "bicubic");
    assert_eq!((v.input.width, v.input.height), (1280, 720));
    assert_eq!(v.input.device.as_deref(), Some("synthetic bars 1280x720"));
    assert_eq!(v.decklink, "DeckLink: not compiled in");
    assert_eq!(v.frames, 42);
    assert_eq!(v.outputs[2].buffered, Some(5));
    assert_eq!(v.outputs[0].buffered, None);
    assert_eq!(v.outputs[0].fit, "fit");
    assert_eq!(v.rois.len(), 2);
    assert_eq!(v.rois[0].name, "Lectern");
    assert_eq!(v.revision, s.revision());
}

#[test]
fn without_a_detected_raster_the_input_reads_as_the_shows() {
    let s = shared();
    let v = s.snapshot(FULL);
    assert_eq!((v.input.width, v.input.height), (1920, 1080));
    assert!(!v.input.live);
    assert_eq!(v.input.device, None);
}

#[test]
fn a_status_change_pushes_and_a_counter_does_not() {
    let mut rev = Revision::new();
    let mut cur = Runtime::new();
    assert_eq!(rev.value, 1);
    let mut next = cur.copy();
    next.buffered = std::collections::BTreeMap::from([(1, 3)]);
    rev.set_runtime(&mut cur, next);
    assert_eq!(rev.value, 1);
    let mut next = cur.copy();
    next.decklink = "DeckLink: 1 sub-device, 1 active in the current profile".to_string();
    rev.set_runtime(&mut cur, next);
    assert_eq!(rev.value, 2);
    let mut next = cur.copy();
    next.input_size = Some(Size::new(720, 576));
    rev.set_runtime(&mut cur, next);
    assert_eq!(rev.value, 3);
    rev.bump();
    assert_eq!(rev.value, 4);
}

#[test]
fn names_on_the_wire() {
    assert_eq!(quality_name(ScaleQuality::Native), "native");
    assert_eq!(quality_name(ScaleQuality::Soft), "soft");
    assert_eq!(quality_name(ScaleQuality::Heavy), "heavy");
    assert_eq!(fit_name(FitMode::Stretch), "stretch");
    assert_eq!(fit_name(FitMode::Fill), "fill");
    assert_eq!(scaling_name(ScalingFilter::Bilinear), "bilinear");
    assert_eq!(on_air_name::<Rect>(&PlanSource::Muted), "muted");
    assert_eq!(on_air_name::<Rect>(&PlanSource::Pattern(Pattern::Bars)), "bars");
    assert_eq!(on_air_name(&PlanSource::Crop { roi: None, rect: FULL, fit: FitMode::Fit }), "full input");
    let f = FormatView::of(&VideoFormat::new(1280, 720, 60000, 1001, kestrel::format::Scan::Progressive));
    assert_eq!(f.name, "720p59.94");
}
