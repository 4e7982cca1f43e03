use kestrel::commands::{create_roi, delete_roi, enable, route, update_output, update_roi, Feed};
use kestrel::control::{EnableBody, OutputBody, RouteBody, Shared};
use kestrel::geom::{FitMode, Size};
use kestrel::show::{IdleFill, OutputId, RoiId, Show};

#[derive(Debug, Clone, Copy, PartialEq)]
struct Rect {
    x: f64,
    y: f64,
    w: f64,
    h: f64,
}

const FULL: Rect = Rect { x: 0.0, y: 0.0, w: 1.0, h: 1.0 };

fn shared() -> Shared<Rect> {
    let mut show = Show::with_outputs(2);
    show.add_roi("Lectern".to_string(), Rect { x: 0.1, y: 0.1, w: 0.25, h: 0.25 });
    Shared::new(show)
}

/// Stands in for holding a region to the output aspect: halves the width.
fn narrow(r: Rect, _output: Size, _input: Size) -> Rect {
    Rect { w: r.w / 2.0, ..r }
}

#[test]
fn routing_shows_up_in_the_next_snapshot() {
    let mut s = shared();
    let r0 = s.revision();
    let reply = route(&mut s, &RouteBody { output: OutputId(1), roi: Some(RoiId(1)) });
    assert!(reply.ok);
    assert_eq!(s.revision(), r0 + 1, "the revision moves on a command so the feed knows to push");
    assert_eq!(s.snapshot(FULL).outputs[0].assigned, Some(RoiId(1)));
}

#[test]
fn clearing_a_crosspoint_is_a_normal_command_not_an_error() {
    let mut s = shared();
    route(&mut s, &RouteBody { output: OutputId(1), roi: Some(RoiId(1)) });
    let reply = route(&mut s, &RouteBody { output: OutputId(1), roi: None });
    assert!(reply.ok && reply.error.is_none());
    assert_eq!(s.show().outputs[0].assigned, None);
}

#[test]
fn a_refusal_is_answered_with_ok_false_and_a_real_message() {
    let mut s = shared();
    let r0 = s.revision();
    let reply = route(&mut s, &RouteBody { output: OutputId(1), roi: Some(RoiId(99)) });
    assert!(!reply.ok);
    assert_eq!(reply.error.as_deref(), Some("no region with id roi99"));
    assert_eq!(s.revision(), r0 + 1, "every edit moves the revision, refused or not");
}

#[test]
fn the_global_kill_can_be_set_or_toggled_and_muting_leaves_every_route_intact() {
    let mut s = shared();
    route(&mut s, &RouteBody { output: OutputId(2), roi: Some(RoiId(1)) });
    assert!(enable(&mut s, &EnableBody { enabled: Some(false), toggle: false }).ok);
    assert!(!s.show().outputs_enabled);
    assert_eq!(s.show().outputs[1].assigned, Some(RoiId(1)));
    assert!(enable(&mut s, &EnableBody { enabled: None, toggle: true }).ok);
    assert!(s.show().outputs_enabled);
    assert!(!enable(&mut s, &EnableBody { enabled: None, toggle: false }).ok);
}

#[test]
fn a_region_can_be_created_edited_and_deleted() {
    let mut s = shared();
    let made = create_roi(&mut s, Some("Choir".to_string()), FULL, Some(false));
    assert!(made.ok);
    assert_eq!(made.id, Some(2));
    let roi = s.show().roi(RoiId(2)).unwrap().clone();
    assert_eq!(roi.name, "Choir");
    assert!(!roi.lock_aspect);

    let moved = Rect { x: 0.5, y: 0.5, w: 0.2, h: 0.2 };
    assert!(update_roi(&mut s, 2, Some("Choir L".to_string()), None, Some(moved), narrow).ok);
    let roi = s.show().roi(RoiId(2)).unwrap();
    assert_eq!(roi.name, "Choir L");
    assert_eq!(roi.rect, moved, "an unlocked region takes the rectangle as given");

    assert!(update_roi(&mut s, 2, None, Some(true), Some(moved), narrow).ok);
    let roi = s.show().roi(RoiId(2)).unwrap();
    assert!(roi.lock_aspect);
    assert_eq!(roi.rect, narrow(moved, Size::new(0, 0), Size::new(0, 0)), "a locked one is held to the aspect");

    assert!(delete_roi(&mut s, 2).ok);
    assert!(s.show().roi(RoiId(2)).is_none());
    let again = delete_roi(&mut s, 2);
    assert_eq!(again.error.as_deref(), Some("no region with id roi2"));
}

#[test]
fn a_region_with_no_name_is_called_region_and_starts_locked() {
    let mut s = shared();
    let made = create_roi(&mut s, None, FULL, None);
    let roi = s.show().roi(RoiId(made.id.unwrap())).unwrap();
    assert_eq!(roi.name, "Region");
    assert!(roi.lock_aspect);
}

#[test]
fn editing_an_unknown_region_or_output_is_refused_and_changes_nothing() {
    let mut s = shared();
    let before = s.show().clone();
    let r = update_roi(&mut s, 9, Some("x".to_string()), Some(false), Some(FULL), narrow);
    assert_eq!(r.error.as_deref(), Some("no region with id roi9"));
    let r = update_output(&mut s, 9, OutputBody { label: None, idle: Some(IdleFill::Bars), fit: None });
    assert_eq!(r.error.as_deref(), Some("no output with id out9"));
    assert_eq!(s.show(), &before);
}

#[test]
fn deleting_a_routed_region_clears_the_outputs_and_leaves_them_running() {
    let mut s = shared();
    route(&mut s, &RouteBody { output: OutputId(1), roi: Some(RoiId(1)) });
    route(&mut s, &RouteBody { output: OutputId(2), roi: Some(RoiId(1)) });
    assert!(delete_roi(&mut s, 1).ok);
    let v = s.snapshot(FULL);
    assert_eq!(v.outputs.len(), 2);
    assert!(v.outputs.iter().all(|o| o.assigned.is_none() && o.on_air == "black"));
}

#[test]
fn an_outputs_idle_fill_and_fit_can_be_set_through_the_api() {
    let mut s = shared();
    let r = update_output(&mut s, 2, OutputBody { label: None, idle: Some(IdleFill::Bars), fit: Some(FitMode::Stretch) });
    assert!(r.ok);
    let v = s.snapshot(FULL);
    assert_eq!(v.outputs[1].on_air, "bars");
    assert_eq!(v.outputs[1].fit, "stretch");
}

#[test]
fn the_feed_sends_at_once_and_then_only_when_the_revision_moves() {
    let mut feed = Feed::new();
    assert!(feed.due(1), "a surface that connects mid-show is not left blank");
    assert!(!feed.due(1));
    assert!(feed.due(2));
    assert!(!feed.due(2));
}
