//! The control API's commands, as they act on the shared state: each one is
//! an edit of the show — so it moves the revision, refused or not — and each
//! one answers with a [`Reply`].
use vstd::prelude::*;
use crate::control::{apply_enable, apply_output_body, with_body, enable_hint, EnableBody, OutputBody, Reply, RouteBody, Shared};
use crate::geom::Size;
use crate::show::{Roi, RoiId, OutputId, ShowError, ShowModel};

verus! {

/// `POST /api/route`: take a region to an output, or clear the crosspoint.
pub fn route<R>(shared: &mut Shared<R>, body: &RouteBody) -> (reply: Reply)
    ensures
        (final(shared).current()@, old(shared).current()@.routed(body.output, body.roi).1)
            == old(shared).current()@.routed(body.output, body.roi),
        reply.ok == old(shared).current()@.routed(body.output, body.roi).1 is Ok,
        old(shared).current()@.routed(body.output, body.roi).1 matches Err(e) ==> reply.error is Some
            && reply.error->0@ == e.message_spec(),
        reply.ok ==> reply.error is None,
        reply.id is None,
        final(shared).rev() == old(shared).rev().wrapping_add(1),
        final(shared).facts() == old(shared).facts(),
{
    let show = shared.edit();
    Reply::from_result(show.route(body.output, body.roi))
}

/// `POST /api/output/enable`: set or toggle the global kill. Every crosspoint
/// survives a mute.
pub fn enable<R>(shared: &mut Shared<R>, body: &EnableBody) -> (reply: Reply)
    ensures
        final(shared).current()@ == (ShowModel {
            outputs_enabled: if body.toggle {
                !old(shared).current().outputs_enabled
            } else if body.enabled is Some {
                body.enabled->0
            } else {
                old(shared).current().outputs_enabled
            },
            ..old(shared).current()@
        }),
        reply.ok == (body.toggle || body.enabled is Some),
        !reply.ok ==> reply.error is Some && reply.error->0@ == enable_hint(),
        reply.id is None,
        final(shared).rev() == old(shared).rev().wrapping_add(1),
        final(shared).facts() == old(shared).facts(),
{
    let show = shared.edit();
    apply_enable(show, body)
}

/// `DELETE /api/roi/{id}`: remove a region and every crosspoint that pointed
/// at it.
pub fn delete_roi<R>(shared: &mut Shared<R>, id: u32) -> (reply: Reply)
    ensures
        final(shared).current()@ == old(shared).current()@.without_roi(RoiId(id)).0,
        reply.ok == old(shared).current()@.without_roi(RoiId(id)).1 is Ok,
        !reply.ok ==> reply.error is Some && reply.error->0@ == ShowError::NoSuchRoi(RoiId(id)).message_spec(),
        reply.ok ==> reply.error is None,
        reply.id is None,
        final(shared).rev() == old(shared).rev().wrapping_add(1),
        final(shared).facts() == old(shared).facts(),
{
    let show = shared.edit();
    Reply::from_result(show.remove_roi(RoiId(id)))
}

/// `POST /api/output/{id}`: label, idle fill, fit — each only when given.
pub fn update_output<R>(shared: &mut Shared<R>, id: u32, body: OutputBody) -> (reply: Reply)
    ensures
        old(shared).current()@.has_output(OutputId(id)) ==> {
            &&& reply.ok
            &&& reply.error is None
            &&& final(shared).current()@ == (ShowModel {
                outputs: old(shared).current()@.outputs.update(
                    old(shared).current()@.output_pos(OutputId(id)),
                    with_body(
                        old(shared).current()@.outputs[old(shared).current()@.output_pos(OutputId(id))],
                        body.label,
                        body.idle,
                        body.fit,
                    ),
                ),
                ..old(shared).current()@
            })
        },
        !old(shared).current()@.has_output(OutputId(id)) ==> {
            &&& !reply.ok
            &&& reply.error is Some
            &&& reply.error->0@ == ShowError::NoSuchOutput(OutputId(id)).message_spec()
            &&& final(shared).current()@ == old(shared).current()@
        },
        reply.id is None,
        final(shared).rev() == old(shared).rev().wrapping_add(1),
        final(shared).facts() == old(shared).facts(),
{
    let show = shared.edit();
    apply_output_body(show, OutputId(id), body)
}

/// The region `create_roi` adds: the next id, the name given or `Region`,
/// and the aspect lock given, or on.
pub open spec fn created_model<R>(s: ShowModel<R>, name: String, rect: R, lock_aspect: Option<bool>) -> ShowModel<R> {
    let (t, id) = s.with_roi(name, rect);
    if lock_aspect is Some && t.roi_pos(id) >= 0 {
        ShowModel {
            rois: t.rois.update(t.roi_pos(id), Roi { lock_aspect: lock_aspect->0, ..t.rois[t.roi_pos(id)] }),
            ..t
        }
    } else {
        t
    }
}

/// `POST /api/roi`: add a region. The rectangle is one already judged to have
/// an area and already brought into the frame; a name not given is `Region`.
pub fn create_roi<R>(shared: &mut Shared<R>, name: Option<String>, rect: R, lock_aspect: Option<bool>) -> (reply: Reply)
    requires
        old(shared).current().next_roi_id < u32::MAX,
    ensures
        final(shared).current()@ == created_model(
            old(shared).current()@,
            final(shared).current()@.rois.last().name,
            rect,
            lock_aspect,
        ),
        name matches Some(n) ==> final(shared).current()@.rois.last().name == n,
        name is None ==> final(shared).current()@.rois.last().name@ == "Region"@,
        reply.ok,
        reply.error is None,
        reply.id == Some(old(shared).current().next_roi_id),
        final(shared).rev() == old(shared).rev().wrapping_add(1),
        final(shared).facts() == old(shared).facts(),
{
    let name = match name {
        Some(n) => n,
        None => {
            let mut n = String::new();
            n.append("Region");
            n
        },
    };
    let show = shared.edit();
    let ghost before = show@;
    let id = show.add_roi(name, rect);
    let ghost (t, tid) = before.with_roi(name, rect);
    assert(tid == id);
    if let Some(lock) = lock_aspect {
        proof { show.lemma_roi_pos(id); }
        match show.roi_mut(id) {
            Some(r) => {
                r.lock_aspect = lock;
            },
            None => {},
        }
    }
    proof {
        let k = t.roi_pos(id);
        if lock_aspect is Some && k >= 0 {
            assert(k == t.rois.len() - 1 || k < t.rois.len() - 1);
        }
    }
    Reply::created(id.0)
}

/// The rectangle a region ends up with after an edit: unchanged when none is
/// given; the one given when the region is not aspect-locked; else what
/// `keep_aspect` made of it for the output and input rasters.
pub open spec fn edited_rect<R, F: Fn(R, Size, Size) -> R>(
    before: R,
    given: Option<R>,
    locked: bool,
    keep_aspect: F,
    output: Size,
    input: Size,
    after: R,
) -> bool {
    match given {
        None => after == before,
        Some(r) => if locked { keep_aspect.ensures((r, output, input), after) } else { after == r },
    }
}

/// `POST /api/roi/{id}`: rename, lock or unlock, move. A given rectangle is
/// one already brought into the frame; an aspect-locked region is then held
/// to the output's aspect by `keep_aspect`. An unknown region is refused and
/// nothing changes but the revision.
pub fn update_roi<R, F: Fn(R, Size, Size) -> R>(
    shared: &mut Shared<R>,
    id: u32,
    name: Option<String>,
    lock_aspect: Option<bool>,
    rect: Option<R>,
    keep_aspect: F,
) -> (reply: Reply)
    requires
        forall|r: R, o: Size, i: Size| #[trigger] keep_aspect.requires((r, o, i)),
    ensures
        ({
            let s = old(shared).current()@;
            let k = s.roi_pos(RoiId(id));
            let t = final(shared).current()@;
            &&& !s.has_roi(RoiId(id)) ==> {
                &&& !reply.ok
                &&& reply.error is Some
                &&& reply.error->0@ == ShowError::NoSuchRoi(RoiId(id)).message_spec()
                &&& t == s
            }
            &&& s.has_roi(RoiId(id)) ==> {
                let locked = match lock_aspect { Some(l) => l, None => s.rois[k].lock_aspect };
                &&& reply.ok
                &&& reply.error is None
                &&& t == (ShowModel {
                    rois: s.rois.update(k, Roi {
                        name: match name { Some(n) => n, None => s.rois[k].name },
                        lock_aspect: locked,
                        rect: t.rois[k].rect,
                        ..s.rois[k]
                    }),
                    ..s
                })
                &&& edited_rect(s.rois[k].rect, rect, locked, keep_aspect, s.output_format.size, s.input_size, t.rois[k].rect)
            }
        }),
        reply.id is None,
        final(shared).rev() == old(shared).rev().wrapping_add(1),
        final(shared).facts() == old(shared).facts(),
{
    let show = shared.edit();
    let output = show.output_format.size;
    let input = show.input_size;
    proof { show.lemma_roi_pos(RoiId(id)); }
    match show.roi_mut(RoiId(id)) {
        None => Reply::refused(ShowError::NoSuchRoi(RoiId(id)).message()),
        Some(roi) => {
            if let Some(n) = name {
                roi.name = n;
            }
            if let Some(l) = lock_aspect {
                roi.lock_aspect = l;
            }
            if let Some(r) = rect {
                if roi.lock_aspect {
                    roi.rect = keep_aspect(r, output, input);
                } else {
                    roi.rect = r;
                }
            }
            Reply::ok()
        },
    }
}

/// The state feed's memory of what it last sent. It re-snapshots at a fixed
/// rate and sends only when the revision moved, so an idle show costs nothing;
/// it starts having sent nothing, so a surface that connects mid-show is not
/// left blank until something changes.
pub struct Feed {
    pub last: Option<u64>,
}

impl Feed {
    pub fn new() -> (f: Self)
        ensures
            f.last is None,
    {
        Feed { last: None }
    }

    /// Whether to send at this revision; remembers it either way.
    pub fn due(&mut self, revision: u64) -> (send: bool)
        ensures
            send == (old(self).last != Some(revision)),
            final(self).last == Some(revision),
    {
        let send = match self.last {
            Some(l) => l != revision,
            None => true,
        };
        self.last = Some(revision);
        send
    }
}

} // verus!
