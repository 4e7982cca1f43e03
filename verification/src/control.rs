//! The control surface's decisions: what a command does to the show, what it
//! answers, when a change is worth pushing, and how what is on air is named.
//!
//! Refusals are answered, not raised: every command gets a [`Reply`], and a
//! refused one carries a message that is never empty, so a client never has to
//! invent one.
use std::collections::BTreeMap;
use vstd::prelude::*;
use crate::format::{format_name, VideoFormat};
use crate::geom::{FitMode, ScaleQuality, Size};
use crate::show::{
    first_index, lemma_first_index, IdleFill, Output, OutputId, OutputPlan, Pattern, PlanSource, RoiId,
    ScalingFilter, Show, ShowError, ShowModel,
};

verus! {

broadcast use vstd::std_specs::btree::group_btree_axioms, vstd::laws_cmp::group_laws_cmp;

/// Every command answers with this, including refusals.
///
/// Refusals come back with `ok: false` and an `error` string, and `error` is
/// **never** empty on a refusal.
#[derive(Debug)]
pub struct Reply {
    pub ok: bool,
    pub error: Option<String>,
    pub id: Option<u32>,
}

impl Reply {
    pub fn ok() -> (r: Self)
        ensures
            r.ok,
            r.error is None,
            r.id is None,
    {
        Reply { ok: true, error: None, id: None }
    }

    pub fn created(id: u32) -> (r: Self)
        ensures
            r.ok,
            r.error is None,
            r.id == Some(id),
    {
        Reply { ok: true, error: None, id: Some(id) }
    }

    /// A refusal carrying `msg`; an empty `msg` is replaced by a plain
    /// statement that the command was refused, so the error is never empty.
    pub fn refused(msg: String) -> (r: Self)
        ensures
            !r.ok,
            r.error is Some,
            r.error->0@ == refusal_text(msg@),
            r.error->0@.len() > 0,
            r.id is None,
    {
        if msg.as_str().is_empty() {
            let mut text = String::new();
            text.append("the command was refused");
            proof {
                reveal_strlit("the command was refused");
            }
            Reply { ok: false, error: Some(text), id: None }
        } else {
            Reply { ok: false, error: Some(msg), id: None }
        }
    }

    /// The answer to a command whose outcome is a show operation's result:
    /// success, or a refusal carrying the error's message.
    pub fn from_result(r: Result<(), ShowError>) -> (reply: Self)
        ensures
            reply.ok == r is Ok,
            reply.id is None,
            r is Ok ==> reply.error is None,
            r matches Err(e) ==> reply.error is Some && reply.error->0@ == e.message_spec(),
    {
        match r {
            Ok(()) => Reply::ok(),
            Err(e) => Reply::refused(e.message()),
        }
    }
}

/// What a refusal says when its message is empty.
pub open spec fn plain_refusal() -> Seq<char> {
    "the command was refused"@
}

/// The error text of a refusal of `msg`: the message itself, or
/// [`plain_refusal`] where it is empty.
pub open spec fn refusal_text(msg: Seq<char>) -> Seq<char> {
    if msg.len() == 0 { plain_refusal() } else { msg }
}

/// The output format as a control surface sees it.
#[derive(Debug, Clone)]
pub struct FormatView {
    pub name: String,
    pub width: u32,
    pub height: u32,
    pub rate_num: u32,
    pub rate_den: u32,
}

impl FormatView {
    pub fn of(f: &VideoFormat) -> (v: Self)
        ensures
            v.name@ == format_name(*f),
            v.width == f.size.w,
            v.height == f.size.h,
            v.rate_num == f.rate.num,
            v.rate_den == f.rate.den,
    {
        FormatView {
            name: f.name(),
            width: f.width(),
            height: f.height(),
            rate_num: f.rate.num,
            rate_den: f.rate.den,
        }
    }
}

/// The input as a control surface sees it.
#[derive(Debug, Clone)]
pub struct InputView {
    pub live: bool,
    pub width: u32,
    pub height: u32,
    pub device: Option<String>,
}

/// `POST /api/route`: `{"output":1,"roi":2}`, or `"roi":null` to clear.
#[derive(Debug)]
pub struct RouteBody {
    pub output: OutputId,
    /// `None` clears the crosspoint, which is a normal steady state, not an
    /// error.
    pub roi: Option<RoiId>,
}

/// `POST /api/output/enable`.
#[derive(Debug)]
pub struct EnableBody {
    pub enabled: Option<bool>,
    /// Toggle instead of set. A control surface with one button wants this.
    pub toggle: bool,
}

/// `POST /api/output/{id}`: label, idle fill, fit mode — each only when given.
#[derive(Debug)]
pub struct OutputBody {
    pub label: Option<String>,
    pub idle: Option<IdleFill>,
    pub fit: Option<FitMode>,
}

/// The refusal for an enable command that says neither what to set nor to
/// toggle.
pub open spec fn enable_hint() -> Seq<char> {
    "pass either \"enabled\": true/false or \"toggle\": true"@
}

/// The global kill: set, toggle, or refuse a body that asks for neither.
/// Only `outputs_enabled` ever changes; every crosspoint survives a mute.
pub fn apply_enable<R>(show: &mut Show<R>, body: &EnableBody) -> (reply: Reply)
    ensures
        final(show)@ == (ShowModel {
            outputs_enabled: if body.toggle {
                !old(show).outputs_enabled
            } else if body.enabled is Some {
                body.enabled->0
            } else {
                old(show).outputs_enabled
            },
            ..old(show)@
        }),
        reply.ok == (body.toggle || body.enabled is Some),
        reply.id is None,
        !reply.ok ==> reply.error is Some && reply.error->0@ == enable_hint(),
        reply.ok ==> reply.error is None,
{
    if body.toggle {
        show.outputs_enabled = !show.outputs_enabled;
        Reply::ok()
    } else if let Some(v) = body.enabled {
        show.outputs_enabled = v;
        Reply::ok()
    } else {
        let mut msg = String::new();
        msg.append("pass either \"enabled\": true/false or \"toggle\": true");
        proof {
            reveal_strlit("pass either \"enabled\": true/false or \"toggle\": true");
        }
        Reply::refused(msg)
    }
}

/// An output with the given fields of a body applied.
pub open spec fn with_body(o: crate::show::Output, label: Option<String>, idle: Option<IdleFill>, fit: Option<FitMode>) -> crate::show::Output {
    crate::show::Output {
        label: if label is Some { label->0 } else { o.label },
        idle: if idle is Some { idle->0 } else { o.idle },
        fit: if fit is Some { fit->0 } else { o.fit },
        ..o
    }
}

/// Edit an output's label, idle fill and fit; each field only when the body
/// gives it. An unknown output is refused and nothing changes.
pub fn apply_output_body<R>(show: &mut Show<R>, id: OutputId, body: OutputBody) -> (reply: Reply)
    ensures
        old(show)@.has_output(id) ==> {
            &&& reply.ok
            &&& reply.error is None
            &&& final(show)@ == (ShowModel {
                outputs: old(show)@.outputs.update(
                    old(show)@.output_pos(id),
                    with_body(old(show)@.outputs[old(show)@.output_pos(id)], body.label, body.idle, body.fit),
                ),
                ..old(show)@
            })
        },
        !old(show)@.has_output(id) ==> {
            &&& !reply.ok
            &&& reply.error is Some
            &&& reply.error->0@ == ShowError::NoSuchOutput(id).message_spec()
            &&& final(show)@ == old(show)@
        },
        reply.id is None,
{
    proof { show.lemma_output_pos(id); }
    match show.output_index(id) {
        None => Reply::refused(ShowError::NoSuchOutput(id).message()),
        Some(i) => {
            let ghost want = old(show)@.outputs.update(
                i as int,
                with_body(old(show)@.outputs[i as int], body.label, body.idle, body.fit),
            );
            let OutputBody { label, idle, fit } = body;
            if let Some(l) = label {
                show.outputs[i].label = l;
            }
            if let Some(f) = idle {
                show.outputs[i].idle = f;
            }
            if let Some(f) = fit {
                show.outputs[i].fit = f;
            }
            assert(show@.outputs =~= want);
            Reply::ok()
        },
    }
}

/// How what an output carries reads on a control surface.
pub open spec fn on_air_spec<R>(s: PlanSource<R>) -> Seq<char> {
    match s {
        PlanSource::Crop { roi: Some(_), .. } => "region"@,
        PlanSource::Crop { roi: None, .. } => "full input"@,
        PlanSource::Pattern(Pattern::Black) => "black"@,
        PlanSource::Pattern(Pattern::Bars) => "bars"@,
        PlanSource::Muted => "muted"@,
        PlanSource::NoInput => "no input"@,
    }
}

/// What an output is *actually* carrying, which is not always what it is
/// routed to — a muted or input-less output is on air with black.
pub fn on_air_name<R>(s: &PlanSource<R>) -> (name: &'static str)
    ensures
        name@ == on_air_spec(*s),
{
    match s {
        PlanSource::Crop { roi: Some(_), .. } => "region",
        PlanSource::Crop { roi: None, .. } => "full input",
        PlanSource::Pattern(Pattern::Black) => "black",
        PlanSource::Pattern(Pattern::Bars) => "bars",
        PlanSource::Muted => "muted",
        PlanSource::NoInput => "no input",
    }
}

pub open spec fn quality_spec(q: ScaleQuality) -> Seq<char> {
    match q {
        ScaleQuality::Native => "native"@,
        ScaleQuality::Soft => "soft"@,
        ScaleQuality::Heavy => "heavy"@,
    }
}

pub fn quality_name(q: ScaleQuality) -> (name: &'static str)
    ensures
        name@ == quality_spec(q),
{
    match q {
        ScaleQuality::Native => "native",
        ScaleQuality::Soft => "soft",
        ScaleQuality::Heavy => "heavy",
    }
}

/// Live facts about the machine that are not part of the saved show.
#[derive(Debug, Clone)]
pub struct Runtime {
    /// A source is locked and delivering real frames.
    pub input_live: bool,
    pub input_size: Option<Size>,
    pub input_device: Option<String>,
    /// Human-readable, and honest about the difference between "no SDI in this
    /// build" and "no card found".
    pub decklink: String,
    /// Frames the engine has rendered since start.
    pub frames: u64,
    /// Per-output card buffer counters, keyed by output id: at most one
    /// for each output, and only for outputs with a card open.
    pub buffered: BTreeMap<u32, i32>,
}

impl Runtime {
    pub fn new() -> (r: Self)
        ensures
            !r.input_live,
            r.input_size is None,
            r.input_device is None,
            r.decklink@.len() == 0,
            r.frames == 0,
            r.buffered@ == Map::<u32, i32>::empty(),
    {
        Runtime {
            input_live: false,
            input_size: None,
            input_device: None,
            decklink: String::new(),
            frames: 0,
            buffered: BTreeMap::new(),
        }
    }
}

/// Whether a control surface would care about the change from `a` to `b`:
/// input lock, input raster, or the DeckLink status. The frame counter and
/// the buffer counters move every frame and are not such a change.
pub open spec fn tally_changed(a: Runtime, b: Runtime) -> bool {
    a.input_live != b.input_live || a.input_size != b.input_size || a.decklink@ != b.decklink@
}

/// The revision counter that tells every control surface when to look again.
///
/// Every edit of the show bumps it; a runtime update bumps it only when
/// something a control surface shows has changed, so the frame counter does
/// not turn the state feed into a firehose.
#[derive(Debug)]
pub struct Revision {
    pub value: u64,
}

impl Revision {
    pub fn new() -> (r: Self)
        ensures
            r.value == 1,
    {
        Revision { value: 1 }
    }

    /// Record an edit of the show.
    pub fn bump(&mut self)
        ensures
            final(self).value == old(self).value.wrapping_add(1),
    {
        self.value = self.value.wrapping_add(1);
    }

    /// Replace the runtime facts, bumping only on a change worth pushing.
    pub fn set_runtime(&mut self, current: &mut Runtime, next: Runtime)
        ensures
            *final(current) == next,
            final(self).value == if tally_changed(*old(current), next) {
                old(self).value.wrapping_add(1)
            } else {
                old(self).value
            },
    {
        let live_changed = current.input_live != next.input_live;
        let size_changed = match (current.input_size, next.input_size) {
            (Some(a), Some(b)) => a.w != b.w || a.h != b.h,
            (None, None) => false,
            _ => true,
        };
        let status_changed = current.decklink != next.decklink;
        *current = next;
        if live_changed || size_changed || status_changed {
            self.bump();
        }
    }
}

// ---- the shared state and the snapshot of it ---------------------------------

/// The show plus the runtime facts, with the revision counter.
///
/// The revision is what makes the state feed cheap: it is re-snapshotted at a
/// fixed rate and sent only when the number moved. Every change to the show
/// goes through [`Shared::edit`], so there is exactly one place that could
/// forget to bump it.
pub struct Shared<R> {
    show: Show<R>,
    runtime: Runtime,
    revision: Revision,
}

impl<R> Shared<R> {
    /// The show as it stands.
    pub closed spec fn current(&self) -> Show<R> {
        self.show
    }

    /// The runtime facts as they stand.
    pub closed spec fn facts(&self) -> Runtime {
        self.runtime
    }

    /// The revision as it stands.
    pub closed spec fn rev(&self) -> u64 {
        self.revision.value
    }

    pub fn new(show: Show<R>) -> (s: Self)
        ensures
            s.current() == show,
            s.facts().is_initial(),
            s.rev() == 1,
    {
        Shared { show, runtime: Runtime::new(), revision: Revision::new() }
    }

    pub fn revision(&self) -> (r: u64)
        ensures
            r == self.rev(),
    {
        self.revision.value
    }

    /// Read the show. Reading never moves the revision.
    pub fn show(&self) -> (s: &Show<R>)
        ensures
            *s == self.current(),
    {
        &self.show
    }

    /// Change the show, bumping the revision: the only way to change it.
    /// Anything that wrote through a plain read would leave every control
    /// surface showing stale tally until something else happened to bump.
    pub fn edit(&mut self) -> (s: &mut Show<R>)
        ensures
            *s == old(self).current(),
            final(self).current() == *final(s),
            final(self).facts() == old(self).facts(),
            final(self).rev() == old(self).rev().wrapping_add(1),
    {
        self.revision.bump();
        &mut self.show
    }

    /// A copy of the runtime facts.
    pub fn runtime(&self) -> (r: Runtime)
        ensures
            r.same_as(self.facts()),
    {
        self.runtime.copy()
    }

    /// Replace the runtime facts. Bumps the revision only when something a
    /// control surface would care about changed — the frame counter moves
    /// every frame and must not push a message every frame.
    pub fn set_runtime(&mut self, next: Runtime)
        ensures
            final(self).current() == old(self).current(),
            final(self).facts() == next,
            final(self).rev() == if tally_changed(old(self).facts(), next) {
                old(self).rev().wrapping_add(1)
            } else {
                old(self).rev()
            },
    {
        self.revision.set_runtime(&mut self.runtime, next);
    }
}

impl Runtime {
    /// Nothing known yet: no input, no status, no frames.
    pub open spec fn is_initial(self) -> bool {
        &&& !self.input_live
        &&& self.input_size is None
        &&& self.input_device is None
        &&& self.decklink@.len() == 0
        &&& self.frames == 0
        &&& self.buffered@ == Map::<u32, i32>::empty()
    }

    /// Equal field by field, the counters by their contents.
    pub open spec fn same_as(self, other: Runtime) -> bool {
        &&& self.input_live == other.input_live
        &&& self.input_size == other.input_size
        &&& self.input_device == other.input_device
        &&& self.decklink == other.decklink
        &&& self.frames == other.frames
        &&& self.buffered@ == other.buffered@
    }

    pub fn copy(&self) -> (r: Runtime)
        ensures
            r.same_as(*self),
    {
        let input_device = match &self.input_device {
            Some(d) => Some(d.clone()),
            None => None,
        };
        let buffered = self.buffered.clone();
        Runtime {
            input_live: self.input_live,
            input_size: self.input_size,
            input_device,
            decklink: self.decklink.clone(),
            frames: self.frames,
            buffered,
        }
    }
}

pub open spec fn fit_spec(f: FitMode) -> Seq<char> {
    match f {
        FitMode::Fit => "fit"@,
        FitMode::Fill => "fill"@,
        FitMode::Stretch => "stretch"@,
    }
}

/// How a fit mode reads on the wire.
pub fn fit_name(f: FitMode) -> (name: &'static str)
    ensures
        name@ == fit_spec(f),
{
    match f {
        FitMode::Fit => "fit",
        FitMode::Fill => "fill",
        FitMode::Stretch => "stretch",
    }
}

pub open spec fn scaling_spec(f: ScalingFilter) -> Seq<char> {
    match f {
        ScalingFilter::Bilinear => "bilinear"@,
        ScalingFilter::Bicubic => "bicubic"@,
    }
}

/// How a scaling filter reads on the wire.
pub fn scaling_name(f: ScalingFilter) -> (name: &'static str)
    ensures
        name@ == scaling_spec(f),
{
    match f {
        ScalingFilter::Bilinear => "bilinear",
        ScalingFilter::Bicubic => "bicubic",
    }
}

pub open spec fn plan_for<R>(id: OutputId) -> spec_fn(OutputPlan<R>) -> bool {
    |p: OutputPlan<R>| p.output == id
}

/// What the plan says output `id` carries; an output the plan does not
/// mention reads as having no input.
pub open spec fn on_air_of<R>(plan: Seq<OutputPlan<R>>, id: OutputId) -> PlanSource<R> {
    let k = first_index(plan, plan_for::<R>(id));
    if k >= 0 { plan[k].source } else { PlanSource::NoInput }
}

/// The card buffer counter reported for output `id`, if a card is open.
pub open spec fn buffered_of(b: Map<u32, i32>, id: OutputId) -> Option<i32> {
    if b.contains_key(id.0) { Some(b[id.0]) } else { None }
}

/// The name of the region routed to `o`, when there is one.
pub open spec fn assigned_name_of<R>(s: ShowModel<R>, o: Output) -> Option<String> {
    match o.assigned {
        Some(id) => if s.has_roi(id) { Some(s.rois[s.roi_pos(id)].name) } else { None },
        None => None,
    }
}

/// The card an output remembers, by the name it was remembered under.
pub open spec fn device_name_of(o: Output) -> Option<String> {
    match o.device {
        Some(d) => Some(d.display_name),
        None => None,
    }
}

/// One region as the state feed reports it, less its rectangle.
#[derive(Debug)]
pub struct RoiFacts {
    pub id: RoiId,
    pub name: String,
    pub colour: [u8; 3],
    pub lock_aspect: bool,
    /// Every output carrying this region — the tally a control surface lights.
    pub outputs: Vec<OutputId>,
}

/// One output as the state feed reports it, less the scale figures.
#[derive(Debug)]
pub struct OutputFacts {
    pub id: OutputId,
    pub label: String,
    pub assigned: Option<RoiId>,
    pub assigned_name: Option<String>,
    pub idle: IdleFill,
    pub fit: String,
    pub device: Option<String>,
    /// What this output is actually carrying, which is not always what it is
    /// routed to.
    pub on_air: String,
    pub buffered: Option<i32>,
}

/// The whole state as it goes on the wire, less the figures that are
/// fractions (region rectangles and scale percentages).
#[derive(Debug)]
pub struct Snapshot {
    pub revision: u64,
    pub outputs_enabled: bool,
    pub output_format: FormatView,
    pub scaling: String,
    pub input: InputView,
    pub decklink: String,
    pub frames: u64,
    pub rois: Vec<RoiFacts>,
    pub outputs: Vec<OutputFacts>,
}

pub open spec fn roi_facts_of<R>(f: RoiFacts, s: ShowModel<R>, i: int) -> bool {
    &&& f.id == s.rois[i].id
    &&& f.name == s.rois[i].name
    &&& f.colour == s.rois[i].colour
    &&& f.lock_aspect == s.rois[i].lock_aspect
    &&& f.outputs@ == s.carriers(s.rois[i].id)
}

pub open spec fn output_facts_of<R>(
    f: OutputFacts,
    s: ShowModel<R>,
    i: int,
    plan: Seq<OutputPlan<R>>,
    buffered: Map<u32, i32>,
) -> bool {
    let o = s.outputs[i];
    &&& f.id == o.id
    &&& f.label == o.label
    &&& f.assigned == o.assigned
    &&& f.assigned_name == assigned_name_of(s, o)
    &&& f.idle == o.idle
    &&& f.fit@ == fit_spec(o.fit)
    &&& f.device == device_name_of(o)
    &&& f.on_air@ == on_air_spec(on_air_of(plan, o.id))
    &&& f.buffered == buffered_of(buffered, o.id)
}

/// The snapshot of a show and its runtime at a revision.
pub open spec fn is_snapshot_of<R>(v: Snapshot, s: ShowModel<R>, rt: Runtime, revision: u64, whole: R) -> bool {
    let plan = s.planned(rt.input_live, whole);
    &&& v.revision == revision
    &&& v.outputs_enabled == s.outputs_enabled
    &&& v.output_format.name@ == format_name(s.output_format)
    &&& v.output_format.width == s.output_format.size.w
    &&& v.output_format.height == s.output_format.size.h
    &&& v.output_format.rate_num == s.output_format.rate.num
    &&& v.output_format.rate_den == s.output_format.rate.den
    &&& v.scaling@ == scaling_spec(s.scaling)
    &&& v.input.live == rt.input_live
    &&& v.input.width == (match rt.input_size { Some(z) => z.w, None => s.input_size.w })
    &&& v.input.height == (match rt.input_size { Some(z) => z.h, None => s.input_size.h })
    &&& v.input.device == rt.input_device
    &&& v.decklink == rt.decklink
    &&& v.frames == rt.frames
    &&& v.rois@.len() == s.rois.len()
    &&& forall|i: int| 0 <= i < s.rois.len() ==> roi_facts_of(#[trigger] v.rois@[i], s, i)
    &&& v.outputs@.len() == s.outputs.len()
    &&& forall|i: int| 0 <= i < s.outputs.len() ==> output_facts_of(#[trigger] v.outputs@[i], s, i, plan, rt.buffered@)
}

fn find_source<R: Copy>(plan: &Vec<OutputPlan<R>>, id: OutputId) -> (s: PlanSource<R>)
    ensures
        s == on_air_of(plan@, id),
{
    let mut k: usize = 0;
    while k < plan.len()
        invariant
            k <= plan@.len(),
            forall|j: int| 0 <= j < k ==> !plan_for::<R>(id)(#[trigger] plan@[j]),
        decreases plan@.len() - k,
    {
        if plan[k].output.0 == id.0 {
            proof { crate::show::lemma_first_index_is(plan@, plan_for::<R>(id), k as int); }
            return plan[k].source;
        }
        k += 1;
    }
    proof { crate::show::lemma_first_index_is(plan@, plan_for::<R>(id), -1); }
    PlanSource::NoInput
}

fn find_counter(b: &BTreeMap<u32, i32>, id: OutputId) -> (c: Option<i32>)
    ensures
        c == buffered_of(b@, id),
{
    match b.get(&id.0) {
        Some(v) => Some(*v),
        None => None,
    }
}

fn output_facts<R: Copy>(show: &Show<R>, o: &Output, plan: &Vec<OutputPlan<R>>, buffered: &BTreeMap<u32, i32>) -> (f: OutputFacts)
    ensures
        f.id == o.id,
        f.label == o.label,
        f.assigned == o.assigned,
        f.assigned_name == assigned_name_of(show@, *o),
        f.idle == o.idle,
        f.fit@ == fit_spec(o.fit),
        f.device == device_name_of(*o),
        f.on_air@ == on_air_spec(on_air_of(plan@, o.id)),
        f.buffered == buffered_of(buffered@, o.id),
{
    let assigned_name = match o.assigned {
        Some(id) => {
            proof { show.lemma_roi_pos(id); }
            match show.roi(id) {
                Some(r) => Some(r.name.clone()),
                None => None,
            }
        },
        None => None,
    };
    let device = match &o.device {
        Some(d) => Some(d.display_name.clone()),
        None => None,
    };
    let source = find_source(plan, o.id);
    let mut fit = String::new();
    fit.append(fit_name(o.fit));
    let mut on_air = String::new();
    on_air.append(on_air_name(&source));
    OutputFacts {
        id: o.id,
        label: o.label.clone(),
        assigned: o.assigned,
        assigned_name,
        idle: o.idle,
        fit,
        device,
        on_air,
        buffered: find_counter(buffered, o.id),
    }
}

impl<R: Copy> Shared<R> {
    /// The full state, as sent over HTTP and pushed over the state feed.
    /// `whole` is the rectangle covering the entire input.
    pub fn snapshot(&self, whole: R) -> (v: Snapshot)
        ensures
            is_snapshot_of(v, self.current()@, self.facts(), self.rev(), whole),
    {
        let show = &self.show;
        let rt = &self.runtime;
        let plan = show.plan(rt.input_live, whole);
        let mut rois: Vec<RoiFacts> = Vec::new();
        let mut i: usize = 0;
        while i < show.rois.len()
            invariant
                i <= show@.rois.len(),
                rois@.len() == i,
                forall|j: int| 0 <= j < i ==> roi_facts_of(#[trigger] rois@[j], show@, j),
            decreases show@.rois.len() - i,
        {
            let r = &show.rois[i];
            rois.push(RoiFacts {
                id: r.id,
                name: r.name.clone(),
                colour: r.colour,
                lock_aspect: r.lock_aspect,
                outputs: show.outputs_for(r.id),
            });
            i += 1;
        }
        let mut outputs: Vec<OutputFacts> = Vec::new();
        let mut k: usize = 0;
        while k < show.outputs.len()
            invariant
                k <= show@.outputs.len(),
                plan@ == show@.planned(rt.input_live, whole),
                outputs@.len() == k,
                forall|j: int| 0 <= j < k ==> output_facts_of(#[trigger] outputs@[j], show@, j, plan@, rt.buffered@),
            decreases show@.outputs.len() - k,
        {
            let f = output_facts(show, &show.outputs[k], &plan, &rt.buffered);
            outputs.push(f);
            k += 1;
        }
        let (width, height) = match rt.input_size {
            Some(z) => (z.w, z.h),
            None => (show.input_size.w, show.input_size.h),
        };
        let input_device = match &rt.input_device {
            Some(d) => Some(d.clone()),
            None => None,
        };
        let mut scaling = String::new();
        scaling.append(scaling_name(show.scaling));
        Snapshot {
            revision: self.revision.value,
            outputs_enabled: show.outputs_enabled,
            output_format: FormatView::of(&show.output_format),
            scaling,
            input: InputView { live: rt.input_live, width, height, device: input_device },
            decklink: rt.decklink.clone(),
            frames: rt.frames,
            rois,
            outputs,
        }
    }
}

} // verus!
