//! The show: regions, outputs, the crosspoint between them, and the one
//! function that decides what every output is carrying right now.
//!
//! A region's rectangle is normalised geometry (fractions of the input frame),
//! which this module never inspects: the show is generic over the rectangle
//! type `R`, carries each region's rectangle untouched, and hands it to the
//! plan. Everything here is about identity, routing and what goes on air.
use vstd::prelude::*;
use crate::format::VideoFormat;
use crate::geom::{FitMode, Size};
use crate::text::{decimal, push_decimal};

verus! {

#[derive(Debug, Clone, Copy, PartialEq, Eq, Hash, PartialOrd, Ord, Structural)]
pub struct RoiId(pub u32);

#[derive(Debug, Clone, Copy, PartialEq, Eq, Hash, PartialOrd, Ord, Structural)]
pub struct OutputId(pub u32);

impl RoiId {
    /// How a region id reads in a message: `roi7`.
    pub open spec fn name_spec(self) -> Seq<char> {
        seq!['r', 'o', 'i'] + decimal(self.0 as nat)
    }

    pub fn name(&self) -> (s: String)
        ensures
            s@ == self.name_spec(),
    {
        let mut s = String::new();
        proof { reveal_strlit("roi"); }
        s.append("roi");
        push_decimal(&mut s, self.0 as u64);
        s
    }
}

impl OutputId {
    /// How an output id reads in a message: `out3`.
    pub open spec fn name_spec(self) -> Seq<char> {
        seq!['o', 'u', 't'] + decimal(self.0 as nat)
    }

    pub fn name(&self) -> (s: String)
        ensures
            s@ == self.name_spec(),
    {
        let mut s = String::new();
        proof { reveal_strlit("out"); }
        s.append("out");
        push_decimal(&mut s, self.0 as u64);
        s
    }
}

/// A region of interest: a named crop of the input.
#[derive(Debug, Clone, PartialEq)]
pub struct Roi<R> {
    pub id: RoiId,
    pub name: String,
    pub rect: R,
    /// Overlay colour on the preview, and the tally colour on a control surface.
    pub colour: [u8; 3],
    /// Keep this region at the output aspect while it is dragged.
    ///
    /// On by default: a region drawn free-hand almost never matches 16:9, and
    /// the difference shows up on air as bars nobody asked for.
    pub lock_aspect: bool,
}

/// What an output shows when nothing is routed to it.
///
/// Note that none of these stop the output. See [`Show::plan`].
#[derive(Debug, Clone, Copy, PartialEq, Eq, Structural)]
pub enum IdleFill {
    /// Legal black. The safe default into a switcher.
    Black,
    /// The whole input, fitted. Useful for a spare output being used as a
    /// confidence feed.
    FullInput,
    /// Colour bars — unmistakably "nothing is routed here", from across a room.
    Bars,
}

impl Default for IdleFill {
    fn default() -> (f: Self)
        ensures
            f == IdleFill::Black,
    {
        IdleFill::Black
    }
}

/// A physical DeckLink sub-device, remembered across restarts.
///
/// `persistent_id` is the device's own `BMDDeckLinkPersistentID`, which is
/// stable across reboots and reordering; `display_name` exists only so that a
/// show opened on a machine without that card can say *which* card is missing
/// rather than showing an empty slot.
#[derive(Debug, PartialEq)]
pub struct DeviceRef {
    pub persistent_id: i64,
    pub display_name: String,
}

impl Clone for DeviceRef {
    fn clone(&self) -> (d: Self)
        ensures
            d == *self,
    {
        DeviceRef { persistent_id: self.persistent_id, display_name: self.display_name.clone() }
    }
}

/// One physical output port.
#[derive(Debug, Clone, PartialEq)]
pub struct Output {
    pub id: OutputId,
    pub label: String,
    /// `None` while the show is being built on a machine with no card.
    pub device: Option<DeviceRef>,
    /// The crosspoint. `None` is a perfectly normal steady state.
    pub assigned: Option<RoiId>,
    pub idle: IdleFill,
    pub fit: FitMode,
}

/// Which resampling filter the crop is scaled with.
#[derive(Debug, Clone, Copy, PartialEq, Eq, Structural)]
pub enum ScalingFilter {
    /// Hardware bilinear. Cheapest, softest.
    Bilinear,
    /// Catmull-Rom bicubic. Sixteen taps, visibly sharper on the 2x-and-beyond
    /// blow-ups this app exists to do, which is why it is the default.
    Bicubic,
}

impl Default for ScalingFilter {
    fn default() -> (f: Self)
        ensures
            f == ScalingFilter::Bicubic,
    {
        ScalingFilter::Bicubic
    }
}

/// Everything that defines a running Kestrel, and everything that is saved.
#[derive(Debug, Clone, PartialEq)]
pub struct Show<R> {
    /// Bumped when the on-disk shape changes incompatibly.
    pub version: u32,
    /// The format every output runs at.
    ///
    /// One global format rather than per-output: these ports feed one switcher,
    /// which wants one format, and DeckLink sub-devices on a shared card share a
    /// clock domain anyway. Per-output override is a later problem.
    pub output_format: VideoFormat,
    /// The last seen (or manually set) input raster, used for the scale
    /// arithmetic before a card is open. Autodetection overwrites it.
    pub input_size: Size,
    pub scaling: ScalingFilter,
    /// The global output kill. `false` blacks every output; it does **not**
    /// stop them.
    pub outputs_enabled: bool,
    pub rois: Vec<Roi<R>>,
    pub outputs: Vec<Output>,
    /// The id the next region gets. Only ever moves forward, so an id that a
    /// control surface still holds can never come to mean a different region.
    pub next_roi_id: u32,
    /// The id the next output gets; moves forward like `next_roi_id`.
    pub next_output_id: u32,
}

/// A region keeps the output aspect unless told otherwise; a show saved
/// before that switch existed loads with it on.
pub fn yes() -> (b: bool)
    ensures
        b,
{
    true
}

/// The on-disk shape this build writes, and assumes of a file that does not
/// say.
pub fn current_version() -> (v: u32)
    ensures
        v == 1,
{
    1
}

/// The input raster assumed before a card has said otherwise.
pub fn default_input_size() -> (s: Size)
    ensures
        s == (Size { w: 1920, h: 1080 }),
{
    Size::new(1920, 1080)
}

/// A picture that needs no input, so it is always available.
#[derive(Debug, Clone, Copy, PartialEq, Eq, Structural)]
pub enum Pattern {
    /// Legal black (Y=16 once encoded), not zero.
    Black,
    Bars,
}

/// What one output is carrying this frame.
///
/// Deliberately self-contained: everything the renderer needs is in the
/// variant, so the GPU code never reaches back into the show to look something
/// up.
#[derive(Debug, Clone, Copy, PartialEq)]
pub enum PlanSource<R> {
    /// Crop and scale a rectangle of the live input. `roi` is `None` when this
    /// is the whole frame as a confidence feed rather than a routed region.
    Crop { roi: Option<RoiId>, rect: R, fit: FitMode },
    /// A generated picture — nothing is routed here.
    Pattern(Pattern),
    /// The global output kill is engaged. Renders black, on every output,
    /// regardless of routing or idle fill.
    Muted,
    /// Something is routed, but there is no input to crop. Renders black —
    /// never the last good frame, which would freeze a shot on air and look
    /// live to anyone watching the output.
    NoInput,
}

impl<R> PlanSource<R> {
    pub open spec fn is_live_region_spec(self) -> bool {
        self matches PlanSource::Crop { roi: Some(_), .. }
    }

    /// True when this output is carrying a routed region — i.e. when a scale
    /// percentage is meaningful.
    pub fn is_live_region(&self) -> (b: bool)
        ensures
            b == self.is_live_region_spec(),
    {
        match self {
            PlanSource::Crop { roi: Some(_), .. } => true,
            _ => false,
        }
    }
}

/// One output's decision for this frame.
#[derive(Debug, Clone, Copy, PartialEq)]
pub struct OutputPlan<R> {
    pub output: OutputId,
    pub source: PlanSource<R>,
}

#[derive(Debug, Clone, Copy, PartialEq, Eq, Structural)]
pub enum ShowError {
    NoSuchRoi(RoiId),
    NoSuchOutput(OutputId),
}

impl ShowError {
    /// The error as a person reads it.
    pub open spec fn message_spec(self) -> Seq<char> {
        match self {
            ShowError::NoSuchRoi(id) => "no region with id "@ + id.name_spec(),
            ShowError::NoSuchOutput(id) => "no output with id "@ + id.name_spec(),
        }
    }

    pub fn message(&self) -> (s: String)
        ensures
            s@ == self.message_spec(),
    {
        let mut s = String::new();
        match self {
            ShowError::NoSuchRoi(id) => {
                s.append("no region with id ");
                let n = id.name();
                s.append(n.as_str());
            },
            ShowError::NoSuchOutput(id) => {
                s.append("no output with id ");
                let n = id.name();
                s.append(n.as_str());
            },
        }
        s
    }
}

// ---- finding things by id -------------------------------------------------

/// The position of the first element of `s` that satisfies `p`, or -1.
pub open spec fn first_index<T>(s: Seq<T>, p: spec_fn(T) -> bool) -> int
    decreases s.len(),
{
    if s.len() == 0 {
        -1
    } else {
        let k = first_index(s.drop_last(), p);
        if k >= 0 {
            k
        } else if p(s.last()) {
            s.len() - 1
        } else {
            -1
        }
    }
}

pub proof fn lemma_first_index<T>(s: Seq<T>, p: spec_fn(T) -> bool)
    ensures
        -1 <= first_index(s, p) < s.len(),
        first_index(s, p) >= 0 ==> p(s[first_index(s, p)]),
        forall|j: int| 0 <= j < s.len() && (first_index(s, p) < 0 || j < first_index(s, p)) ==> !p(#[trigger] s[j]),
    decreases s.len(),
{
    if s.len() > 0 {
        let d = s.drop_last();
        lemma_first_index(d, p);
        let k = first_index(s, p);
        assert forall|j: int| 0 <= j < s.len() && (k < 0 || j < k) implies !p(#[trigger] s[j]) by {
            if j < s.len() - 1 {
                assert(s[j] == d[j]);
            }
        }
        if k >= 0 && k < s.len() - 1 {
            assert(s[k] == d[k]);
        }
    }
}

/// `k` is the first position in `s` satisfying `p`, or -1 when nothing does.
pub proof fn lemma_first_index_is<T>(s: Seq<T>, p: spec_fn(T) -> bool, k: int)
    requires
        -1 <= k < s.len(),
        k >= 0 ==> p(s[k]),
        forall|j: int| 0 <= j < s.len() && (k < 0 || j < k) ==> !p(#[trigger] s[j]),
    ensures
        first_index(s, p) == k,
{
    lemma_first_index(s, p);
}

pub open spec fn roi_has_id<R>(id: RoiId) -> spec_fn(Roi<R>) -> bool {
    |r: Roi<R>| r.id == id
}

pub open spec fn output_has_id(id: OutputId) -> spec_fn(Output) -> bool {
    |o: Output| o.id == id
}

pub open spec fn output_carries(id: RoiId) -> spec_fn(Output) -> bool {
    |o: Output| o.assigned == Some(id)
}

/// The palette regions take their overlay colours from, in creation order.
/// Chosen to stay distinguishable on a busy stage picture and against each
/// other.
pub const ROI_PALETTE: [[u8; 3]; 8] = [
    [255, 92, 92],
    [92, 200, 255],
    [255, 200, 64],
    [130, 230, 130],
    [220, 130, 255],
    [255, 150, 80],
    [110, 160, 255],
    [80, 230, 210],
];

/// The palette slot a region id takes: ids count from one, and the palette
/// wraps.
pub open spec fn palette_slot(id: u32) -> int {
    if id == 0 { 0 } else { ((id - 1) as int) % 8 }
}

/// The show as a value: what every operation is specified against.
pub struct ShowModel<R> {
    pub version: u32,
    pub output_format: VideoFormat,
    pub input_size: Size,
    pub scaling: ScalingFilter,
    pub outputs_enabled: bool,
    pub rois: Seq<Roi<R>>,
    pub outputs: Seq<Output>,
    pub next_roi_id: u32,
    pub next_output_id: u32,
}

impl<R> View for Show<R> {
    type V = ShowModel<R>;

    open spec fn view(&self) -> ShowModel<R> {
        ShowModel {
            version: self.version,
            output_format: self.output_format,
            input_size: self.input_size,
            scaling: self.scaling,
            outputs_enabled: self.outputs_enabled,
            rois: self.rois@,
            outputs: self.outputs@,
            next_roi_id: self.next_roi_id,
            next_output_id: self.next_output_id,
        }
    }
}

/// An output with its crosspoint cleared when it points at `id`.
pub open spec fn cleared_of(o: Output, id: RoiId) -> Output {
    if o.assigned == Some(id) {
        Output { assigned: None, ..o }
    } else {
        o
    }
}

pub open spec fn roi_kept<R>(id: RoiId) -> spec_fn(Roi<R>) -> bool {
    |r: Roi<R>| r.id != id
}

pub open spec fn output_kept(id: OutputId) -> spec_fn(Output) -> bool {
    |o: Output| o.id != id
}

/// The largest region id in `s`, or 0.
pub open spec fn max_roi_id<R>(s: Seq<Roi<R>>) -> nat
    decreases s.len(),
{
    if s.len() == 0 {
        0
    } else {
        let m = max_roi_id(s.drop_last());
        if s.last().id.0 > m { s.last().id.0 as nat } else { m }
    }
}

/// The largest output id in `s`, or 0.
pub open spec fn max_output_id(s: Seq<Output>) -> nat
    decreases s.len(),
{
    if s.len() == 0 {
        0
    } else {
        let m = max_output_id(s.drop_last());
        if s.last().id.0 > m { s.last().id.0 as nat } else { m }
    }
}

impl<R> ShowModel<R> {
    /// Position of the region with this id (the first, if a hand-edited file
    /// repeats one), or -1.
    pub open spec fn roi_pos(self, id: RoiId) -> int {
        first_index(self.rois, roi_has_id::<R>(id))
    }

    /// Position of the output with this id, or -1.
    pub open spec fn output_pos(self, id: OutputId) -> int {
        first_index(self.outputs, output_has_id(id))
    }

    pub open spec fn has_roi(self, id: RoiId) -> bool {
        exists|i: int| 0 <= i < self.rois.len() && #[trigger] self.rois[i].id == id
    }

    pub open spec fn has_output(self, id: OutputId) -> bool {
        exists|i: int| 0 <= i < self.outputs.len() && #[trigger] self.outputs[i].id == id
    }

    /// Every id is below the counter it came from, so a new one is fresh.
    pub open spec fn ids_fresh(self) -> bool {
        &&& forall|i: int| 0 <= i < self.rois.len() ==> (#[trigger] self.rois[i]).id.0 < self.next_roi_id
        &&& forall|i: int| 0 <= i < self.outputs.len() ==> (#[trigger] self.outputs[i]).id.0 < self.next_output_id
    }

    /// No two regions, and no two outputs, share an id.
    pub open spec fn ids_distinct(self) -> bool {
        &&& forall|i: int, j: int| 0 <= i < self.rois.len() && 0 <= j < self.rois.len() && i != j
            ==> (#[trigger] self.rois[i]).id != (#[trigger] self.rois[j]).id
        &&& forall|i: int, j: int| 0 <= i < self.outputs.len() && 0 <= j < self.outputs.len() && i != j
            ==> (#[trigger] self.outputs[i]).id != (#[trigger] self.outputs[j]).id
    }

    /// Every crosspoint names a region that exists.
    pub open spec fn no_dangling(self) -> bool {
        forall|i: int| 0 <= i < self.outputs.len() && (#[trigger] self.outputs[i]).assigned is Some
            ==> self.has_roi(self.outputs[i].assigned->0)
    }

    /// A consistent show: what every constructor establishes and every
    /// operation keeps.
    pub open spec fn wf(self) -> bool {
        &&& self.ids_fresh()
        &&& self.ids_distinct()
        &&& self.no_dangling()
    }

    // ---- what is on air ----------------------------------------------------

    /// What one output carries, given the state of the input.
    pub open spec fn source_for(self, o: Output, input_live: bool, whole: R) -> PlanSource<R> {
        if !self.outputs_enabled {
            PlanSource::Muted
        } else if o.assigned is Some && self.roi_pos(o.assigned->0) >= 0 {
            if input_live {
                PlanSource::Crop {
                    roi: Some(o.assigned->0),
                    rect: self.rois[self.roi_pos(o.assigned->0)].rect,
                    fit: o.fit,
                }
            } else {
                PlanSource::NoInput
            }
        } else {
            match o.idle {
                IdleFill::Black => PlanSource::Pattern(Pattern::Black),
                IdleFill::Bars => PlanSource::Pattern(Pattern::Bars),
                IdleFill::FullInput => if input_live {
                    PlanSource::Crop { roi: None, rect: whole, fit: o.fit }
                } else {
                    PlanSource::NoInput
                },
            }
        }
    }

    /// The plan for this frame: one entry per output, in output order.
    pub open spec fn planned(self, input_live: bool, whole: R) -> Seq<OutputPlan<R>> {
        Seq::new(
            self.outputs.len(),
            |i: int| OutputPlan {
                output: self.outputs[i].id,
                source: self.source_for(self.outputs[i], input_live, whole),
            },
        )
    }

    /// The outputs carrying region `id`, in output order.
    pub open spec fn carriers(self, id: RoiId) -> Seq<OutputId> {
        self.outputs.filter(output_carries(id)).map_values(|o: Output| o.id)
    }

    // ---- what each operation does -------------------------------------------

    /// Adding a region: it takes the next id and a palette colour, starts with
    /// its aspect locked, and goes on the end of the list.
    pub open spec fn with_roi(self, name: String, rect: R) -> (ShowModel<R>, RoiId) {
        let id = RoiId(self.next_roi_id);
        (
            ShowModel {
                rois: self.rois.push(Roi {
                    id,
                    name,
                    rect,
                    colour: ROI_PALETTE[palette_slot(id.0)],
                    lock_aspect: true,
                }),
                next_roi_id: (self.next_roi_id + 1) as u32,
                ..self
            },
            id,
        )
    }

    /// Adding an output: the next id, no card, nothing routed, black idle,
    /// fit.
    pub open spec fn with_output(self, label: String) -> (ShowModel<R>, OutputId) {
        let id = OutputId(self.next_output_id);
        (
            ShowModel {
                outputs: self.outputs.push(Output {
                    id,
                    label,
                    device: None,
                    assigned: None,
                    idle: IdleFill::Black,
                    fit: FitMode::Fit,
                }),
                next_output_id: (self.next_output_id + 1) as u32,
                ..self
            },
            id,
        )
    }

    /// Removing a region removes every crosspoint that pointed at it, in the
    /// same step.
    pub open spec fn without_roi(self, id: RoiId) -> (ShowModel<R>, Result<(), ShowError>) {
        if !self.has_roi(id) {
            (self, Err(ShowError::NoSuchRoi(id)))
        } else {
            (
                ShowModel {
                    rois: self.rois.filter(roi_kept::<R>(id)),
                    outputs: self.outputs.map_values(|o: Output| cleared_of(o, id)),
                    ..self
                },
                Ok(()),
            )
        }
    }

    pub open spec fn without_output(self, id: OutputId) -> (ShowModel<R>, Result<(), ShowError>) {
        if !self.has_output(id) {
            (self, Err(ShowError::NoSuchOutput(id)))
        } else {
            (ShowModel { outputs: self.outputs.filter(output_kept(id)), ..self }, Ok(()))
        }
    }

    /// Routing: an unknown region is refused first, then an unknown output;
    /// otherwise the output's crosspoint becomes `roi` and nothing else moves.
    pub open spec fn routed(self, output: OutputId, roi: Option<RoiId>) -> (ShowModel<R>, Result<(), ShowError>) {
        if roi is Some && !self.has_roi(roi->0) {
            (self, Err(ShowError::NoSuchRoi(roi->0)))
        } else if !self.has_output(output) {
            (self, Err(ShowError::NoSuchOutput(output)))
        } else {
            let i = self.output_pos(output);
            (ShowModel { outputs: self.outputs.update(i, Output { assigned: roi, ..self.outputs[i] }), ..self }, Ok(()))
        }
    }

    /// Clicking a crosspoint: clears it when it is already on, routes it
    /// otherwise.
    pub open spec fn toggled(self, output: OutputId, roi: RoiId) -> (ShowModel<R>, Result<(), ShowError>) {
        if !self.has_output(output) {
            (self, Err(ShowError::NoSuchOutput(output)))
        } else if self.outputs[self.output_pos(output)].assigned == Some(roi) {
            self.routed(output, None)
        } else {
            self.routed(output, Some(roi))
        }
    }

    /// Making a loaded show consistent: dangling crosspoints cleared, and both
    /// counters moved past every id in use.
    pub open spec fn repaired(self) -> ShowModel<R> {
        ShowModel {
            outputs: self.outputs.map_values(
                |o: Output| if o.assigned is Some && !self.has_roi(o.assigned->0) {
                    Output { assigned: None, ..o }
                } else {
                    o
                },
            ),
            next_roi_id: if self.next_roi_id >= max_roi_id(self.rois) + 1 {
                self.next_roi_id
            } else {
                (max_roi_id(self.rois) + 1) as u32
            },
            next_output_id: if self.next_output_id >= max_output_id(self.outputs) + 1 {
                self.next_output_id
            } else {
                (max_output_id(self.outputs) + 1) as u32
            },
            ..self
        }
    }
}

impl<R> Show<R> {
    pub proof fn lemma_roi_pos(self, id: RoiId)
        ensures
            -1 <= self@.roi_pos(id) < self@.rois.len(),
            self@.roi_pos(id) >= 0 <==> self@.has_roi(id),
            self@.roi_pos(id) >= 0 ==> self@.rois[self@.roi_pos(id)].id == id,
    {
        lemma_model_roi_pos(self@, id);
    }

    pub proof fn lemma_output_pos(self, id: OutputId)
        ensures
            -1 <= self@.output_pos(id) < self@.outputs.len(),
            self@.output_pos(id) >= 0 <==> self@.has_output(id),
            self@.output_pos(id) >= 0 ==> self@.outputs[self@.output_pos(id)].id == id,
    {
        lemma_model_output_pos(self@, id);
    }

    /// Where the region with this id sits in `rois`, if it exists.
    pub fn roi_index(&self, id: RoiId) -> (r: Option<usize>)
        ensures
            match r {
                Some(i) => i == self@.roi_pos(id) && i < self.rois@.len(),
                None => self@.roi_pos(id) == -1,
            },
    {
        proof { self.lemma_roi_pos(id); }
        let mut i: usize = 0;
        while i < self.rois.len()
            invariant
                i <= self.rois@.len(),
                forall|j: int| 0 <= j < i ==> !(#[trigger] roi_has_id::<R>(id)(self.rois@[j])),
            decreases self.rois@.len() - i,
        {
            if self.rois[i].id.0 == id.0 {
                proof { lemma_first_index_is(self.rois@, roi_has_id::<R>(id), i as int); }
                return Some(i);
            }
            i += 1;
        }
        proof { lemma_first_index_is(self.rois@, roi_has_id::<R>(id), -1); }
        None
    }

    /// Where the output with this id sits in `outputs`, if it exists.
    pub fn output_index(&self, id: OutputId) -> (r: Option<usize>)
        ensures
            match r {
                Some(i) => i == self@.output_pos(id) && i < self.outputs@.len(),
                None => self@.output_pos(id) == -1,
            },
    {
        proof { self.lemma_output_pos(id); }
        let mut i: usize = 0;
        while i < self.outputs.len()
            invariant
                i <= self.outputs@.len(),
                forall|j: int| 0 <= j < i ==> !(#[trigger] output_has_id(id)(self.outputs@[j])),
            decreases self.outputs@.len() - i,
        {
            if self.outputs[i].id.0 == id.0 {
                proof { lemma_first_index_is(self.outputs@, output_has_id(id), i as int); }
                return Some(i);
            }
            i += 1;
        }
        proof { lemma_first_index_is(self.outputs@, output_has_id(id), -1); }
        None
    }

    pub fn roi(&self, id: RoiId) -> (r: Option<&Roi<R>>)
        ensures
            match r {
                Some(x) => self@.roi_pos(id) >= 0 && *x == self@.rois[self@.roi_pos(id)],
                None => self@.roi_pos(id) < 0,
            },
    {
        match self.roi_index(id) {
            Some(i) => Some(&self.rois[i]),
            None => None,
        }
    }

    /// The region routed to an output, when the output exists, has a route,
    /// and the region it names exists.
    pub fn routed_region(&self, output: OutputId) -> (r: Option<&Roi<R>>)
        ensures
            match r {
                Some(x) => {
                    &&& self@.has_output(output)
                    &&& self@.outputs[self@.output_pos(output)].assigned is Some
                    &&& self@.has_roi(self@.outputs[self@.output_pos(output)].assigned->0)
                    &&& *x == self@.rois[self@.roi_pos(self@.outputs[self@.output_pos(output)].assigned->0)]
                },
                None => !self@.has_output(output)
                    || self@.outputs[self@.output_pos(output)].assigned is None
                    || !self@.has_roi(self@.outputs[self@.output_pos(output)].assigned->0),
            },
    {
        proof { self.lemma_output_pos(output); }
        match self.output(output) {
            Some(o) => match o.assigned {
                Some(id) => {
                    proof { self.lemma_roi_pos(id); }
                    self.roi(id)
                },
                None => None,
            },
            None => None,
        }
    }

    pub fn output(&self, id: OutputId) -> (r: Option<&Output>)
        ensures
            match r {
                Some(x) => self@.output_pos(id) >= 0 && *x == self@.outputs[self@.output_pos(id)],
                None => self@.output_pos(id) < 0,
            },
    {
        match self.output_index(id) {
            Some(i) => Some(&self.outputs[i]),
            None => None,
        }
    }
}

pub proof fn lemma_model_roi_pos<R>(s: ShowModel<R>, id: RoiId)
    ensures
        -1 <= s.roi_pos(id) < s.rois.len(),
        s.roi_pos(id) >= 0 <==> s.has_roi(id),
        s.roi_pos(id) >= 0 ==> s.rois[s.roi_pos(id)].id == id,
{
    lemma_first_index(s.rois, roi_has_id::<R>(id));
    if s.roi_pos(id) < 0 {
        assert forall|i: int| 0 <= i < s.rois.len() implies #[trigger] s.rois[i].id != id by {
            assert(!roi_has_id::<R>(id)(s.rois[i]));
        }
    } else {
        assert(roi_has_id::<R>(id)(s.rois[s.roi_pos(id)]));
    }
}

pub proof fn lemma_model_output_pos<R>(s: ShowModel<R>, id: OutputId)
    ensures
        -1 <= s.output_pos(id) < s.outputs.len(),
        s.output_pos(id) >= 0 <==> s.has_output(id),
        s.output_pos(id) >= 0 ==> s.outputs[s.output_pos(id)].id == id,
{
    lemma_first_index(s.outputs, output_has_id(id));
    if s.output_pos(id) < 0 {
        assert forall|i: int| 0 <= i < s.outputs.len() implies #[trigger] s.outputs[i].id != id by {
            assert(!output_has_id(id)(s.outputs[i]));
        }
    } else {
        assert(output_has_id(id)(s.outputs[s.output_pos(id)]));
    }
}

impl<R: Copy> Show<R> {
    fn source_for(&self, o: &Output, input_live: bool, whole: R) -> (s: PlanSource<R>)
        ensures
            s == self@.source_for(*o, input_live, whole),
    {
        if !self.outputs_enabled {
            return PlanSource::Muted;
        }
        let found = match o.assigned {
            Some(id) => self.roi(id),
            None => None,
        };
        proof {
            if o.assigned is Some {
                self.lemma_roi_pos(o.assigned->0);
            }
        }
        match found {
            Some(roi) => {
                if input_live {
                    PlanSource::Crop { roi: Some(roi.id), rect: roi.rect, fit: o.fit }
                } else {
                    PlanSource::NoInput
                }
            },
            None => match o.idle {
                IdleFill::Black => PlanSource::Pattern(Pattern::Black),
                IdleFill::Bars => PlanSource::Pattern(Pattern::Bars),
                // The one idle fill that needs an input to exist.
                IdleFill::FullInput => if input_live {
                    PlanSource::Crop { roi: None, rect: whole, fit: o.fit }
                } else {
                    PlanSource::NoInput
                },
            },
        }
    }

    /// Decide what every output is carrying this frame.
    ///
    /// **The invariant this whole app rests on: there is exactly one entry per
    /// output, always.** Not "one per routed output". A live switcher that
    /// loses an input goes to a black or a glitch on that bus, and re-locking
    /// costs frames; so an unrouted Kestrel output is a valid, running,
    /// black-filled signal rather than a stopped one. Nothing here — no global
    /// kill, no missing region, no missing input — can shorten this list.
    ///
    /// `whole` is the rectangle covering the entire input frame, carried by an
    /// output whose idle fill is the full input.
    pub fn plan(&self, input_live: bool, whole: R) -> (p: Vec<OutputPlan<R>>)
        ensures
            p@ == self@.planned(input_live, whole),
    {
        let mut p: Vec<OutputPlan<R>> = Vec::new();
        let mut i: usize = 0;
        while i < self.outputs.len()
            invariant
                i <= self.outputs@.len(),
                p@.len() == i,
                forall|j: int| 0 <= j < i ==> p@[j] == #[trigger] self@.planned(input_live, whole)[j],
            decreases self.outputs@.len() - i,
        {
            let o = &self.outputs[i];
            let source = self.source_for(o, input_live, whole);
            p.push(OutputPlan { output: o.id, source });
            i += 1;
        }
        assert(p@ =~= self@.planned(input_live, whole));
        p
    }
}

impl<R> Show<R> {
    /// An empty show at 1080p50 with no outputs.
    pub fn new() -> (s: Self)
        ensures
            s.version == 1,
            s.output_format == VideoFormat::of(1920, 1080, 50, 1, crate::format::Scan::Progressive),
            s.input_size == (Size { w: 1920, h: 1080 }),
            s.scaling == ScalingFilter::Bicubic,
            s.outputs_enabled,
            s@.rois.len() == 0,
            s@.outputs.len() == 0,
            s.next_roi_id == 1,
            s.next_output_id == 1,
            s@.wf(),
    {
        Show {
            version: current_version(),
            output_format: VideoFormat::default(),
            input_size: default_input_size(),
            scaling: ScalingFilter::default(),
            outputs_enabled: yes(),
            rois: Vec::new(),
            outputs: Vec::new(),
            next_roi_id: 1,
            next_output_id: 1,
        }
    }

    /// Route a region to an output, or pass `None` to clear it.
    ///
    /// Exclusivity down a column is structural: an output holds one
    /// `Option<RoiId>`, so taking a new region necessarily drops the old one.
    /// Across a row it is free — one region can feed as many outputs as you
    /// like, which is the normal way to send the same crop to a screen and a
    /// record feed.
    pub fn route(&mut self, output: OutputId, roi: Option<RoiId>) -> (r: Result<(), ShowError>)
        ensures
            (final(self)@, r) == old(self)@.routed(output, roi),
    {
        proof { self.lemma_output_pos(output); }
        if let Some(rid) = roi {
            proof { self.lemma_roi_pos(rid); }
            if self.roi_index(rid).is_none() {
                return Err(ShowError::NoSuchRoi(rid));
            }
        }
        match self.output_index(output) {
            None => Err(ShowError::NoSuchOutput(output)),
            Some(i) => {
                self.outputs[i].assigned = roi;
                Ok(())
            },
        }
    }
}

impl<R> Show<R> {
    // ---- regions -------------------------------------------------------

    /// Add a region. It takes the next id, a palette colour by that id, and
    /// starts with its aspect locked. The rectangle is stored as given: the
    /// geometry that owns `R` keeps it inside the frame before it gets here.
    pub fn add_roi(&mut self, name: String, rect: R) -> (id: RoiId)
        requires
            old(self).next_roi_id < u32::MAX,
        ensures
            (final(self)@, id) == old(self)@.with_roi(name, rect),
    {
        let id = RoiId(self.next_roi_id);
        self.next_roi_id = self.next_roi_id + 1;
        let slot = (id.0 as usize).saturating_sub(1) % 8;
        let colour = ROI_PALETTE[slot];
        self.rois.push(Roi { id, name, rect, colour, lock_aspect: true });
        id
    }

    pub fn roi_mut(&mut self, id: RoiId) -> (r: Option<&mut Roi<R>>)
        ensures
            old(self)@.roi_pos(id) < 0 ==> r is None && final(self)@ == old(self)@,
            old(self)@.roi_pos(id) >= 0 ==> r is Some,
            r matches Some(x) ==> {
                &&& *x == old(self)@.rois[old(self)@.roi_pos(id)]
                &&& final(self)@ == (ShowModel {
                    rois: old(self)@.rois.update(old(self)@.roi_pos(id), *final(x)),
                    ..old(self)@
                })
            },
    {
        match self.roi_index(id) {
            Some(i) => Some(&mut self.rois[i]),
            None => None,
        }
    }
}

impl<R> Show<R> {
    /// Remove a region **and every crosspoint that pointed at it**.
    ///
    /// The two halves are one operation on purpose. Leaving a dangling
    /// assignment would make an output fall through to a lookup miss, and the
    /// obvious "just show black then" behaviour hides the fact that a live
    /// output silently lost its source.
    pub fn remove_roi(&mut self, id: RoiId) -> (r: Result<(), ShowError>)
        ensures
            (final(self)@, r) == old(self)@.without_roi(id),
    {
        proof { self.lemma_roi_pos(id); }
        if self.roi_index(id).is_none() {
            return Err(ShowError::NoSuchRoi(id));
        }
        let ghost old_rois = self.rois@;
        let ghost keep = roi_kept::<R>(id);
        let mut i: usize = 0;
        let mut k: usize = 0;
        let n = self.rois.len();
        while k < n
            invariant
                n == old_rois.len(),
                k <= old_rois.len(),
                self.rois@ == old_rois.subrange(0, k as int).filter(keep) + old_rois.subrange(k as int, old_rois.len() as int),
                i == old_rois.subrange(0, k as int).filter(keep).len(),
                keep == roi_kept::<R>(id),
                self.outputs@ == old(self).outputs@,
                self.next_roi_id == old(self).next_roi_id,
                self.next_output_id == old(self).next_output_id,
                self.version == old(self).version,
                self.output_format == old(self).output_format,
                self.input_size == old(self).input_size,
                self.scaling == old(self).scaling,
                self.outputs_enabled == old(self).outputs_enabled,
            decreases old_rois.len() - k,
        {
            let ghost done = old_rois.subrange(0, k as int);
            let ghost rest = old_rois.subrange(k as int, old_rois.len() as int);
            assert(old_rois.subrange(0, k as int + 1) =~= done.push(old_rois[k as int]));
            proof { done.lemma_filter_push(old_rois[k as int], keep); }
            assert(self.rois@[i as int] == old_rois[k as int]);
            if self.rois[i].id.0 == id.0 {
                self.rois.remove(i);
                assert(self.rois@ =~= done.filter(keep) + old_rois.subrange(k as int + 1, old_rois.len() as int));
            } else {
                assert(self.rois@ =~= done.filter(keep).push(old_rois[k as int]) + old_rois.subrange(k as int + 1, old_rois.len() as int));
                i += 1;
            }
            k += 1;
        }
        assert(old_rois.subrange(0, old_rois.len() as int) =~= old_rois);
        assert(self.rois@ =~= old_rois.filter(keep));
        let mut j: usize = 0;
        while j < self.outputs.len()
            invariant
                j <= self.outputs@.len(),
                self.outputs@.len() == old(self).outputs@.len(),
                forall|m: int| 0 <= m < j ==> #[trigger] self.outputs@[m] == cleared_of(old(self).outputs@[m], id),
                forall|m: int| j <= m < self.outputs@.len() ==> #[trigger] self.outputs@[m] == old(self).outputs@[m],
                self.rois@ == old_rois.filter(roi_kept::<R>(id)),
                self.next_roi_id == old(self).next_roi_id,
                self.next_output_id == old(self).next_output_id,
                self.version == old(self).version,
                self.output_format == old(self).output_format,
                self.input_size == old(self).input_size,
                self.scaling == old(self).scaling,
                self.outputs_enabled == old(self).outputs_enabled,
            decreases self.outputs@.len() - j,
        {
            let carries = match self.outputs[j].assigned {
                Some(a) => a.0 == id.0,
                None => false,
            };
            if carries {
                self.outputs[j].assigned = None;
            }
            j += 1;
        }
        assert(self.outputs@ =~= old(self).outputs@.map_values(|o: Output| cleared_of(o, id)));
        Ok(())
    }

    // ---- outputs -------------------------------------------------------

    pub fn add_output(&mut self, label: String) -> (id: OutputId)
        requires
            old(self).next_output_id < u32::MAX,
        ensures
            (final(self)@, id) == old(self)@.with_output(label),
    {
        let id = OutputId(self.next_output_id);
        self.next_output_id = self.next_output_id + 1;
        self.outputs.push(Output {
            id,
            label,
            device: None,
            assigned: None,
            idle: IdleFill::default(),
            fit: FitMode::default(),
        });
        id
    }

    pub fn output_mut(&mut self, id: OutputId) -> (r: Option<&mut Output>)
        ensures
            old(self)@.output_pos(id) < 0 ==> r is None && final(self)@ == old(self)@,
            old(self)@.output_pos(id) >= 0 ==> r is Some,
            r matches Some(x) ==> {
                &&& *x == old(self)@.outputs[old(self)@.output_pos(id)]
                &&& final(self)@ == (ShowModel {
                    outputs: old(self)@.outputs.update(old(self)@.output_pos(id), *final(x)),
                    ..old(self)@
                })
            },
    {
        match self.output_index(id) {
            Some(i) => Some(&mut self.outputs[i]),
            None => None,
        }
    }

    pub fn remove_output(&mut self, id: OutputId) -> (r: Result<(), ShowError>)
        ensures
            (final(self)@, r) == old(self)@.without_output(id),
    {
        proof { self.lemma_output_pos(id); }
        if self.output_index(id).is_none() {
            return Err(ShowError::NoSuchOutput(id));
        }
        let ghost old_outs = self.outputs@;
        let ghost keep = output_kept(id);
        let mut i: usize = 0;
        let mut k: usize = 0;
        let n = self.outputs.len();
        while k < n
            invariant
                n == old_outs.len(),
                k <= old_outs.len(),
                self.outputs@ == old_outs.subrange(0, k as int).filter(keep) + old_outs.subrange(k as int, old_outs.len() as int),
                i == old_outs.subrange(0, k as int).filter(keep).len(),
                keep == output_kept(id),
                self.rois@ == old(self).rois@,
                self.next_roi_id == old(self).next_roi_id,
                self.next_output_id == old(self).next_output_id,
                self.version == old(self).version,
                self.output_format == old(self).output_format,
                self.input_size == old(self).input_size,
                self.scaling == old(self).scaling,
                self.outputs_enabled == old(self).outputs_enabled,
            decreases old_outs.len() - k,
        {
            let ghost done = old_outs.subrange(0, k as int);
            assert(old_outs.subrange(0, k as int + 1) =~= done.push(old_outs[k as int]));
            proof { done.lemma_filter_push(old_outs[k as int], keep); }
            assert(self.outputs@[i as int] == old_outs[k as int]);
            if self.outputs[i].id.0 == id.0 {
                self.outputs.remove(i);
                assert(self.outputs@ =~= done.filter(keep) + old_outs.subrange(k as int + 1, old_outs.len() as int));
            } else {
                assert(self.outputs@ =~= done.filter(keep).push(old_outs[k as int]) + old_outs.subrange(k as int + 1, old_outs.len() as int));
                i += 1;
            }
            k += 1;
        }
        assert(old_outs.subrange(0, old_outs.len() as int) =~= old_outs);
        assert(self.outputs@ =~= old_outs.filter(keep));
        Ok(())
    }
}

/// The label a numbered output gets: `Output 1`, `Output 2`, ...
pub open spec fn numbered_label(n: nat) -> Seq<char> {
    "Output "@ + decimal(n)
}

/// `Output n`, as a new string.
pub fn numbered_output_label(n: u64) -> (s: String)
    ensures
        s@ == numbered_label(n as nat),
{
    let mut s = String::new();
    s.append("Output ");
    push_decimal(&mut s, n);
    s
}

impl<R> Show<R> {
    /// A show with `n` unassigned outputs, for first run before any card is
    /// found. Every one of them will still be putting out black.
    pub fn with_outputs(n: usize) -> (s: Self)
        requires
            n < u32::MAX,
        ensures
            s.version == 1,
            s.output_format == VideoFormat::of(1920, 1080, 50, 1, crate::format::Scan::Progressive),
            s.input_size == (Size { w: 1920, h: 1080 }),
            s.scaling == ScalingFilter::Bicubic,
            s.outputs_enabled,
            s@.rois.len() == 0,
            s@.outputs.len() == n,
            forall|i: int| 0 <= i < n ==> {
                &&& (#[trigger] s@.outputs[i]).id == OutputId((i + 1) as u32)
                &&& s@.outputs[i].label@ == numbered_label((i + 1) as nat)
                &&& s@.outputs[i].device is None
                &&& s@.outputs[i].assigned is None
                &&& s@.outputs[i].idle == IdleFill::Black
                &&& s@.outputs[i].fit == FitMode::Fit
            },
            s.next_roi_id == 1,
            s.next_output_id == n + 1,
            s@.wf(),
    {
        let mut s = Self::new();
        let mut i: usize = 0;
        while i < n
            invariant
                i <= n < u32::MAX,
                s.version == 1,
                s.output_format == VideoFormat::of(1920, 1080, 50, 1, crate::format::Scan::Progressive),
                s.input_size == (Size { w: 1920, h: 1080 }),
                s.scaling == ScalingFilter::Bicubic,
                s.outputs_enabled,
                s@.rois.len() == 0,
                s@.outputs.len() == i,
                forall|j: int| 0 <= j < i ==> {
                    &&& (#[trigger] s@.outputs[j]).id == OutputId((j + 1) as u32)
                    &&& s@.outputs[j].label@ == numbered_label((j + 1) as nat)
                    &&& s@.outputs[j].device is None
                    &&& s@.outputs[j].assigned is None
                    &&& s@.outputs[j].idle == IdleFill::Black
                    &&& s@.outputs[j].fit == FitMode::Fit
                },
                s.next_roi_id == 1,
                s.next_output_id == i + 1,
            decreases n - i,
        {
            let label = numbered_output_label(i as u64 + 1);
            s.add_output(label);
            i += 1;
        }
        s
    }

    /// Toggle a single cell of the matrix: routes if the cell is off, clears if
    /// it is already on. This is what clicking a crosspoint does.
    pub fn toggle_crosspoint(&mut self, output: OutputId, roi: RoiId) -> (r: Result<(), ShowError>)
        ensures
            (final(self)@, r) == old(self)@.toggled(output, roi),
    {
        proof { self.lemma_output_pos(output); }
        let current = match self.output(output) {
            Some(o) => o.assigned,
            None => return Err(ShowError::NoSuchOutput(output)),
        };
        let is_on = match current {
            Some(a) => a.0 == roi.0,
            None => false,
        };
        let next = if is_on { None } else { Some(roi) };
        self.route(output, next)
    }

    /// Which outputs are carrying this region right now.
    pub fn outputs_for(&self, roi: RoiId) -> (v: Vec<OutputId>)
        ensures
            v@ == self@.carriers(roi),
    {
        let mut v: Vec<OutputId> = Vec::new();
        let mut i: usize = 0;
        let ghost p = output_carries(roi);
        while i < self.outputs.len()
            invariant
                i <= self.outputs@.len(),
                p == output_carries(roi),
                v@ == self.outputs@.subrange(0, i as int).filter(p).map_values(|o: Output| o.id),
            decreases self.outputs@.len() - i,
        {
            let ghost done = self.outputs@.subrange(0, i as int);
            assert(self.outputs@.subrange(0, i as int + 1) =~= done.push(self.outputs@[i as int]));
            proof { done.lemma_filter_push(self.outputs@[i as int], p); }
            let carries = match self.outputs[i].assigned {
                Some(a) => a.0 == roi.0,
                None => false,
            };
            if carries {
                v.push(self.outputs[i].id);
                assert(done.filter(p).push(self.outputs@[i as int]).map_values(|o: Output| o.id)
                    =~= done.filter(p).map_values(|o: Output| o.id).push(self.outputs@[i as int].id));
            }
            i += 1;
        }
        assert(self.outputs@.subrange(0, self.outputs@.len() as int) =~= self.outputs@);
        v
    }
}

pub proof fn lemma_max_roi_id<R>(s: Seq<Roi<R>>)
    ensures
        forall|i: int| 0 <= i < s.len() ==> (#[trigger] s[i]).id.0 <= max_roi_id(s),
        s.len() > 0 ==> exists|i: int| 0 <= i < s.len() && (#[trigger] s[i]).id.0 == max_roi_id(s),
        s.len() == 0 ==> max_roi_id(s) == 0,
    decreases s.len(),
{
    if s.len() > 0 {
        let d = s.drop_last();
        lemma_max_roi_id(d);
        assert forall|i: int| 0 <= i < s.len() implies (#[trigger] s[i]).id.0 <= max_roi_id(s) by {
            if i < s.len() - 1 {
                assert(s[i] == d[i]);
            }
        }
        assert(s[s.len() - 1] == s.last());
        if d.len() > 0 && max_roi_id(s) == max_roi_id(d) {
            let k = choose|i: int| 0 <= i < d.len() && (#[trigger] d[i]).id.0 == max_roi_id(d);
            assert(s[k] == d[k]);
        }
    }
}

pub proof fn lemma_max_output_id(s: Seq<Output>)
    ensures
        forall|i: int| 0 <= i < s.len() ==> (#[trigger] s[i]).id.0 <= max_output_id(s),
        s.len() > 0 ==> exists|i: int| 0 <= i < s.len() && (#[trigger] s[i]).id.0 == max_output_id(s),
        s.len() == 0 ==> max_output_id(s) == 0,
    decreases s.len(),
{
    if s.len() > 0 {
        let d = s.drop_last();
        lemma_max_output_id(d);
        assert forall|i: int| 0 <= i < s.len() implies (#[trigger] s[i]).id.0 <= max_output_id(s) by {
            if i < s.len() - 1 {
                assert(s[i] == d[i]);
            }
        }
        assert(s[s.len() - 1] == s.last());
        if d.len() > 0 && max_output_id(s) == max_output_id(d) {
            let k = choose|i: int| 0 <= i < d.len() && (#[trigger] d[i]).id.0 == max_output_id(d);
            assert(s[k] == d[k]);
        }
    }
}

impl<R> Show<R> {
    /// The largest region id in use, or 0.
    fn largest_roi_id(&self) -> (m: u32)
        ensures
            m == max_roi_id(self@.rois),
    {
        let mut m: u32 = 0;
        let mut i: usize = 0;
        while i < self.rois.len()
            invariant
                i <= self.rois@.len(),
                m == max_roi_id(self.rois@.subrange(0, i as int)),
            decreases self.rois@.len() - i,
        {
            assert(self.rois@.subrange(0, i as int + 1).drop_last() =~= self.rois@.subrange(0, i as int));
            if self.rois[i].id.0 > m {
                m = self.rois[i].id.0;
            }
            i += 1;
        }
        assert(self.rois@.subrange(0, self.rois@.len() as int) =~= self.rois@);
        m
    }

    /// The largest output id in use, or 0.
    fn largest_output_id(&self) -> (m: u32)
        ensures
            m == max_output_id(self@.outputs),
    {
        let mut m: u32 = 0;
        let mut i: usize = 0;
        while i < self.outputs.len()
            invariant
                i <= self.outputs@.len(),
                m == max_output_id(self.outputs@.subrange(0, i as int)),
            decreases self.outputs@.len() - i,
        {
            assert(self.outputs@.subrange(0, i as int + 1).drop_last() =~= self.outputs@.subrange(0, i as int));
            if self.outputs[i].id.0 > m {
                m = self.outputs[i].id.0;
            }
            i += 1;
        }
        assert(self.outputs@.subrange(0, self.outputs@.len() as int) =~= self.outputs@);
        m
    }

    /// Make a loaded show internally consistent.
    ///
    /// A show file is editable by hand, and a hand-edited one can reference a
    /// region that was deleted, or reuse an id. Both would otherwise surface as
    /// an output that mysteriously shows black. Rectangles are left as they
    /// are: keeping them inside the frame is the geometry's business.
    pub fn repair(&mut self)
        requires
            forall|i: int| 0 <= i < old(self)@.rois.len() ==> (#[trigger] old(self)@.rois[i]).id.0 < u32::MAX,
            forall|i: int| 0 <= i < old(self)@.outputs.len() ==> (#[trigger] old(self)@.outputs[i]).id.0 < u32::MAX,
        ensures
            final(self)@ == old(self)@.repaired(),
    {
        let ghost start = self@;
        let mut j: usize = 0;
        while j < self.outputs.len()
            invariant
                j <= self.outputs@.len(),
                self.outputs@.len() == start.outputs.len(),
                forall|m: int| 0 <= m < j ==> #[trigger] self.outputs@[m] == (
                    if start.outputs[m].assigned is Some && !start.has_roi(start.outputs[m].assigned->0) {
                        Output { assigned: None, ..start.outputs[m] }
                    } else {
                        start.outputs[m]
                    }),
                forall|m: int| j <= m < self.outputs@.len() ==> #[trigger] self.outputs@[m] == start.outputs[m],
                self.rois@ == start.rois,
                self.next_roi_id == start.next_roi_id,
                self.next_output_id == start.next_output_id,
                self.version == start.version,
                self.output_format == start.output_format,
                self.input_size == start.input_size,
                self.scaling == start.scaling,
                self.outputs_enabled == start.outputs_enabled,
            decreases self.outputs@.len() - j,
        {
            if let Some(a) = self.outputs[j].assigned {
                proof { self.lemma_roi_pos(a); }
                if self.roi_index(a).is_none() {
                    self.outputs[j].assigned = None;
                }
            }
            j += 1;
        }
        let max_roi = self.largest_roi_id();
        let max_out = self.largest_output_id();
        proof {
            lemma_max_roi_id(start.rois);
            lemma_max_output_id(start.outputs);
            lemma_max_output_id(self@.outputs);
            assert forall|i: int| 0 <= i < self@.outputs.len() implies (#[trigger] self@.outputs[i]).id == start.outputs[i].id by {}
            if self@.outputs.len() > 0 {
                let k = choose|i: int| 0 <= i < self@.outputs.len() && (#[trigger] self@.outputs[i]).id.0 == max_output_id(self@.outputs);
                assert(self@.outputs[k].id == start.outputs[k].id);
                assert(max_output_id(self@.outputs) <= max_output_id(start.outputs));
                let k2 = choose|i: int| 0 <= i < start.outputs.len() && (#[trigger] start.outputs[i]).id.0 == max_output_id(start.outputs);
                assert(self@.outputs[k2].id == start.outputs[k2].id);
            }
        }
        if self.next_roi_id < max_roi + 1 {
            self.next_roi_id = max_roi + 1;
        }
        if self.next_output_id < max_out + 1 {
            self.next_output_id = max_out + 1;
        }
        assert(self@.outputs =~= start.outputs.map_values(
            |o: Output| if o.assigned is Some && !start.has_roi(o.assigned->0) {
                Output { assigned: None, ..o }
            } else {
                o
            },
        ));
    }
}

impl<R> Default for Show<R> {
    fn default() -> (s: Self)
        ensures
            s.version == 1,
            s.output_format == VideoFormat::of(1920, 1080, 50, 1, crate::format::Scan::Progressive),
            s.input_size == (Size { w: 1920, h: 1080 }),
            s.scaling == ScalingFilter::Bicubic,
            s.outputs_enabled,
            s@.rois.len() == 0,
            s@.outputs.len() == 0,
            s.next_roi_id == 1,
            s.next_output_id == 1,
            s@.wf(),
    {
        Self::new()
    }
}

} // verus!
