//! The frame engine's bookkeeping: what it holds as plain values, and what a
//! change of raster, format or output list obliges it to rebuild. The GPU
//! resources live beside this state and are rebuilt when it says so.
use vstd::prelude::*;
use crate::format::VideoFormat;
use crate::geom::Size;
use crate::gpu::{align_up, aligned, check_upload, copy_align, draw_for, draw_spec, short_frame_spec, Draw, COPY_ALIGN};
use crate::pattern::macro_width;
use crate::show::{OutputId, OutputPlan, ScalingFilter};

verus! {

/// The outputs a plan names, in its order.
pub open spec fn plan_ids<R>(plan: Seq<OutputPlan<R>>) -> Seq<OutputId> {
    Seq::new(plan.len(), |i: int| plan[i].output)
}

/// What each planned output is drawn from, in plan order.
pub open spec fn plan_draws<R>(plan: Seq<OutputPlan<R>>, input_live: bool) -> Seq<(OutputId, Draw)> {
    Seq::new(plan.len(), |i: int| (plan[i].output, draw_spec(plan[i].source, input_live)))
}

/// One frame's work for the outputs, in the order it is done.
pub struct RenderSteps {
    /// The targets had to be brought in line with the plan first.
    pub retarget: bool,
    /// For each planned output, in plan order: what is drawn into its target.
    pub draws: Vec<(OutputId, Draw)>,
    /// Once every draw is done: the outputs whose frames go to the sink, one
    /// frame each, in this order.
    pub sends: Vec<OutputId>,
}

/// The engine's state, less its GPU resources.
pub struct EngineState {
    pub input_size: Size,
    pub output_format: VideoFormat,
    pub scaling: ScalingFilter,
    /// False until a frame has been uploaded, and again after the input is
    /// declared lost or its raster changes. Never "the last frame was a while
    /// ago": only the capture side knows a source that unplugged from one that
    /// is slower than the output clock.
    pub input_live: bool,
    /// The outputs with targets, in the caller's order — the order the UI
    /// shows.
    pub order: Vec<OutputId>,
    /// Bumped whenever a source texture is replaced, so anything holding a
    /// binding to one knows to rebuild.
    pub generation: u64,
}

impl EngineState {
    pub fn new(input_size: Size, output_format: VideoFormat) -> (s: Self)
        ensures
            s.input_size == input_size,
            s.output_format == output_format,
            s.scaling == ScalingFilter::Bicubic,
            !s.input_live,
            s.order@.len() == 0,
            s.generation == 0,
    {
        EngineState {
            input_size,
            output_format,
            scaling: ScalingFilter::Bicubic,
            input_live: false,
            order: Vec::new(),
            generation: 0,
        }
    }

    pub fn input_size(&self) -> (s: Size)
        ensures
            s == self.input_size,
    {
        self.input_size
    }

    pub fn output_format(&self) -> (f: VideoFormat)
        ensures
            f == self.output_format,
    {
        self.output_format
    }

    pub fn input_live(&self) -> (b: bool)
        ensures
            b == self.input_live,
    {
        self.input_live
    }

    /// Declare the input live or lost.
    pub fn set_input_live(&mut self, live: bool)
        ensures
            *final(self) == (EngineState { input_live: live, ..*old(self) }),
    {
        self.input_live = live;
    }

    pub fn set_scaling(&mut self, s: ScalingFilter)
        ensures
            *final(self) == (EngineState { scaling: s, ..*old(self) }),
    {
        self.scaling = s;
    }

    /// Take a new input raster. A raster the same as the current one, or with
    /// a zero side, changes nothing. Any other replaces the input surface —
    /// so the input is not live until a frame of the new raster arrives — and
    /// every output's binding to the old one is stale. Returns whether the
    /// input surface and the output targets must be rebuilt.
    pub fn set_input_size(&mut self, size: Size) -> (rebuild: bool)
        ensures
            rebuild == !(size == old(self).input_size || size.w == 0 || size.h == 0),
            !rebuild ==> *final(self) == *old(self),
            rebuild ==> *final(self) == (EngineState {
                input_size: size,
                input_live: false,
                generation: old(self).generation.wrapping_add(1),
                ..*old(self)
            }),
    {
        if (size.w == self.input_size.w && size.h == self.input_size.h) || size.w == 0 || size.h == 0 {
            return false;
        }
        self.input_size = size;
        self.input_live = false;
        self.generation = self.generation.wrapping_add(1);
        true
    }

    /// Take a new output format. Only a change of raster replaces the output
    /// targets; a change of rate alone is just recorded. Returns whether the
    /// targets must be rebuilt.
    pub fn set_output_format(&mut self, fmt: VideoFormat) -> (rebuild: bool)
        ensures
            rebuild == (fmt.size != old(self).output_format.size),
            !rebuild ==> *final(self) == (EngineState { output_format: fmt, ..*old(self) }),
            rebuild ==> *final(self) == (EngineState {
                output_format: fmt,
                generation: old(self).generation.wrapping_add(1),
                ..*old(self)
            }),
    {
        if fmt.size.w == self.output_format.size.w && fmt.size.h == self.output_format.size.h {
            self.output_format = fmt;
            return false;
        }
        self.output_format = fmt;
        self.generation = self.generation.wrapping_add(1);
        true
    }

    /// Keep targets for exactly these outputs, in this order.
    pub fn set_outputs(&mut self, ids: &[OutputId])
        ensures
            final(self).order@ == ids@,
            final(self).input_size == old(self).input_size,
            final(self).output_format == old(self).output_format,
            final(self).scaling == old(self).scaling,
            final(self).input_live == old(self).input_live,
            final(self).generation == old(self).generation,
    {
        self.order = vstd::slice::slice_to_vec(ids);
    }

    /// Check a captured UYVY frame against the input raster at the stride the
    /// card reported; a frame that fits makes the input live, a short one is
    /// refused rather than read past its end and changes nothing.
    pub fn accept_upload(&mut self, len: usize, row_bytes: u32) -> (r: Result<(), String>)
        ensures
            r is Ok <==> len >= row_bytes as nat * old(self).input_size.h as nat,
            r is Ok ==> *final(self) == (EngineState { input_live: true, ..*old(self) }),
            r matches Err(msg) ==> {
                &&& msg@ == short_frame_spec(
                    len as nat,
                    old(self).input_size,
                    row_bytes,
                    row_bytes as nat * old(self).input_size.h as nat,
                )
                &&& *final(self) == *old(self)
            },
    {
        match check_upload(len, self.input_size, row_bytes) {
            Ok(()) => {
                self.input_live = true;
                Ok(())
            },
            Err(msg) => Err(msg),
        }
    }

    /// Whether a plan names a different list of outputs from the targets held,
    /// in which case the targets are brought in line before rendering.
    pub fn order_differs<R>(&self, plan: &[OutputPlan<R>]) -> (differs: bool)
        ensures
            !differs <==> (plan@.len() == self.order@.len()
                && forall|i: int| 0 <= i < plan@.len() ==> (#[trigger] plan@[i]).output == self.order@[i]),
    {
        if plan.len() != self.order.len() {
            return true;
        }
        let mut i: usize = 0;
        while i < plan.len()
            invariant
                i <= plan@.len(),
                plan@.len() == self.order@.len(),
                forall|j: int| 0 <= j < i ==> (#[trigger] plan@[j]).output == self.order@[j],
            decreases plan@.len() - i,
        {
            if plan[i].output.0 != self.order[i].0 {
                return true;
            }
            i += 1;
        }
        false
    }
}

impl EngineState {
    /// Lay out one frame's work for a plan. The targets are first brought in
    /// line with the plan's outputs; then each planned output is drawn, in
    /// plan order, and every output gets exactly one frame handed to the
    /// sink, in plan order — an output with no card is rendered all the same.
    pub fn begin_render<R>(&mut self, plan: &[OutputPlan<R>]) -> (steps: RenderSteps)
        ensures
            steps.retarget == (old(self).order@ != plan_ids(plan@)),
            final(self).order@ == plan_ids(plan@),
            final(self).input_size == old(self).input_size,
            final(self).output_format == old(self).output_format,
            final(self).scaling == old(self).scaling,
            final(self).input_live == old(self).input_live,
            final(self).generation == old(self).generation,
            steps.draws@ == plan_draws(plan@, old(self).input_live),
            steps.sends@ == plan_ids(plan@),
    {
        let retarget = self.order_differs(plan);
        if retarget {
            let ids = plan_outputs(plan);
            assert(ids@ =~= plan_ids(plan@));
            self.set_outputs(ids.as_slice());
        } else {
            assert(self.order@ =~= plan_ids(plan@));
        }
        proof {
            if old(self).order@ == plan_ids(plan@) {
                assert forall|i: int| 0 <= i < plan@.len() implies (#[trigger] plan@[i]).output == old(self).order@[i] by {
                    assert(plan_ids(plan@)[i] == plan@[i].output);
                }
            }
        }
        let live = self.input_live;
        let mut draws: Vec<(OutputId, Draw)> = Vec::new();
        let mut i: usize = 0;
        while i < plan.len()
            invariant
                i <= plan@.len(),
                live == old(self).input_live,
                draws@ =~= plan_draws(plan@, live).subrange(0, i as int),
            decreases plan@.len() - i,
        {
            let d = draw_for(&plan[i].source, live);
            draws.push((plan[i].output, d));
            i += 1;
        }
        assert(plan_draws(plan@, live).subrange(0, plan@.len() as int) =~= plan_draws(plan@, live));
        let mut sends: Vec<OutputId> = Vec::new();
        let mut k: usize = 0;
        while k < self.order.len()
            invariant
                k <= self.order@.len(),
                sends@ =~= self.order@.subrange(0, k as int),
            decreases self.order@.len() - k,
        {
            sends.push(self.order[k]);
            k += 1;
        }
        assert(self.order@.subrange(0, self.order@.len() as int) =~= self.order@);
        RenderSteps { retarget, draws, sends }
    }
}

/// The outputs a plan names, in its order.
pub fn plan_outputs<R>(plan: &[OutputPlan<R>]) -> (ids: Vec<OutputId>)
    ensures
        ids@.len() == plan@.len(),
        forall|i: int| 0 <= i < plan@.len() ==> #[trigger] ids@[i] == plan@[i].output,
{
    let mut ids: Vec<OutputId> = Vec::new();
    let mut i: usize = 0;
    while i < plan.len()
        invariant
            i <= plan@.len(),
            ids@.len() == i,
            forall|j: int| 0 <= j < i ==> #[trigger] ids@[j] == plan@[j].output,
        decreases plan@.len() - i,
    {
        ids.push(plan[i].output);
        i += 1;
    }
    ids
}

/// A preview built against a source at `built` with `built_size` must be
/// rebuilt when the thumbnail raster changed or a source texture has been
/// replaced since — a stale binding shows the old picture forever, which
/// reads as a frozen source.
pub fn preview_stale(built: Option<(Size, u64)>, size: Size, generation: u64) -> (stale: bool)
    ensures
        stale == match built {
            None => true,
            Some((s, g)) => s != size || g != generation,
        },
{
    match built {
        None => true,
        Some((s, g)) => s.w != size.w || s.h != size.h || g != generation,
    }
}

/// The byte layout of one output's readback: the packed row, the row padded
/// to the copy alignment, and the sizes of the staging buffer and the frame
/// handed to the card.
#[derive(Debug, Clone, Copy, PartialEq, Eq, Structural)]
pub struct TargetLayout {
    pub row_bytes: u32,
    pub padded_row: u32,
    pub staging_len: u64,
    pub frame_len: u64,
}

/// An output raster's readback layout. A zero-width raster still gets one
/// macropixel of row.
pub open spec fn target_row(size: Size) -> nat {
    if macro_width(size.w) == 0 { 4 } else { macro_width(size.w) * 4 }
}

pub fn target_layout(size: Size) -> (t: TargetLayout)
    requires
        aligned(target_row(size), COPY_ALIGN as nat) <= u32::MAX,
    ensures
        t.row_bytes == target_row(size),
        t.padded_row == aligned(target_row(size), COPY_ALIGN as nat),
        t.padded_row >= t.row_bytes,
        t.padded_row % COPY_ALIGN == 0,
        t.staging_len == t.padded_row as nat * size.h as nat,
        t.frame_len == t.row_bytes as nat * size.h as nat,
{
    let half = size.w / 2 + size.w % 2;
    let macro_w = if half == 0 { 1 } else { half };
    let row_bytes = macro_w * 4;
    let padded_row = align_up(row_bytes, copy_align());
    assert(padded_row as u64 * size.h as u64 <= u64::MAX) by (nonlinear_arith);
    assert(row_bytes as u64 * size.h as u64 <= u64::MAX) by (nonlinear_arith);
    TargetLayout {
        row_bytes,
        padded_row,
        staging_len: padded_row as u64 * size.h as u64,
        frame_len: row_bytes as u64 * size.h as u64,
    }
}

} // verus!
