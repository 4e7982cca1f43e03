//! What a first run looks like: the show built for a machine just looked at.
use vstd::prelude::*;
use crate::decklink::{list_devices, Device};
use crate::format::{Scan, VideoFormat};
use crate::geom::{FitMode, Size};
use crate::show::{
    first_index, lemma_first_index_is, numbered_label, output_has_id, DeviceRef, IdleFill, OutputId, RoiId,
    Show, ROI_PALETTE,
};
use crate::text::decimal;

verus! {

/// A sub-device a first show gives an output to: active in the card's
/// profile, able to play out, and not the one chosen as the input.
pub open spec fn plays_out(input_device: Option<i64>) -> spec_fn(Device) -> bool {
    |d: Device| d.active && d.has_output && Some(d.persistent_id) != input_device
}

pub open spec fn usable(devices: Seq<Device>, input_device: Option<i64>) -> Seq<Device> {
    devices.filter(plays_out(input_device))
}

/// What a first show holds, for a machine with these devices.
///
/// Outputs are created for every usable sub-device, named after it and
/// remembering it; with none, four unassigned outputs, because the routing,
/// the matrix and the whole UI must be usable and demonstrable with nothing
/// plugged in. Either way there is one region to start from, so a first run
/// has something to drag rather than an empty picture.
pub open spec fn is_first_show<R>(s: Show<R>, devices: Seq<Device>, input_device: Option<i64>, region: R) -> bool {
    let u = usable(devices, input_device);
    &&& s.version == 1
    &&& s.output_format == VideoFormat::of(1920, 1080, 50, 1, Scan::Progressive)
    &&& s.input_size == (Size { w: 1920, h: 1080 })
    &&& s.outputs_enabled
    &&& s@.outputs.len() == (if u.len() == 0 { 4 } else { u.len() })
    &&& forall|i: int| 0 <= i < s@.outputs.len() ==> {
        &&& (#[trigger] s@.outputs[i]).id == OutputId((i + 1) as u32)
        &&& s@.outputs[i].assigned is None
        &&& s@.outputs[i].idle == IdleFill::Black
        &&& s@.outputs[i].fit == FitMode::Fit
        &&& if u.len() == 0 {
            &&& s@.outputs[i].label@ == numbered_label((i + 1) as nat)
            &&& s@.outputs[i].device is None
        } else {
            &&& s@.outputs[i].label == u[i].name
            &&& s@.outputs[i].device == Some(DeviceRef { persistent_id: u[i].persistent_id, display_name: u[i].name })
        }
    }
    &&& s@.rois.len() == 1
    &&& s@.rois[0].id == RoiId(1)
    &&& s@.rois[0].name@ == "Region 1"@
    &&& s@.rois[0].rect == region
    &&& s@.rois[0].colour == ROI_PALETTE[0]
    &&& s@.rois[0].lock_aspect
    &&& s.next_roi_id == 2
}

/// A show for a machine we have just looked at, from what the driver listed.
/// `region` is where the first region sits.
pub fn default_show_for<R>(devices: &[Device], input_device: Option<i64>, region: R) -> (s: Show<R>)
    requires
        devices@.len() < u32::MAX - 1,
    ensures
        is_first_show(s, devices@, input_device, region),
{
    let ghost keep = plays_out(input_device);
    let mut show: Show<R> = Show::new();
    let mut i: usize = 0;
    while i < devices.len()
        invariant
            i <= devices@.len() < u32::MAX - 1,
            keep == plays_out(input_device),
            show.version == 1,
            show.output_format == VideoFormat::of(1920, 1080, 50, 1, Scan::Progressive),
            show.input_size == (Size { w: 1920, h: 1080 }),
            show.outputs_enabled,
            show@.rois.len() == 0,
            show.next_roi_id == 1,
            show@.outputs.len() == devices@.subrange(0, i as int).filter(keep).len(),
            show.next_output_id == show@.outputs.len() + 1,
            forall|j: int| 0 <= j < show@.outputs.len() ==> {
                let u = devices@.subrange(0, i as int).filter(keep);
                &&& (#[trigger] show@.outputs[j]).id == OutputId((j + 1) as u32)
                &&& show@.outputs[j].assigned is None
                &&& show@.outputs[j].idle == IdleFill::Black
                &&& show@.outputs[j].fit == FitMode::Fit
                &&& show@.outputs[j].label == u[j].name
                &&& show@.outputs[j].device == Some(DeviceRef { persistent_id: u[j].persistent_id, display_name: u[j].name })
            },
        decreases devices@.len() - i,
    {
        let ghost done = devices@.subrange(0, i as int);
        proof {
            assert(devices@.subrange(0, i as int + 1) =~= done.push(devices@[i as int]));
            done.lemma_filter_push(devices@[i as int], keep);
        }
        let d = &devices[i];
        let wanted = match input_device {
            Some(id) => id != d.persistent_id,
            None => true,
        };
        if d.active && d.has_output && wanted {
            let ghost before = show@;
            let n = show.outputs.len();
            let id = show.add_output(d.name.clone());
            proof {
                assert(show@.outputs.len() == n + 1);
                assert forall|j: int| 0 <= j < show@.outputs.len() && (n < 0 || j < n) implies
                    !output_has_id(id)(#[trigger] show@.outputs[j]) by {}
                lemma_first_index_is(show@.outputs, output_has_id(id), n as int);
            }
            let device = DeviceRef { persistent_id: d.persistent_id, display_name: d.name.clone() };
            match show.output_mut(id) {
                Some(o) => {
                    o.device = Some(device);
                },
                None => {},
            }
        }
        i += 1;
    }
    assert(devices@.subrange(0, devices@.len() as int) =~= devices@);
    if show.outputs.len() == 0 {
        let mut k: u64 = 0;
        while k < 4
            invariant
                k <= 4,
                show.version == 1,
                show.output_format == VideoFormat::of(1920, 1080, 50, 1, Scan::Progressive),
                show.input_size == (Size { w: 1920, h: 1080 }),
                show.outputs_enabled,
                show@.rois.len() == 0,
                show.next_roi_id == 1,
                show@.outputs.len() == k,
                show.next_output_id == k + 1,
                forall|j: int| 0 <= j < k ==> {
                    &&& (#[trigger] show@.outputs[j]).id == OutputId((j + 1) as u32)
                    &&& show@.outputs[j].assigned is None
                    &&& show@.outputs[j].idle == IdleFill::Black
                    &&& show@.outputs[j].fit == FitMode::Fit
                    &&& show@.outputs[j].label@ == numbered_label((j + 1) as nat)
                    &&& show@.outputs[j].device is None
                },
            decreases 4 - k,
        {
            let label = crate::show::numbered_output_label(k + 1);
            show.add_output(label);
            k += 1;
        }
    }
    let mut name = String::new();
    name.append("Region 1");
    show.add_roi(name, region);
    show
}

/// A show for a machine we have just looked at. A driver that cannot list
/// anything counts as no devices at all.
pub fn default_show<R>(input_device: Option<i64>, region: R) -> (s: Show<R>)
    ensures
        is_first_show(s, Seq::empty(), input_device, region),
{
    let devices: Vec<Device> = match list_devices() {
        Ok(d) => d,
        Err(_) => Vec::new(),
    };
    if devices.len() >= (u32::MAX - 1) as usize {
        return default_show_for(&[], input_device, region);
    }
    default_show_for(devices.as_slice(), input_device, region)
}

} // verus!
