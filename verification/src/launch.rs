//! What the operator window decides before it opens: the flags it was given
//! and which input it will show.
use vstd::prelude::*;
use crate::decklink::{list_devices, Device};
use crate::geom::Size;
use crate::runtime::InputSource;
use crate::show::{first_index, lemma_first_index, lemma_first_index_is};

verus! {

pub open spec fn named(name: Seq<char>) -> spec_fn(String) -> bool {
    |a: String| a@ == name
}

/// The value after the first `name` among `args`: `None` when the flag is
/// absent, and `None` when it is the last word with nothing after it.
pub open spec fn flag_spec(args: Seq<String>, name: Seq<char>) -> Option<Seq<char>> {
    let i = first_index(args, named(name));
    if 0 <= i && i + 1 < args.len() {
        Some(args[i + 1]@)
    } else {
        None
    }
}

/// Read `--name value` off the command line.
pub fn flag(args: &[String], name: &str) -> (r: Option<String>)
    ensures
        r matches Some(v) ==> flag_spec(args@, name@) == Some(v@),
        r is None ==> flag_spec(args@, name@) is None,
{
    let wanted = name.to_owned();
    let mut i: usize = 0;
    while i < args.len()
        invariant
            i <= args@.len(),
            wanted@ == name@,
            forall|j: int| 0 <= j < i ==> !(#[trigger] named(name@)(args@[j])),
        decreases args@.len() - i,
    {
        if args[i] == wanted {
            proof { lemma_first_index_is(args@, named(name@), i as int); }
            if i + 1 < args.len() {
                return Some(args[i + 1].clone());
            }
            return None;
        }
        i += 1;
    }
    proof { lemma_first_index_is(args@, named(name@), -1); }
    None
}

/// Which device the window captures from: the one asked for by persistent id,
/// or without a request the first active one that can capture.
pub open spec fn chosen_device(devices: Seq<Device>, requested: Option<i64>) -> int {
    match requested {
        Some(id) => first_index(devices, |d: Device| d.persistent_id == id),
        None => first_index(devices, |d: Device| d.active && d.has_input),
    }
}

/// The input for a machine with these devices. Falling back to generated
/// 1080 bars rather than refusing is what makes the window openable — and the
/// whole routing model demonstrable — with nothing plugged in.
pub open spec fn chosen_input(devices: Seq<Device>, requested: Option<i64>) -> InputSource {
    let k = chosen_device(devices, requested);
    if k >= 0 {
        InputSource::DeckLink { persistent_id: devices[k].persistent_id, name: devices[k].name }
    } else {
        InputSource::Synthetic { size: Size { w: 1920, h: 1080 } }
    }
}

/// The first position from which `p` holds, or -1.
fn position_of(devices: &[Device], requested: Option<i64>) -> (k: isize)
    requires
        devices@.len() < isize::MAX,
    ensures
        k == chosen_device(devices@, requested),
{
    let ghost p = match requested {
        Some(id) => |d: Device| d.persistent_id == id,
        None => |d: Device| d.active && d.has_input,
    };
    let mut i: usize = 0;
    while i < devices.len()
        invariant
            i <= devices@.len() < isize::MAX,
            p == (match requested {
                Some(id) => |d: Device| d.persistent_id == id,
                None => |d: Device| d.active && d.has_input,
            }),
            forall|j: int| 0 <= j < i ==> !p(#[trigger] devices@[j]),
        decreases devices@.len() - i,
    {
        let d = &devices[i];
        let hit = match requested {
            Some(id) => d.persistent_id == id,
            None => d.active && d.has_input,
        };
        if hit {
            proof { lemma_first_index_is(devices@, p, i as int); }
            return i as isize;
        }
        i += 1;
    }
    proof { lemma_first_index_is(devices@, p, -1); }
    -1
}

/// The input, given what the card driver listed.
pub fn choose_input_from(devices: &[Device], requested: Option<i64>) -> (s: InputSource)
    requires
        devices@.len() < isize::MAX,
    ensures
        s == chosen_input(devices@, requested),
{
    let k = position_of(devices, requested);
    proof { lemma_first_index(devices@, match requested {
        Some(id) => |d: Device| d.persistent_id == id,
        None => |d: Device| d.active && d.has_input,
    }); }
    if k >= 0 {
        let d = &devices[k as usize];
        let name = d.name.clone();
        InputSource::DeckLink { persistent_id: d.persistent_id, name }
    } else {
        InputSource::Synthetic { size: Size::new(1920, 1080) }
    }
}

/// Pick the input: the named card, else the first active DeckLink that can
/// capture, else generated bars. A driver that cannot list anything counts as
/// no devices at all.
pub fn choose_input(requested: Option<i64>) -> (s: InputSource)
    ensures
        s == chosen_input(Seq::empty(), requested),
{
    let devices: Vec<Device> = match list_devices() {
        Ok(d) => d,
        Err(_) => Vec::new(),
    };
    if devices.len() >= isize::MAX as usize {
        return InputSource::Synthetic { size: Size::new(1920, 1080) };
    }
    choose_input_from(devices.as_slice(), requested)
}

} // verus!
