use kestrel::decklink::Device;
use kestrel::geom::Size;
use kestrel::launch::{choose_input, choose_input_from, flag};
use kestrel::matrix::short_label;
use kestrel::runtime::InputSource;
use kestrel::show::{DeviceRef, IdleFill, OutputId, RoiId};
use kestrel::show_file::{default_show, default_show_for};

#[derive(Debug, Clone, Copy, PartialEq)]
struct Rect {
    x: f64,
    y: f64,
    w: f64,
    h: f64,
}

const START: Rect = Rect { x: 0.3, y: 0.3, w: 0.4, h: 0.4 };
const FULL: Rect = Rect { x: 0.0, y: 0.0, w: 1.0, h: 1.0 };

#[test]
fn flags_are_read_as_name_then_value() {
    let args: Vec<String> = ["kestrel-gui", "--show", "a.json", "--http", "0.0.0.0:1"]
        .iter()
        .map(|s| s.to_string())
        .collect();
    assert_eq!(flag(&args, "--show").as_deref(), Some("a.json"));
    assert_eq!(flag(&args, "--http").as_deref(), Some("0.0.0.0:1"));
    assert_eq!(flag(&args, "--input"), None);
}

#[test]
fn a_trailing_flag_with_no_value_is_none_rather_than_a_panic() {
    let args: Vec<String> = ["kestrel-gui", "--show"].iter().map(|s| s.to_string()).collect();
    assert_eq!(flag(&args, "--show"), None);
}

#[test]
fn column_headers_shorten_to_something_recognisable() {
    assert_eq!(short_label("Output 3"), "3");
    assert_eq!(short_label("DeckLink Duo (2)"), "2");
    assert_eq!(short_label("SDI 12"), "12");
    // No digits to grab: fall back to a prefix rather than an empty header.
    assert_eq!(short_label("Foldback"), "Fol");
}

#[test]
fn a_machine_with_no_card_still_gets_a_usable_show() {
    let show = default_show(None, START);
    assert!(!show.outputs.is_empty(), "the UI needs outputs to show");
    assert_eq!(show.rois.len(), 1, "and something to drag");
    assert_eq!(show.plan(false, FULL).len(), show.outputs.len());
}

// --- further tests ---------------------------------------------------

fn device(id: i64, name: &str, input: bool, output: bool, active: bool) -> Device {
    Device {
        persistent_id: id,
        name: name.to_string(),
        sub_device: 0,
        has_input: input,
        has_output: output,
        active,
        full_duplex: false,
    }
}

#[test]
fn only_the_first_occurrence_of_a_flag_counts() {
    let args: Vec<String> = ["x", "--show", "a", "--show", "b"].iter().map(|s| s.to_string()).collect();
    assert_eq!(flag(&args, "--show").as_deref(), Some("a"));
    assert_eq!(flag(&[], "--show"), None);
}

#[test]
fn short_labels_keep_short_names_whole() {
    assert_eq!(short_label("A"), "A");
    assert_eq!(short_label(""), "");
    assert_eq!(short_label("Room 123"), "Roo", "three digits are not a short number");
    assert_eq!(short_label("Écran"), "Écr");
}

#[test]
fn the_window_captures_the_requested_card_or_the_first_that_can() {
    let devices = vec![
        device(10, "Duo (1)", true, true, false),
        device(11, "Duo (2)", true, false, true),
        device(12, "Duo (3)", false, true, true),
    ];
    assert_eq!(
        choose_input_from(&devices, Some(12)),
        InputSource::DeckLink { persistent_id: 12, name: "Duo (3)".to_string() }
    );
    assert_eq!(
        choose_input_from(&devices, None),
        InputSource::DeckLink { persistent_id: 11, name: "Duo (2)".to_string() },
        "an inactive port is passed over"
    );
    assert_eq!(
        choose_input_from(&devices, Some(99)),
        InputSource::Synthetic { size: Size::new(1920, 1080) }
    );
    assert_eq!(choose_input(None), InputSource::Synthetic { size: Size::new(1920, 1080) });
}

#[test]
fn a_first_show_gets_an_output_for_every_usable_card() {
    let devices = vec![
        device(10, "Duo (1)", true, true, true),
        device(11, "Duo (2)", true, true, false),
        device(12, "Duo (3)", false, true, true),
        device(13, "Duo (4)", true, false, true),
    ];
    let show = default_show_for(&devices, Some(10), START);
    assert_eq!(show.outputs.len(), 1, "the input, an inactive port and a capture-only port are skipped");
    let o = &show.outputs[0];
    assert_eq!(o.id, OutputId(1));
    assert_eq!(o.label, "Duo (3)");
    assert_eq!(o.device, Some(DeviceRef { persistent_id: 12, display_name: "Duo (3)".to_string() }));
    assert_eq!(o.idle, IdleFill::Black);
    assert_eq!(show.rois[0].id, RoiId(1));
    assert_eq!(show.rois[0].name, "Region 1");
    assert_eq!(show.rois[0].rect, START);
}

#[test]
fn with_no_usable_card_a_first_show_has_four_numbered_outputs() {
    let devices = vec![device(10, "Duo (1)", true, true, true)];
    let show = default_show_for(&devices, Some(10), START);
    let labels: Vec<&str> = show.outputs.iter().map(|o| o.label.as_str()).collect();
    assert_eq!(labels, ["Output 1", "Output 2", "Output 3", "Output 4"]);
    assert!(show.outputs.iter().all(|o| o.device.is_none() && o.assigned.is_none()));
}
