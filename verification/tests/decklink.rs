use kestrel::decklink::{any_inactive, available, list_devices, status_line, status_line_for, Capture, Device, Error, Playback};
use kestrel::format::VideoFormat;

#[test]
fn the_status_line_distinguishes_the_two_failures() {
    let s = status_line();
    assert!(s.starts_with("DeckLink: "), "{s}");
    if !available() {
        assert!(
            s.contains("not compiled in"),
            "a build without the SDK must say so, not blame the hardware: {s}"
        );
    }
}

#[test]
fn an_inactive_port_explains_itself_in_the_menu() {
    let d = Device {
        persistent_id: 1,
        name: "DeckLink Duo (3)".into(),
        sub_device: 2,
        has_input: true,
        has_output: true,
        active: false,
        full_duplex: false,
    };
    assert!(d.menu_label().contains("profile"), "{}", d.menu_label());
}

// --- further tests ---------------------------------------------------

fn device(active: bool) -> Device {
    Device {
        persistent_id: 7,
        name: "Duo (1)".into(),
        sub_device: 0,
        has_input: true,
        has_output: true,
        active,
        full_duplex: false,
    }
}

#[test]
fn an_active_port_is_just_its_name() {
    assert_eq!(device(true).menu_label(), "Duo (1)");
}

#[test]
fn this_build_refuses_everything_as_not_compiled_in() {
    assert!(!available());
    assert!(matches!(list_devices(), Err(Error::NotCompiledIn)));
    assert!(matches!(Playback::open(1, VideoFormat::default()), Err(Error::NotCompiledIn)));
    assert!(matches!(Capture::open(1, |_f: kestrel::decklink::CapturedFrame<'_>| {}), Err(Error::NotCompiledIn)));
    assert_eq!(status_line(), "DeckLink: not compiled in (built without the Blackmagic SDK)");
}

#[test]
fn the_status_line_counts_devices_and_active_ones() {
    assert_eq!(
        status_line_for(true, &Ok(vec![])),
        "DeckLink: compiled in, no devices found (is Desktop Video installed?)"
    );
    assert_eq!(
        status_line_for(true, &Ok(vec![device(true)])),
        "DeckLink: 1 sub-device, 1 active in the current profile"
    );
    assert_eq!(
        status_line_for(true, &Ok(vec![device(true), device(false), device(true)])),
        "DeckLink: 3 sub-devices, 2 active in the current profile"
    );
    assert_eq!(status_line_for(true, &Err(Error::Sdk("driver gone".into()))), "DeckLink: DeckLink: driver gone");
}

#[test]
fn errors_read_as_sentences() {
    assert!(Error::NotCompiledIn.message().contains("compiled without the Blackmagic SDK"));
    assert_eq!(Error::Sdk("x".into()).message(), "DeckLink: x");
}

#[test]
fn the_device_table_reads_direction_duplex_and_state() {
    let mut d = device(true);
    assert_eq!((d.direction(), d.duplex(), d.state()), ("both", "half", "active"));
    d.has_output = false;
    assert_eq!(d.direction(), "in");
    d.has_input = false;
    assert_eq!(d.direction(), "-");
    d.has_output = true;
    d.full_duplex = true;
    assert_eq!((d.direction(), d.duplex()), ("out", "full"));
    assert_eq!(device(false).state(), "INACTIVE in this card's profile");
    assert!(!any_inactive(&[device(true), device(true)]));
    assert!(any_inactive(&[device(true), device(false)]));
    assert!(!any_inactive(&[]));
}
