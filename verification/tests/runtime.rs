use kestrel::decklink::available;
use kestrel::format::{Scan, VideoFormat};
use kestrel::geom::Size;
use kestrel::runtime::{
    buffered_counts, follow_format, frame_period_nanos, input_lost, next_capture, pace, parse_size,
    reconcile_playbacks, send_frame, InputSource, Pace, Playbacks, SizeError,
};
use kestrel::show::{DeviceRef, OutputId};
use kestrel::source::FrameSlot;
use std::time::Duration;

#[test]
fn sizes_parse_the_way_people_type_them() {
    assert_eq!(parse_size("1920x1080").unwrap(), Size::new(1920, 1080));
    assert_eq!(parse_size("1280X720").unwrap(), Size::new(1280, 720));
    assert!(parse_size("1920").is_err());
    assert!(parse_size("axb").is_err());
}

#[test]
fn a_zero_rate_does_not_produce_a_zero_period_busy_loop() {
    let p = Duration::from_nanos(frame_period_nanos(VideoFormat::new(1920, 1080, 0, 1, Scan::Progressive)));
    assert!(p > Duration::ZERO);
}

#[test]
fn reconciling_drops_nothing_when_nothing_changed() {
    // With no SDK compiled in, opening always fails — which is exactly the
    // case worth pinning down: reconcile must not panic, must not retain a
    // stale entry, and must leave the app running.
    let mut p = Playbacks::new();
    let devices = vec![(
        OutputId(1),
        Some(DeviceRef { persistent_id: 42, display_name: "nope".into() }),
    )];
    let fmt = VideoFormat::default();
    reconcile_playbacks(&mut p, &devices, fmt);
    reconcile_playbacks(&mut p, &devices, fmt);
    if !available() {
        assert!(p.is_empty(), "a card that cannot open must not be retained");
    }
}

#[test]
fn an_output_with_no_device_is_simply_not_opened() {
    let mut p = Playbacks::new();
    reconcile_playbacks(&mut p, &[(OutputId(1), None)], VideoFormat::default());
    assert!(p.is_empty());
}

#[test]
fn frame_periods_are_exact_for_the_awkward_rates() {
    // A period is a whole number of nanoseconds, so 1001/60000 s can only
    // come within half a nanosecond of the rational; 50p is exact.
    let p = Duration::from_nanos(frame_period_nanos(VideoFormat::new(1920, 1080, 60000, 1001, Scan::Progressive)));
    assert!((p.as_secs_f64() - 1001.0 / 60000.0).abs() <= 0.5e-9);
    let p = Duration::from_nanos(frame_period_nanos(VideoFormat::new(1920, 1080, 50, 1, Scan::Progressive)));
    assert!((p.as_secs_f64() - 0.02).abs() < 1e-12);
}

// --- further tests ---------------------------------------------------

#[test]
fn each_way_a_size_can_be_wrong_has_its_own_error() {
    assert_eq!(parse_size("1920"), Err(SizeError::NoSeparator));
    assert_eq!(parse_size("axb"), Err(SizeError::BadWidth));
    assert_eq!(parse_size("1920x"), Err(SizeError::BadHeight));
    assert_eq!(parse_size("1920x99999999999"), Err(SizeError::BadHeight));
    assert_eq!(parse_size("-1x5"), Err(SizeError::BadWidth));
}

#[test]
fn spaces_and_a_plus_sign_are_read_as_people_mean_them() {
    assert_eq!(parse_size(" 640 x 480 "), Ok(Size::new(640, 480)));
    assert_eq!(parse_size("+3x+4"), Ok(Size::new(3, 4)));
    assert_eq!(parse_size("4294967295x1"), Ok(Size::new(u32::MAX, 1)));
    assert_eq!(parse_size("4294967296x1"), Err(SizeError::BadWidth));
}

#[test]
fn frame_periods_are_exact_to_the_nanosecond() {
    assert_eq!(frame_period_nanos(VideoFormat::new(1920, 1080, 50, 1, Scan::Progressive)), 20_000_000);
    assert_eq!(frame_period_nanos(VideoFormat::new(1920, 1080, 60000, 1001, Scan::Progressive)), 16_683_333);
    assert_eq!(frame_period_nanos(VideoFormat::new(1920, 1080, 30000, 1001, Scan::Interlaced)), 33_366_667);
    assert_eq!(frame_period_nanos(VideoFormat::new(1920, 1080, 50, 0, Scan::Progressive)), 20_000_000);
}

#[test]
fn frame_periods_are_the_nearest_nanosecond_for_the_awkward_rates() {
    let p = Duration::from_nanos(frame_period_nanos(VideoFormat::new(1920, 1080, 60000, 1001, Scan::Progressive)));
    assert_eq!(p, Duration::from_nanos(16_683_333));
    assert!((p.as_secs_f64() - 1001.0 / 60000.0).abs() <= 0.5e-9);
    let p = Duration::from_nanos(frame_period_nanos(VideoFormat::new(1920, 1080, 50, 1, Scan::Progressive)));
    assert_eq!(p, Duration::from_millis(20));
    assert!((p.as_secs_f64() - 0.02).abs() < 1e-12);
}

#[test]
fn the_watchdog_waits_three_periods_or_200_ms() {
    let period = 20_000_000;
    assert!(!input_lost(true, 200_000_000, period), "200 ms is still within grace");
    assert!(input_lost(true, 200_000_001, period));
    assert!(!input_lost(false, 10_000_000_000, period), "an input already lost is not lost again");
    let slow = 100_000_000;
    assert!(!input_lost(true, 300_000_000, slow), "three slow periods are allowed");
    assert!(input_lost(true, 300_000_001, slow));
}

#[test]
fn the_clock_sleeps_to_the_deadline_or_rebases_when_far_behind() {
    let p = 20_000_000;
    assert_eq!(pace(95_000_000, 5, p), Pace::Sleep(5_000_000));
    assert_eq!(pace(100_000_000, 5, p), Pace::Go);
    assert_eq!(pace(300_000_000, 5, p), Pace::Go, "ten periods behind is still catching up");
    assert_eq!(pace(300_000_001, 5, p), Pace::Rebase(15));
}

#[test]
fn a_format_change_closes_every_card() {
    let mut p = Playbacks::new();
    let mut fmt = VideoFormat::default();
    assert!(!follow_format(&mut fmt, VideoFormat::default(), &mut p));
    let next = VideoFormat::new(1280, 720, 50, 1, Scan::Progressive);
    assert!(follow_format(&mut fmt, next, &mut p));
    assert_eq!(fmt, next);
    assert!(p.is_empty());
}

#[test]
fn a_captured_frame_is_taken_once_and_a_no_signal_frame_is_not_uploaded() {
    let mut slot = FrameSlot::new();
    let mut last = 0u64;
    assert!(next_capture(&slot, &mut last).is_none());
    slot.put(&[7u8; 16], 8, Size::new(4, 2), false);
    let f = next_capture(&slot, &mut last).expect("a new frame");
    assert_eq!(f.bytes, vec![7u8; 16]);
    assert_eq!(last, 1);
    assert!(next_capture(&slot, &mut last).is_none(), "already seen");
    slot.put(&[0u8; 16], 8, Size::new(4, 2), true);
    assert!(next_capture(&slot, &mut last).is_none(), "nothing on the wire");
    assert_eq!(last, 2, "but it was seen");
}

#[test]
fn an_output_with_no_card_has_nowhere_to_send() {
    let p = Playbacks::new();
    assert_eq!(send_frame(&p, OutputId(1), &[0u8; 8], 4), None);
    assert!(buffered_counts(&p).is_empty());
}

#[test]
fn inputs_label_themselves() {
    assert_eq!(InputSource::Synthetic { size: Size::new(1920, 1080) }.label(), "synthetic bars 1920x1080");
    assert_eq!(
        InputSource::DeckLink { persistent_id: 5, name: "DeckLink Duo (1)".into() }.label(),
        "DeckLink Duo (1)"
    );
}

#[test]
fn a_written_size_reads_back() {
    for (w, h) in [(0u32, 0u32), (1920, 1080), (7, 4_000_000), (u32::MAX, u32::MAX)] {
        assert_eq!(parse_size(&format!("{w}x{h}")), Ok(Size::new(w, h)));
    }
    let label = InputSource::Synthetic { size: Size::new(1280, 720) }.label();
    let written = label.rsplit(' ').next().unwrap();
    assert_eq!(parse_size(written), Ok(Size::new(1280, 720)));
}
