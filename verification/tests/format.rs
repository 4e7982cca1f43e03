use kestrel::format::{common_formats, FrameRate, Scan, VideoFormat};

#[test]
fn fractional_rates_are_exact() {
    let r = FrameRate::new(60000, 1001);
    assert_eq!(r.name(), "59.94");
    // The whole point of the rational: a frame is exactly 1001/60000 s, and
    // in DeckLink's usual 1000-per-second scale that is 16 (not 16.68).
    assert_eq!(r.duration_in(60000), 1001);
}

#[test]
fn integer_rates_print_without_decimals() {
    assert_eq!(FrameRate::new(50, 1).name(), "50");
    assert_eq!(FrameRate::new(25, 1).name(), "25");
}

#[test]
fn format_names_read_like_sdi() {
    assert_eq!(VideoFormat::default().name(), "1080p50");
    assert_eq!(
        VideoFormat::new(1920, 1080, 30000, 1001, Scan::Interlaced).name(),
        "1080i29.97"
    );
    assert_eq!(
        VideoFormat::new(1280, 720, 60000, 1001, Scan::Progressive).name(),
        "720p59.94"
    );
}

#[test]
fn uyvy_rows_are_two_bytes_per_pixel() {
    assert_eq!(VideoFormat::default().uyvy_row_bytes(), 1920 * 2);
    assert_eq!(
        VideoFormat::new(3840, 2160, 50, 1, Scan::Progressive).uyvy_row_bytes(),
        3840 * 2
    );
}

#[test]
fn the_menu_has_no_duplicates() {
    let all = common_formats();
    for (i, a) in all.iter().enumerate() {
        for b in &all[i + 1..] {
            assert_ne!(a, b, "duplicate format in the menu: {}", a.name());
        }
    }
}

#[test]
fn a_zero_rate_has_no_duration_rather_than_a_division_by_zero() {
    assert_eq!(FrameRate::new(0, 1).duration_in(1000), 0);
}

#[test]
fn twenty_five_frames_last_forty_milliseconds_each() {
    assert_eq!(FrameRate::new(25, 1).duration_in(1000), 40);
    assert_eq!(FrameRate::new(30000, 1001).duration_in(30000), 1001);
}

#[test]
fn rates_that_are_not_whole_print_to_two_places() {
    assert_eq!(FrameRate::new(24000, 1001).name(), "23.98");
    assert_eq!(FrameRate::new(30000, 1001).name(), "29.97");
    assert_eq!(FrameRate::new(50, 0).name(), "0");
}

#[test]
fn the_default_format_is_1080p50() {
    let f = VideoFormat::default();
    assert_eq!((f.width(), f.height()), (1920, 1080));
    assert_eq!(f.rate, FrameRate::new(50, 1));
    assert_eq!(f.scan, Scan::Progressive);
    assert_eq!(Scan::Interlaced.suffix(), "i");
    assert_eq!(Scan::Psf.suffix(), "psf");
}

#[test]
fn the_menu_offers_the_common_formats() {
    let all = common_formats();
    assert!(all.iter().any(|f| f.name() == "1080p50"));
    assert!(all.iter().any(|f| f.name() == "720p59.94"));
    assert!(all.len() >= 8);
}

#[test]
fn a_frame_lasts_exactly_its_rational() {
    for (num, den) in [(60000u32, 1001u32), (30000, 1001), (50, 1), (24000, 1001)] {
        assert_eq!(FrameRate::new(num, den).duration_in(num as i64), den as i64);
    }
}
