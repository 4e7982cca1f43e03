use kestrel::geom::Size;
use kestrel::pattern::{bars_uyvy, row_bytes};
use kestrel::source::{FrameSlot, SyntheticSource};

#[test]
fn the_slot_keeps_only_the_newest_frame() {
    let mut slot = FrameSlot::new();
    let size = Size::new(16, 4);
    let a = vec![1u8; 16 * 4 * 2];
    let b = vec![2u8; 16 * 4 * 2];
    slot.put(&a, 32, size, false);
    slot.put(&b, 32, size, false);
    let got = slot.take_newer_than(0).unwrap();
    assert_eq!(got.bytes[0], 2, "a backlog would show the older frame");
    assert_eq!(got.seq, 2);
}

#[test]
fn a_frame_already_seen_is_not_handed_out_again() {
    let mut slot = FrameSlot::new();
    let size = Size::new(16, 4);
    slot.put(&[1u8; 128], 32, size, false);
    let first = slot.take_newer_than(0).unwrap();
    assert!(
        slot.take_newer_than(first.seq).is_none(),
        "re-uploading an unchanged frame is wasted bandwidth every tick"
    );
}

#[test]
fn a_resize_replaces_the_buffer_rather_than_writing_past_it() {
    let mut slot = FrameSlot::new();
    slot.put(&[1u8; 128], 32, Size::new(16, 4), false);
    slot.put(&vec![9u8; 512], 64, Size::new(32, 8), false);
    let got = slot.take_newer_than(0).unwrap();
    assert_eq!(got.bytes.len(), 512);
    assert_eq!(got.size, Size::new(32, 8));
}

#[test]
fn the_synthetic_source_actually_changes_between_frames() {
    let mut s = SyntheticSource::new(Size::new(64, 8));
    let a = s.next_frame().to_vec();
    // The marker moves every other tick.
    s.next_frame();
    let c = s.next_frame().to_vec();
    assert_ne!(a, c, "a still pattern cannot show that the path is running");
    assert_eq!(a.len(), row_bytes(Size::new(64, 8)) as usize * 8);
}

// --- further tests ---------------------------------------------------

#[test]
fn an_empty_slot_offers_nothing() {
    let slot = FrameSlot::new();
    assert!(slot.take_newer_than(0).is_none());
}

#[test]
fn the_marker_is_a_bright_column_over_the_bars() {
    let size = Size::new(64, 8);
    let mut s = SyntheticSource::new(size);
    assert_eq!(s.size(), size);
    assert_eq!(s.row_bytes(), 128);
    let bars = bars_uyvy(size);
    let f = s.next_frame().to_vec();
    // Tick zero: the marker is in macropixel column zero of every row, and
    // everything else is the bars.
    let white = kestrel::pattern::rgb_to_ycbcr([235, 235, 235]);
    for y in 0..8 {
        let row = y * 128;
        assert_eq!(&f[row..row + 4], &[white[1], white[0], white[2], white[0]]);
        assert_eq!(&f[row + 4..row + 128], &bars[row + 4..row + 128]);
    }
    // It moves one column every other tick.
    let second = s.next_frame().to_vec();
    assert_eq!(second, f);
    let third = s.next_frame().to_vec();
    assert_eq!(&third[4..8], &[white[1], white[0], white[2], white[0]]);
    assert_eq!(&third[0..4], &bars[0..4]);
}

#[test]
fn the_marker_sweeps_the_raster_once_every_two_hundred_frames() {
    let size = Size::new(1920, 1080);
    let stride = row_bytes(size) as usize;
    let bars = bars_uyvy(size);
    let white = kestrel::pattern::rgb_to_ycbcr([235, 235, 235]);
    let marker = [white[1], white[0], white[2], white[0]];
    let mut s = SyntheticSource::new(size);
    let keep: [usize; 6] = [0, 1, 100, 198, 200, 201];
    let mut frames: Vec<Vec<u8>> = vec![Vec::new(); 202];
    for t in 0..202 {
        let f = s.next_frame();
        if keep.contains(&t) {
            frames[t] = f.to_vec();
        }
    }
    // Four seconds at 50p: the picture comes round again after 200 frames.
    assert_eq!(frames[200], frames[0]);
    assert_eq!(frames[201], frames[1]);
    assert_ne!(frames[100], frames[0]);
    // A sweep starts on the left column and ends on the right one.
    assert_eq!(&frames[0][0..4], &marker);
    let right = stride - 4;
    assert_eq!(&frames[198][right..stride], &marker);
    assert_eq!(&frames[198][0..right], &bars[0..right]);
    // Halfway through, the marker is halfway across: step 50 of 99.
    let col: usize = (50 * 959 + 98) / 99;
    assert_eq!(&frames[100][stride + col * 4..stride + col * 4 + 4], &marker);
}

#[test]
fn a_narrow_raster_is_swept_at_the_same_pace() {
    let size = Size::new(4, 1);
    let mut s = SyntheticSource::new(size);
    let bars = bars_uyvy(size);
    let first = s.next_frame().to_vec();
    s.next_frame();
    // Two macropixels wide: one step in, the marker is on the right one, and
    // it stays there until the sweep comes round again.
    let third = s.next_frame().to_vec();
    assert_eq!(&third[0..4], &bars[0..4]);
    assert_ne!(third, first);
    for _ in 3..200 {
        s.next_frame();
    }
    assert_eq!(s.next_frame().to_vec(), first);
}
