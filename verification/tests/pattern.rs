use kestrel::geom::Size;
use kestrel::pattern::{
    bars_uyvy, gradient_uyvy, quadrant_colour, quadrants_uyvy, rgb_to_ycbcr, row_bytes, solid_uyvy, ycbcr_to_rgb,
    BARS_75,
};

const SD: Size = Size { w: 64, h: 64 };

#[test]
fn primaries_survive_a_cpu_round_trip() {
    for rgb in [
        [255, 0, 0],
        [0, 255, 0],
        [0, 0, 255],
        [255, 255, 255],
        [0, 0, 0],
        [128, 128, 128],
    ] {
        let back = ycbcr_to_rgb(rgb_to_ycbcr(rgb));
        for i in 0..3 {
            let d = back[i] as i32 - rgb[i] as i32;
            assert!(d.abs() <= 2, "{rgb:?} -> {back:?} (channel {i} off by {d})");
        }
    }
}

#[test]
fn black_and_white_land_on_the_legal_range() {
    assert_eq!(rgb_to_ycbcr([0, 0, 0])[0], 16, "black must be Y=16");
    assert_eq!(rgb_to_ycbcr([255, 255, 255])[0], 235, "white must be Y=235");
    // Neutral colours must be exactly neutral chroma, or a grey ramp tints.
    let g = rgb_to_ycbcr([128, 128, 128]);
    assert_eq!((g[1], g[2]), (128, 128));
}

#[test]
fn a_frame_is_exactly_two_bytes_a_pixel() {
    let f = solid_uyvy(SD, [10, 20, 30]);
    assert_eq!(f.len(), 64 * 64 * 2);
    assert_eq!(row_bytes(SD), 128);
}

#[test]
fn an_odd_width_rounds_the_macropixel_up() {
    let odd = Size::new(65, 4);
    assert_eq!(row_bytes(odd), 33 * 4);
    assert_eq!(solid_uyvy(odd, [0, 0, 0]).len(), 33 * 4 * 4);
}

#[test]
fn a_solid_frame_repeats_one_macropixel() {
    let f = solid_uyvy(SD, [191, 0, 0]);
    let first: [u8; 4] = f[0..4].try_into().unwrap();
    assert!(
        f.chunks_exact(4).all(|c| c == first),
        "a solid frame must be one macropixel repeated"
    );
}

#[test]
fn bars_start_white_and_end_black() {
    let f = bars_uyvy(Size::new(256, 8));
    // Y of the first macropixel is white-ish, of the last is black.
    assert_eq!(f[1], rgb_to_ycbcr(BARS_75[0])[0]);
    let last = f.len() - 4;
    assert_eq!(f[last + 1], rgb_to_ycbcr(BARS_75[7])[0]);
}

#[test]
fn every_grey_has_neutral_chroma() {
    for v in 0..=255u8 {
        let c = rgb_to_ycbcr([v, v, v]);
        assert_eq!((c[1], c[2]), (128, 128), "grey {v}");
    }
}

#[test]
fn every_colour_lands_on_the_legal_range() {
    for r in (0..=255u32).step_by(15) {
        for g in (0..=255u32).step_by(15) {
            for b in (0..=255u32).step_by(15) {
                let c = rgb_to_ycbcr([r as u8, g as u8, b as u8]);
                assert!((16..=235).contains(&c[0]));
                assert!((16..=240).contains(&c[1]));
                assert!((16..=240).contains(&c[2]));
            }
        }
    }
}

#[test]
fn the_bt709_primaries_have_their_textbook_codes() {
    // 100% red, green and blue in 8-bit limited-range BT.709.
    assert_eq!(rgb_to_ycbcr([255, 0, 0]), [63, 102, 240]);
    assert_eq!(rgb_to_ycbcr([0, 255, 0]), [173, 42, 26]);
    assert_eq!(rgb_to_ycbcr([0, 0, 255]), [32, 240, 118]);
    assert_eq!(ycbcr_to_rgb([16, 128, 128]), [0, 0, 0]);
    assert_eq!(ycbcr_to_rgb([235, 128, 128]), [255, 255, 255]);
}

#[test]
fn a_solid_macropixel_is_u_y_v_y() {
    let c = rgb_to_ycbcr([191, 0, 0]);
    let f = solid_uyvy(Size::new(2, 1), [191, 0, 0]);
    assert_eq!(f, vec![c[1], c[0], c[2], c[0]]);
}

#[test]
fn chroma_is_sited_on_the_even_pixel() {
    // Two columns of different colours in one macropixel: U and V come from
    // the left pixel, and each Y from its own.
    let f = quadrants_uyvy(Size::new(2, 2));
    let left = rgb_to_ycbcr(quadrant_colour(0, 0, Size::new(2, 2)));
    let right = rgb_to_ycbcr(quadrant_colour(1, 0, Size::new(2, 2)));
    assert_eq!(&f[0..4], &[left[1], left[0], left[2], right[0]]);
}

#[test]
fn a_ramp_rises_left_to_right() {
    let f = gradient_uyvy(Size::new(256, 1));
    assert_eq!(f.len(), 512);
    let first_y = f[1];
    let last_y = f[f.len() - 1];
    assert!(first_y < last_y, "{first_y} then {last_y}");
    assert_eq!(first_y, 16);
}

#[test]
fn an_empty_raster_is_an_empty_frame() {
    assert!(solid_uyvy(Size::new(0, 0), [1, 2, 3]).is_empty());
    assert!(bars_uyvy(Size::new(4, 0)).is_empty());
}
