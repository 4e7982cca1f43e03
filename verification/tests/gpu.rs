use kestrel::engine::{plan_outputs, preview_stale, target_layout, EngineState};
use kestrel::format::{Scan, VideoFormat};
use kestrel::geom::{FitMode, Size};
use kestrel::gpu::{align_up, check_upload, depad_rows, draw_for, Draw, ScalarUniform, COPY_ALIGN};
use kestrel::show::{OutputId, OutputPlan, Pattern, PlanSource, ScalingFilter};

#[test]
fn hd_uyvy_rows_need_no_padding_but_the_maths_still_holds() {
    assert_eq!(align_up(3840, COPY_ALIGN), 3840);
    assert_eq!(align_up(2560, COPY_ALIGN), 2560);
    // The case the fast path would corrupt: 1024x768 UYVY is 2048 (fine),
    // but 1366 wide is 2732 -> 2816.
    assert_eq!(align_up(2732, COPY_ALIGN), 2816);
    assert_eq!(align_up(1, COPY_ALIGN), 256);
}

// --- further tests ---------------------------------------------------

#[test]
fn zero_needs_no_rounding() {
    assert_eq!(align_up(0, COPY_ALIGN), 0);
    assert_eq!(align_up(7, 4), 8);
}

#[test]
fn a_padded_readback_comes_back_without_shear() {
    // Two rows of three bytes, padded to four.
    let view = [1u8, 2, 3, 0, 4, 5, 6];
    assert_eq!(depad_rows(&view, 3, 4, 2), vec![1, 2, 3, 4, 5, 6]);
    assert_eq!(depad_rows(&[9u8, 8], 2, 2, 1), vec![9, 8]);
    assert!(depad_rows(&[], 3, 4, 0).is_empty());
}

#[test]
fn a_short_frame_is_refused_rather_than_read_past_the_end() {
    assert_eq!(check_upload(64, Size::new(16, 4), 16), Ok(()));
    assert_eq!(
        check_upload(63, Size::new(16, 4), 16),
        Err("short frame: 63 bytes for 16x4 at stride 16, need 64".to_string())
    );
}

#[test]
fn only_a_live_crop_draws_the_input() {
    type P = PlanSource<u8>;
    let crop = P::Crop { roi: None, rect: 0, fit: kestrel::geom::FitMode::Fit };
    assert_eq!(draw_for(&crop, true), Draw::Crop);
    assert_eq!(draw_for(&crop, false), Draw::Fill(0), "a lost input is black, never a frozen frame");
    assert_eq!(draw_for(&P::Pattern(Pattern::Bars), true), Draw::Fill(1));
    assert_eq!(draw_for(&P::Muted, true), Draw::Fill(0));
    assert_eq!(draw_for(&P::NoInput, true), Draw::Fill(0));
    assert_eq!(ScalarUniform::new(5).value, 5);
}

#[test]
fn a_raster_change_rebuilds_and_loses_the_input() {
    let mut e = EngineState::new(Size::new(1920, 1080), VideoFormat::default());
    assert!(!e.input_live());
    assert!(e.accept_upload(3840 * 1080, 3840).is_ok());
    assert!(e.input_live());
    assert!(!e.set_input_size(Size::new(1920, 1080)), "the same raster changes nothing");
    assert!(!e.set_input_size(Size::new(0, 720)), "a zero side is ignored");
    assert!(e.input_live());
    assert!(e.set_input_size(Size::new(1280, 720)));
    assert!(!e.input_live(), "not live until a frame of the new raster arrives");
    assert_eq!(e.generation, 1);
    assert_eq!(e.input_size(), Size::new(1280, 720));
    assert!(e.accept_upload(10, 2560).is_err());
    assert!(!e.input_live());
}

#[test]
fn only_a_new_output_raster_rebuilds_the_targets() {
    let mut e = EngineState::new(Size::new(1920, 1080), VideoFormat::default());
    assert!(!e.set_output_format(VideoFormat::new(1920, 1080, 25, 1, Scan::Interlaced)));
    assert_eq!(e.generation, 0);
    assert_eq!(e.output_format().rate.num, 25);
    assert!(e.set_output_format(VideoFormat::new(1280, 720, 50, 1, Scan::Progressive)));
    assert_eq!(e.generation, 1);
    e.set_scaling(ScalingFilter::Bilinear);
    assert_eq!(e.scaling, ScalingFilter::Bilinear);
}

#[test]
fn targets_follow_the_plan() {
    let mut e = EngineState::new(Size::new(16, 16), VideoFormat::default());
    let plan: Vec<OutputPlan<u8>> = vec![
        OutputPlan { output: OutputId(2), source: PlanSource::Muted },
        OutputPlan { output: OutputId(1), source: PlanSource::NoInput },
    ];
    assert!(e.order_differs(&plan));
    let ids = plan_outputs(&plan);
    assert_eq!(ids, vec![OutputId(2), OutputId(1)]);
    e.set_outputs(&ids);
    assert!(!e.order_differs(&plan));
}

#[test]
fn a_preview_is_rebuilt_when_its_source_or_size_moved() {
    let s = Size::new(160, 90);
    assert!(preview_stale(None, s, 0));
    assert!(!preview_stale(Some((s, 3)), s, 3));
    assert!(preview_stale(Some((s, 2)), s, 3));
    assert!(preview_stale(Some((Size::new(2, 2), 3)), s, 3));
}

#[test]
fn an_odd_output_raster_gets_a_padded_readback() {
    let t = target_layout(Size::new(1366, 768));
    assert_eq!(t.row_bytes, 2732);
    assert_eq!(t.padded_row, 2816);
    assert_eq!(t.staging_len, 2816 * 768);
    assert_eq!(t.frame_len, 2732 * 768);
    let hd = target_layout(Size::new(1920, 1080));
    assert_eq!(hd.row_bytes, hd.padded_row);
}

#[test]
fn every_planned_output_gets_one_frame_in_plan_order() {
    let mut e = EngineState::new(Size::new(16, 16), VideoFormat::default());
    e.set_input_live(true);
    let plan: Vec<OutputPlan<u8>> = vec![
        OutputPlan { output: OutputId(3), source: PlanSource::Crop { roi: None, rect: 7, fit: FitMode::Fit } },
        OutputPlan { output: OutputId(1), source: PlanSource::Pattern(Pattern::Bars) },
        OutputPlan { output: OutputId(2), source: PlanSource::Muted },
    ];
    let steps = e.begin_render(&plan);
    assert!(steps.retarget, "a fresh engine has no targets yet");
    assert_eq!(
        steps.draws,
        vec![(OutputId(3), Draw::Crop), (OutputId(1), Draw::Fill(1)), (OutputId(2), Draw::Fill(0))]
    );
    assert_eq!(steps.sends, vec![OutputId(3), OutputId(1), OutputId(2)]);
    assert_eq!(e.order, vec![OutputId(3), OutputId(1), OutputId(2)]);
    // The same plan again needs no new targets; with the input lost the
    // crop becomes black.
    e.set_input_live(false);
    let again = e.begin_render(&plan);
    assert!(!again.retarget);
    assert_eq!(again.draws[0], (OutputId(3), Draw::Fill(0)));
    assert_eq!(again.sends, vec![OutputId(3), OutputId(1), OutputId(2)]);
}
