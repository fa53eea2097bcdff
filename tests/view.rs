use thermo_transform::geometry::TTAxis;
use thermo_transform::view::{
    normalizes_rows, quantile_index, roi_bounds, roi_weight, RangedVal, TTViewParams, TTViewState, ViewKind,
    WtResultMode,
};
use thermo_transform::view::{GlobalSettings, SelectMode};
use thermo_transform::wavelet::WaveletType;

#[test]
fn ranged_value_is_held_in_range() {
    let mut r = RangedVal::default();
    assert_eq!(r, RangedVal { val: 0, min: 0, max: 100 });
    r.set(250);
    assert_eq!(r.val, 100);
    r.min = 10;
    r.set(3);
    assert_eq!(r.val, 10);
    r.set(42);
    assert_eq!(r.val, 42);
}

#[test]
fn switching_view_kind_keeps_the_frame_count() {
    let mut v = TTViewParams::TimeView { time: RangedVal { val: 5, min: 0, max: 99 } };
    v.update(ViewKind::TransformView);
    assert_eq!(
        v,
        TTViewParams::TransformView {
            time: RangedVal { val: 0, min: 0, max: 99 },
            scale: RangedVal { val: 1, min: 1, max: 100 },
            wavelet: WaveletType::Morlet,
            mode: WtResultMode::Phase,
        }
    );
    assert_eq!(v.kind(), ViewKind::TransformView);
    v.update(ViewKind::TimeView);
    assert_eq!(v, TTViewParams::TimeView { time: RangedVal { val: 0, min: 0, max: 99 } });
}

#[test]
fn view_state_claim_and_publish() {
    let mut s = TTViewState::Changed;
    assert!(s.try_claim());
    assert_eq!(s, TTViewState::Processing);
    assert!(!s.try_claim());
    s.publish();
    assert_eq!(s, TTViewState::Valid);
    // the consumer changed the parameters while the image was made
    let mut s = TTViewState::Changed;
    s.publish();
    assert_eq!(s, TTViewState::Changed);
    let mut s = TTViewState::Invalid;
    assert!(!s.try_claim());
    assert_eq!(s, TTViewState::Invalid);
}

#[test]
fn histogram_indices() {
    assert_eq!(quantile_index(33, 32), 32);
    assert_eq!(quantile_index(100, 16), 50);
    assert_eq!(quantile_index(10, 1), 0);
    assert_eq!(quantile_index(17, 1), 1);
    assert_eq!(quantile_index(1, 32), 0);
    assert_eq!(roi_weight(30, 70), 6);
    assert_eq!(roi_weight(100, 0), 0);
    assert_eq!(roi_weight(3, 9), 7);
}

#[test]
fn rows_normalised_for_mixed_views() {
    assert!(normalizes_rows([TTAxis::X, TTAxis::T]));
    assert!(normalizes_rows([TTAxis::T, TTAxis::Y]));
    assert!(!normalizes_rows([TTAxis::X, TTAxis::Y]));
    assert!(!normalizes_rows([TTAxis::T, TTAxis::S]));
}

#[test]
fn selection_moves_cross_section_or_region() {
    let mut g = GlobalSettings::new();
    g.fit_to_input(16, 8, 32);
    g.select([TTAxis::X, TTAxis::Y], 40, 3);
    assert_eq!(g.crossection, [14, 3, 0, 0, 0]);
    assert!(g.changed(false));
    g.select_mode = SelectMode::RoiMax;
    // the region was 1..13 by 0..6; a maximum corner left of the minimum swaps them
    g.select([TTAxis::X, TTAxis::Y], 0, 5);
    assert_eq!((g.roi_min[0], g.roi_max[0]), (0, 1));
    assert_eq!((g.roi_min[1], g.roi_max[1]), (0, 5));
    g.select_mode = SelectMode::RoiMin;
    g.select([TTAxis::T, TTAxis::S], 20, 2);
    assert_eq!((g.roi_min[2], g.roi_max[2]), (20, 27));
    assert_eq!((g.roi_min[3], g.roi_max[3]), (2, 27));
}

#[test]
fn region_bounds_inside_the_image() {
    let mut g = GlobalSettings::new();
    g.fit_to_input(16, 8, 32);
    assert_eq!(roi_bounds(&g, [TTAxis::X, TTAxis::Y], 16, 8), (1, 13, 0, 6));
    assert_eq!(roi_bounds(&g, [TTAxis::X, TTAxis::T], 4, 2), (1, 3, 1, 1));
}
