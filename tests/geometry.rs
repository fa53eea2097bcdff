use thermo_transform::geometry::{ComplexResultMode, TTAxis, ViewModeDomain};
use thermo_transform::slice::plan_slice;
use thermo_transform::view::{GlobalSettings, ViewMode};
use thermo_transform::wavelet::WaveletType;

#[test]
fn axis_labels_and_order() {
    assert_eq!(TTAxis::T.index(), 2);
    assert_eq!(TTAxis::F.index(), 4);
    assert_eq!(TTAxis::S.label_char(), 's');
    assert_eq!(TTAxis::X.label_char(), 'X');
    assert!(TTAxis::X.precedes(TTAxis::Y));
    assert!(!TTAxis::T.precedes(TTAxis::Y));
}

#[test]
fn mode_table() {
    assert_eq!(ViewModeDomain::TimeView.mode_count(), 3);
    assert_eq!(ViewModeDomain::WaveletView.mode_count(), 6);
    assert_eq!(ViewModeDomain::FourierView.view_axes(1), [TTAxis::X, TTAxis::F]);
    assert_eq!(ViewModeDomain::FastWaveletView.view_axes(5), [TTAxis::T, TTAxis::S]);
    assert_eq!(ViewModeDomain::FastWaveletView.settings_axes(4), vec![TTAxis::T, TTAxis::X]);
    assert_eq!(ViewModeDomain::TimeView.settings_axes(2), vec![TTAxis::X]);
}

#[test]
fn view_and_held_axes_partition_the_domain() {
    for d in [
        ViewModeDomain::TimeView,
        ViewModeDomain::FourierView,
        ViewModeDomain::FastWaveletView,
        ViewModeDomain::WaveletView,
    ] {
        for c in 0..d.mode_count() {
            let [a, b] = d.view_axes(c);
            let held = d.settings_axes(c);
            assert_ne!(a, b);
            assert!(!held.contains(&a) && !held.contains(&b));
        }
    }
}

#[test]
fn view_mode_cycles_its_axis_pairs() {
    let mut v = ViewMode::new(ViewModeDomain::FastWaveletView, WaveletType::Morlet, ComplexResultMode::Phase);
    assert_eq!(v.get_view_axes(), [TTAxis::X, TTAxis::Y]);
    assert_eq!(v.get_settings_axes(), vec![TTAxis::T, TTAxis::S]);
    for _ in 0..5 {
        v.next_mode();
    }
    assert_eq!(v.get_view_axes(), [TTAxis::T, TTAxis::S]);
    v.next_mode();
    assert_eq!(v.mode_counter, 0);
    for _ in 0..4 {
        v.next_mode();
    }
    v.set_domain(ViewModeDomain::TimeView);
    assert_eq!(v.mode_counter, 1);
    assert_eq!(v.get_view_axes(), [TTAxis::X, TTAxis::T]);
}

#[test]
fn settings_fit_loaded_data() {
    let mut g = GlobalSettings::new();
    assert!(!g.changed(true));
    assert!(g.changed(false));
    g.fit_to_input(384, 288, 100);
    assert_eq!(g.full_size, [383, 287, 99, 99, 50]);
    assert_eq!(g.roi_min, [47, 35, 12, 12, 6]);
    assert_eq!(g.roi_max, [335, 251, 86, 86, 43]);
    assert_eq!(g.crossection, [0, 0, 0, 0, 0]);
    assert_eq!(g.get_roi(TTAxis::Y), (35, 251));
}

#[test]
fn slice_plan_over_x_and_time() {
    let g = GlobalSettings::new();
    let p = plan_slice([TTAxis::X, TTAxis::T], [1, 0, 0, 2, 0], &g, [4, 3, 10], 10).unwrap();
    assert_eq!(p.starts, [0, 0, 0, 2]);
    assert_eq!(p.lens, [4, 1, 10, 1]);
    assert_eq!(p.rows(), 4);
    assert_eq!(p.cols(), 10);
    assert_eq!(p.cell(2, 5), [2, 0, 5, 2]);
    assert_eq!(p.scale_range(), (2, 3));
}

#[test]
fn slice_plan_in_region_of_interest() {
    let mut g = GlobalSettings::new();
    g.fit_to_input(16, 16, 32);
    g.roi_zoom = true;
    let p = plan_slice([TTAxis::T, TTAxis::S], [3, 4, 0, 0, 0], &g, [16, 16, 32], 32).unwrap();
    assert_eq!(p.starts, [3, 4, 3, 3]);
    assert_eq!(p.lens, [1, 1, 24, 24]);
    assert_eq!(p.cell(0, 0), [3, 4, 3, 3]);
    assert_eq!(p.cell(23, 1), [3, 4, 26, 4]);
}

#[test]
fn slice_plan_refuses_impossible_slices() {
    let g = GlobalSettings::new();
    assert!(plan_slice([TTAxis::X, TTAxis::X], [0; 5], &g, [4, 4, 4], 4).is_none());
    assert!(plan_slice([TTAxis::X, TTAxis::F], [0; 5], &g, [4, 4, 4], 4).is_none());
    // held y outside the image
    assert!(plan_slice([TTAxis::X, TTAxis::T], [0, 9, 0, 0, 0], &g, [4, 4, 4], 4).is_none());
    // no scales at all
    assert!(plan_slice([TTAxis::T, TTAxis::S], [0; 5], &g, [4, 4, 4], 0).is_none());
}

#[test]
fn position_controls() {
    let mut v = ViewMode::new(ViewModeDomain::FastWaveletView, WaveletType::Morlet, ComplexResultMode::Phase);
    let full = [383, 287, 99, 99, 50];
    let r = v.position_control(TTAxis::S, full);
    assert_eq!((r.val, r.min, r.max), (1, 1, 100));
    v.set_position(TTAxis::S, 7);
    assert_eq!(v.position[3], 6);
    v.set_position(TTAxis::T, 7);
    assert_eq!(v.position[2], 7);
    let r = v.position_control(TTAxis::T, full);
    assert_eq!((r.val, r.min, r.max), (7, 0, 99));
    // held axes of the first wavelet mode are time and scale
    assert!(v.follow_crossection([0, 0, 7, 6, 0]) == false);
    assert!(v.follow_crossection([5, 5, 8, 6, 0]));
    assert_eq!(v.position, [5, 5, 8, 6, 0]);
    assert!(!v.follow_crossection([9, 9, 8, 6, 0]));
}
