use thermo_transform::knots::{knot_indices, knot_positions, scan_side, Curvature, SampleFlags};
use thermo_transform::wavelet::{
    half_width, model_scale, sample_grid, ScaleCache, WaveletBank, WaveletType,
};

#[test]
fn cache_computes_each_scale_once() {
    let mut c: ScaleCache<Vec<f64>> = ScaleCache::new();
    let mut computed = 0;
    for _ in 0..2 {
        if c.needs(3) {
            computed += 1;
            c.insert(3, vec![1.5, -2.25]);
        }
    }
    assert_eq!(computed, 1);
    let first = c.lookup(3).unwrap().clone();
    let second = c.lookup(3).unwrap().clone();
    assert_eq!(first.iter().map(|x| x.to_bits()).collect::<Vec<_>>(), second.iter().map(|x| x.to_bits()).collect::<Vec<_>>());
    // a racing second computation does not replace the first model
    c.insert(3, vec![9.0]);
    assert_eq!(c.lookup(3).unwrap(), &vec![1.5, -2.25]);
    assert!(c.lookup(2).is_none());
    assert!(c.lookup(100).is_none());
}

#[test]
fn cache_lists_missing_scales() {
    let mut c: ScaleCache<u8> = ScaleCache::new();
    c.insert(1, 10);
    c.insert(4, 40);
    assert_eq!(c.missing_below(6), vec![0, 2, 3, 5]);
    assert_eq!(c.missing_below(0), Vec::<usize>::new());
}

#[test]
fn bank_keeps_kinds_apart() {
    let mut b: WaveletBank<&str> = WaveletBank::new_wb();
    b.insert(WaveletType::Morlet, 0, "morlet");
    b.insert(WaveletType::Poisson_2, 0, "poisson");
    assert_eq!(b.lookup(WaveletType::Morlet, 0), Some(&"morlet"));
    assert_eq!(b.lookup(WaveletType::Poisson_2, 0), Some(&"poisson"));
    assert_eq!(b.lookup(WaveletType::Shannon, 0), None);
    assert_eq!(WaveletType::all().len(), 6);
    assert_eq!(b.get(WaveletType::Morlet).missing_below(2), vec![1]);
}

#[test]
fn sampling_grid_grows_with_scale() {
    assert_eq!(half_width(0), 20);
    assert_eq!(half_width(3), 38);
    assert_eq!(model_scale(0), 1);
    let g = sample_grid(2);
    assert_eq!(g, vec![-2, -1, 0, 1, 2]);
}

fn flags(n: usize, peaks: &[usize], small_from: usize) -> SampleFlags {
    SampleFlags {
        peak: (0..n).map(|i| peaks.contains(&i)).collect(),
        curv: vec![Curvature::Flat; n],
        small: (0..n).map(|i| i >= small_from).collect(),
    }
}

#[test]
fn knots_from_extrema_on_both_sides() {
    let f = flags(7, &[1, 3, 5], 7);
    assert_eq!(scan_side(&f, true), vec![3, 5]);
    assert_eq!(scan_side(&f, false), vec![3, 1]);
    let idx = knot_indices(&f).unwrap();
    assert_eq!(idx, vec![1, 3, 5]);
    assert_eq!(knot_positions(&idx, 7).positions, vec![-2, 0, 2]);
}

#[test]
fn inflection_points_are_knots() {
    let mut f = flags(7, &[3], 7);
    f.curv = vec![
        Curvature::Flat,
        Curvature::Flat,
        Curvature::Concave,
        Curvature::Concave,
        Curvature::Convex,
        Curvature::Flat,
        Curvature::Flat,
    ];
    assert_eq!(scan_side(&f, true), vec![3, 4]);
}

#[test]
fn scan_stops_after_two_small_knots() {
    let f = flags(21, &[10, 11, 12, 13, 14, 15, 16, 17, 18, 19], 14);
    assert_eq!(scan_side(&f, true), vec![10, 11, 12, 13, 14, 15]);
}

#[test]
fn sparse_extrema_get_extra_knots() {
    let f = flags(21, &[10, 12], 21);
    assert_eq!(scan_side(&f, true), vec![10, 12, 14]);
}

#[test]
fn degenerate_samples_give_no_model() {
    let f = flags(7, &[], 7);
    assert_eq!(knot_indices(&f), None);
    let f = flags(7, &[3], 7);
    assert_eq!(knot_indices(&f), None);
}

#[test]
fn cache_lists_missing_scales_in_a_range() {
    let mut c: ScaleCache<u8> = ScaleCache::new();
    c.insert(3, 1);
    assert_eq!(c.missing_in(2, 6), vec![2, 4, 5]);
    assert_eq!(c.missing_in(6, 2), Vec::<usize>::new());
}

#[test]
fn mirrored_samples_give_symmetric_knots() {
    // 11 samples, extrema at 2, 5 and 8, an inflection pair around the centre
    let f = flags(11, &[2, 5, 8], 11);
    let idx = knot_indices(&f).unwrap();
    let pos = knot_positions(&idx, 11).positions;
    assert_eq!(pos, vec![-3, 0, 3]);
    for i in 0..pos.len() {
        assert_eq!(pos[i], -pos[pos.len() - 1 - i]);
    }
}
