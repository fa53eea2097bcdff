use thermo_transform::cwt::{boundary_taps, direct_taps, extend_index, SampleRef, SplineKnots};

fn sample(lane: &[f64], r: SampleRef) -> f64 {
    match r {
        SampleRef::Direct(i) => lane[i],
        SampleRef::Reflected { edge, mirror } => 2.0 * lane[edge] - lane[mirror],
        SampleRef::Outside => 0.0,
    }
}

#[test]
fn extension_inside_and_beyond_both_ends() {
    assert_eq!(extend_index(3, 10), SampleRef::Direct(3));
    assert_eq!(extend_index(-2, 10), SampleRef::Reflected { edge: 0, mirror: 2 });
    assert_eq!(extend_index(11, 10), SampleRef::Reflected { edge: 9, mirror: 7 });
    assert_eq!(extend_index(-10, 10), SampleRef::Outside);
    assert_eq!(extend_index(19, 10), SampleRef::Outside);
    assert_eq!(extend_index(18, 10), SampleRef::Reflected { edge: 9, mirror: 0 });
}

#[test]
fn reflection_is_symmetric_about_both_ends() {
    // an antiderivative lane of a signal symmetric about its middle
    let lane: Vec<f64> = (0..9).map(|i| ((i as f64) - 4.0).powi(3)).collect();
    let before = sample(&lane, extend_index(-1, 9));
    let after = sample(&lane, extend_index(9, 9));
    assert!((before - (2.0 * lane[0] - lane[1])).abs() < 1e-12);
    assert!((after - (2.0 * lane[8] - lane[7])).abs() < 1e-12);
    // odd symmetry of the lane carries over to the extended samples
    assert!((before + after).abs() < 1e-12);
}

#[test]
fn boundary_taps_follow_the_knots() {
    let knots = SplineKnots { positions: vec![-3, -1, 0, 2, 4] };
    let taps = boundary_taps(&knots, 1, 6);
    assert_eq!(taps.start, SampleRef::Reflected { edge: 0, mirror: 2 });
    assert_eq!(taps.end, SampleRef::Direct(5));
    assert_eq!(
        taps.knots,
        vec![
            SampleRef::Reflected { edge: 0, mirror: 2 },
            SampleRef::Direct(0),
            SampleRef::Direct(1),
            SampleRef::Direct(3),
            SampleRef::Direct(5),
        ]
    );
}

#[test]
fn boundary_taps_do_not_grow_with_support() {
    let narrow = SplineKnots { positions: vec![-2, 0, 2] };
    let wide = SplineKnots { positions: vec![-200, 0, 200] };
    assert_eq!(boundary_taps(&narrow, 5, 1000).knots.len(), boundary_taps(&wide, 5, 1000).knots.len());
}

#[test]
fn direct_taps_centre_the_wavelet() {
    let taps = direct_taps(5, 0, 4);
    assert_eq!(
        taps,
        vec![
            SampleRef::Reflected { edge: 0, mirror: 2 },
            SampleRef::Reflected { edge: 0, mirror: 1 },
            SampleRef::Direct(0),
            SampleRef::Direct(1),
            SampleRef::Direct(2),
        ]
    );
}

#[test]
fn edge_and_inner_evaluations_agree_for_a_symmetric_signal() {
    // a constant signal has a linear antiderivative; reflected extension
    // continues it, so a symmetric filter sees the same input everywhere
    let lane: Vec<f64> = (0..11).map(|i| i as f64).collect();
    let knots = SplineKnots { positions: vec![-2, -1, 0, 1, 2] };
    let eval = |t: isize| -> f64 {
        let taps = boundary_taps(&knots, t, lane.len());
        let w = [-1.0, 0.0, 0.0, 0.0, 1.0];
        taps.knots.iter().zip(w.iter()).map(|(r, w)| sample(&lane, *r) * w).sum()
    };
    let inner = eval(5);
    assert!((inner - 4.0).abs() < 1e-12);
    assert!((eval(0).abs() - inner.abs()).abs() < 1e-12);
    assert!((eval(10).abs() - inner.abs()).abs() < 1e-12);
}
