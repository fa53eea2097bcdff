use thermo_transform::cube::Cube;
use thermo_transform::spectral::{find_next_pows_2_3, is_smooth23, order_turn, spectrum_bins, QuarterTurn, LARGEST_SMOOTH23};

fn turn(q: QuarterTurn, z: (i64, i64)) -> (i64, i64) {
    let (a, b) = if q.swap { (z.1, z.0) } else { z };
    (if q.negate_re { -a } else { a }, if q.negate_im { -b } else { b })
}

#[test]
fn bins_of_a_real_signal() {
    assert_eq!(spectrum_bins(64), 33);
    assert_eq!(spectrum_bins(7), 4);
}

#[test]
fn integration_orders_rotate_by_minus_i() {
    // (3 + 2i)(-i) = 2 - 3i
    assert_eq!(turn(order_turn(1), (3, 2)), (2, -3));
    assert_eq!(turn(order_turn(2), (3, 2)), (-3, -2));
    assert_eq!(turn(order_turn(3), (3, 2)), (-2, 3));
    assert_eq!(turn(order_turn(4), (3, 2)), (3, 2));
    for n in 0..6 {
        for m in 0..6 {
            assert_eq!(turn(order_turn(n), turn(order_turn(m), (5, -7))), turn(order_turn(n + m), (5, -7)));
        }
    }
}

#[test]
fn fourier_view_of_a_sinusoid() {
    // a 2x2 cube whose every lane is sin(2πk/64), k = 0..63
    let n = 64usize;
    let lane: Vec<f64> = (0..n).map(|k| (2.0 * std::f64::consts::PI * k as f64 / n as f64).sin()).collect();
    let bins = spectrum_bins(n);
    let mut spectrum: Vec<(f64, f64)> = Vec::new();
    for f in 0..bins {
        let (mut re, mut im) = (0.0, 0.0);
        for (k, v) in lane.iter().enumerate() {
            let a = -2.0 * std::f64::consts::PI * (f * k) as f64 / n as f64;
            re += v * a.cos();
            im += v * a.sin();
        }
        for _ in 0..4 {
            spectrum.push((re, im));
        }
    }
    let c = Cube::from_frames(&spectrum, bins, 2, 2, 0, (0.0, 0.0)).unwrap();
    for f in 0..bins {
        let g = c.plane(0, 1, f);
        let (re, im) = g.get(1, 0);
        let mag = re.hypot(im);
        if f == 1 {
            assert!((mag - 32.0).abs() < 1e-6);
        } else {
            assert!(mag < 1e-6);
        }
    }
}

#[test]
fn padding_lengths_have_factors_two_and_three_only() {
    use_next(0, 1);
    use_next(1, 1);
    use_next(5, 6);
    use_next(7, 8);
    use_next(13, 16);
    use_next(17, 18);
    use_next(25, 27);
    use_next(97, 108);
    use_next(1000, 1024);
    use_next(1025, 1152);
    assert!(is_smooth23(1152));
    assert!(!is_smooth23(1000));
    assert!(!is_smooth23(0));
}

fn use_next(val: u64, expected: u64) {
    assert_eq!(find_next_pows_2_3(val), expected);
}

#[test]
fn padding_reaches_the_largest_smooth_length() {
    use_next(LARGEST_SMOOTH23, LARGEST_SMOOTH23);
    use_next(LARGEST_SMOOTH23 - 1, LARGEST_SMOOTH23);
    use_next(1 << 62, 1 << 62);
    use_next((1 << 62) + 1, 4674604471815241728);
    use_next(0x8000_0000_0000_0001, 9349208943630483456);
}
