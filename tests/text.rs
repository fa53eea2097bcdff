use thermo_transform::text::{estimated_frames, scan_layout, uses_decimal_comma, with_decimal_point, LineScan};

#[test]
fn layout_of_two_frames() {
    let lines = vec![
        LineScan::Text,
        LineScan::Numbers(3),
        LineScan::Numbers(3),
        LineScan::Numbers(3),
        LineScan::Blank,
        LineScan::Text,
        LineScan::Text,
        LineScan::Numbers(3),
        LineScan::Numbers(3),
        LineScan::Numbers(3),
    ];
    let l = scan_layout(&lines);
    assert_eq!((l.frames, l.rows, l.columns), (2, 2, 3));
    assert_eq!(l.data_lines, vec![2, 3, 8, 9]);
}

#[test]
fn layout_of_nothing() {
    let l = scan_layout(&vec![LineScan::Blank, LineScan::Text]);
    assert_eq!((l.frames, l.rows, l.columns), (0, 0, 0));
    assert!(l.data_lines.is_empty());
}

#[test]
fn decimal_comma_detection() {
    assert!(uses_decimal_comma(b"Frame 1\n12,5 13,25"));
    assert!(!uses_decimal_comma(b"Frame 1\n12.5 13.25"));
    assert_eq!(with_decimal_point(b"1,5 2,25"), b"1.5 2.25".to_vec());
}

#[test]
fn frames_estimated_from_file_size() {
    assert_eq!(estimated_frames(10), 0);
    assert_eq!(estimated_frames(20 + 2 * 666350 + 5), 2);
}
