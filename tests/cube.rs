use thermo_transform::cube::{cube_axis, Cube, ShapeError};
use thermo_transform::geometry::TTAxis;

fn values() -> Vec<i32> {
    (0..12).collect()
}

#[test]
fn frames_become_time_lanes() {
    let c = Cube::from_frames(&values(), 2, 2, 3, 0, -1).unwrap();
    assert_eq!((c.width, c.height, c.frames), (3, 2, 2));
    assert_eq!(c.get(2, 1, 1), 11);
    assert_eq!(c.get(0, 0, 0), 0);
    assert_eq!(c.lane(0, 1), &vec![3, 9]);
}

#[test]
fn time_axis_is_padded() {
    let c = Cube::from_frames(&values(), 2, 2, 3, 4, -1).unwrap();
    assert_eq!(c.frames, 4);
    assert_eq!(c.lane(0, 1), &vec![3, 9, -1, -1]);
}

#[test]
fn shape_errors() {
    assert_eq!(Cube::from_frames(&values()[..11].to_vec(), 2, 2, 3, 0, 0).err(), Some(ShapeError::CountMismatch));
    assert_eq!(Cube::from_frames(&values(), 1, 4, 3, 0, 0).err(), Some(ShapeError::TooSmall));
    assert_eq!(Cube::from_frames(&Vec::<i32>::new(), 0, 0, 0, 0, 0).err(), Some(ShapeError::TooSmall));
    assert_eq!(Cube::from_frames(&values(), usize::MAX, 2, 3, 0, 0).err(), Some(ShapeError::CountMismatch));
}

#[test]
fn planes_windows_and_transposes() {
    let c = Cube::from_frames(&values(), 2, 2, 3, 0, -1).unwrap();
    // x along rows, time along columns, at y = 1
    let p = c.plane(0, 2, 1);
    assert_eq!(p.cells, vec![vec![3, 9], vec![4, 10], vec![5, 11]]);
    // y along rows, x along columns, at t = 0
    let q = c.plane(1, 0, 0);
    assert_eq!(q.cells, vec![vec![0, 1, 2], vec![3, 4, 5]]);
    let w = p.window(1, 2, 1, 1);
    assert_eq!(w.cells, vec![vec![10], vec![11]]);
    let t = q.transposed();
    assert_eq!(t.cells, vec![vec![0, 3], vec![1, 4], vec![2, 5]]);
    assert_eq!(t.get(2, 1), 5);
}

#[test]
fn cube_axes_of_result_axes() {
    assert_eq!(cube_axis(TTAxis::X), Some(0));
    assert_eq!(cube_axis(TTAxis::F), Some(2));
    assert_eq!(cube_axis(TTAxis::T), Some(2));
    assert_eq!(cube_axis(TTAxis::S), None);
}

#[test]
fn planes_by_result_axes() {
    let c = Cube::from_frames(&values(), 2, 2, 3, 0, -1).unwrap();
    let p = c.plane_along([TTAxis::X, TTAxis::T], 1).unwrap();
    assert_eq!(p.cells, vec![vec![3, 9], vec![4, 10], vec![5, 11]]);
    assert!(c.plane_along([TTAxis::T, TTAxis::F], 0).is_none());
    assert!(c.plane_along([TTAxis::X, TTAxis::S], 0).is_none());
    assert!(c.plane_along([TTAxis::X, TTAxis::Y], 2).is_none());
}

#[test]
fn storage_order_round_trip() {
    let c = Cube::from_frames(&values(), 2, 2, 3, 0, -1).unwrap();
    let flat = c.to_storage();
    // lane by lane: x slowest, time fastest
    assert_eq!(flat, vec![0, 6, 3, 9, 1, 7, 4, 10, 2, 8, 5, 11]);
    let back = Cube::from_storage(&flat, [3, 2, 2]).unwrap();
    assert_eq!(back.lanes, c.lanes);
    assert_eq!(Cube::from_storage(&flat, [3, 2, 3]).err(), Some(ShapeError::CountMismatch));
    assert_eq!(Cube::from_storage(&flat, [12, 1, 1]).err(), Some(ShapeError::TooSmall));
}
