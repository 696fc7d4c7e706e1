use lidart::math::{Mat3, Pose, Vec3};

#[test]
fn matrix_entries_are_row_major() {
    let m = Mat3::from_slice(&[1, 2, 3, 4, 5, 6, 7, 8, 9, 10]);
    assert_eq!(m.0, [1, 2, 3, 4, 5, 6, 7, 8, 9]);
    assert_eq!(*m.index((0, 2)), 3);
    assert_eq!(*m.index((2, 0)), 7);
    assert_eq!(*m.index((1, 1)), 5);
}

#[test]
fn transpose_swaps_rows_and_columns() {
    let m = Mat3([1, 2, 3, 4, 5, 6, 7, 8, 9]);
    let t = m.transpose();
    assert_eq!(t.0, [1, 4, 7, 2, 5, 8, 3, 6, 9]);
    assert_eq!(t.transpose().0, m.0);
}

#[test]
fn vector_from_slice_takes_three() {
    let v = Vec3::from_slice(&[0.5f64, -1.0, 2.0, 9.0]);
    assert_eq!(v.0, [0.5, -1.0, 2.0]);
    assert_eq!(*v.index(2), 2.0);
    let p = Pose { rotation: Mat3([0u8; 9]), translation: Vec3([1u8, 2, 3]) };
    assert_eq!(*p.translation.index(1), 2);
}
