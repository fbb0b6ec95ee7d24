use neuralnet::tensor::{ShapeError, Tensor2, Tensor3};

#[test]
fn from_shape_vec_lays_shape_over_data() {
    let t = Tensor2::from_shape_vec((2, 3), vec![1, 2, 3, 4, 5, 6]).unwrap();
    assert_eq!(t.shape(), (2, 3));
    assert_eq!(t.len(), 6);
    assert_eq!(*t.get(0, 0), 1);
    assert_eq!(*t.get(0, 2), 3);
    assert_eq!(*t.get(1, 0), 4);
    assert_eq!(*t.get(1, 2), 6);
    assert_eq!(t.into_raw_vec(), vec![1, 2, 3, 4, 5, 6]);
}

#[test]
fn from_shape_vec_tells_errors_apart() {
    assert!(matches!(
        Tensor2::from_shape_vec((2, 3), vec![0; 5]),
        Err(ShapeError::OutOfBounds)
    ));
    assert!(matches!(
        Tensor2::from_shape_vec((2, 3), vec![0; 7]),
        Err(ShapeError::IncompatibleShape)
    ));
    assert!(matches!(
        Tensor2::from_shape_vec((usize::MAX, 2), vec![0; 1]),
        Err(ShapeError::Overflow)
    ));
    assert!(matches!(
        Tensor2::from_shape_vec((usize::MAX, 0), Vec::<u8>::new()),
        Err(ShapeError::Overflow)
    ));
    assert!(matches!(
        Tensor3::from_shape_vec((2, 2, 2), vec![0; 7]),
        Err(ShapeError::OutOfBounds)
    ));
    assert!(matches!(
        Tensor3::from_shape_vec((2, 2, 2), vec![0; 9]),
        Err(ShapeError::IncompatibleShape)
    ));
    assert!(matches!(
        Tensor3::from_shape_vec((1 << 31, 1 << 31, 4), vec![0; 1]),
        Err(ShapeError::Overflow)
    ));
    assert!(Tensor3::from_shape_vec((0, 5, 7), Vec::<u8>::new()).is_ok());
}

#[test]
fn rank_three_elements_are_row_major() {
    let values: Vec<usize> = (0..24).collect();
    let t = Tensor3::from_shape_vec((2, 3, 4), values).unwrap();
    for i in 0..2 {
        for j in 0..3 {
            for k in 0..4 {
                assert_eq!(*t.get(i, j, k), (i * 3 + j) * 4 + k);
            }
        }
    }
}

#[test]
fn from_shape_fn_visits_every_place() {
    let t = Tensor3::from_shape_fn((2, 3, 4), |i, j, k| 100 * i + 10 * j + k);
    assert_eq!(t.shape(), (2, 3, 4));
    assert_eq!(*t.get(1, 2, 3), 123);
    assert_eq!(*t.get(0, 1, 0), 10);
    let raw = t.into_raw_vec();
    assert_eq!(raw.len(), 24);
    assert_eq!(raw[0], 0);
    assert_eq!(raw[5], 11);
    assert_eq!(raw[23], 123);
    let m = Tensor2::from_shape_fn((3, 2), |i, j| 10 * i + j);
    assert_eq!(m.into_raw_vec(), vec![0, 1, 10, 11, 20, 21]);
    let none = Tensor2::from_shape_fn((3, 0), |i, j| i + j);
    assert_eq!(none.shape(), (3, 0));
    assert_eq!(none.len(), 0);
}

#[test]
fn window_copies_a_block() {
    let m = Tensor2::from_shape_fn((4, 5), |i, j| 10 * i + j);
    let w = m.window(1, 2, 2, 3);
    assert_eq!(w.shape(), (2, 3));
    assert_eq!(w.into_raw_vec(), vec![12, 13, 14, 22, 23, 24]);
    let t = Tensor3::from_shape_fn((3, 3, 2), |i, j, k| 100 * i + 10 * j + k);
    let w = t.window(1, 1, 2, 2);
    assert_eq!(w.shape(), (2, 2, 2));
    assert_eq!(w.into_raw_vec(), vec![110, 111, 120, 121, 210, 211, 220, 221]);
}

#[test]
fn select_rows_follows_the_order() {
    let m = Tensor2::from_shape_fn((3, 2), |i, j| 10 * i + j);
    let s = m.select_rows(&vec![2, 0, 2, 1]);
    assert_eq!(s.shape(), (4, 2));
    assert_eq!(s.into_raw_vec(), vec![20, 21, 0, 1, 20, 21, 10, 11]);
}

#[test]
fn filled_and_clone_and_into_row() {
    let z = Tensor2::filled((2, 2), 0.5);
    assert_eq!(z.clone().into_raw_vec(), vec![0.5; 4]);
    assert_eq!(z.shape(), (2, 2));
    let t = Tensor3::filled((1, 2, 3), 7u8);
    let copy = t.clone();
    assert_eq!(copy.shape(), (1, 2, 3));
    let row = t.into_row();
    assert_eq!(row.shape(), (1, 6));
    assert_eq!(row.into_raw_vec(), vec![7u8; 6]);
    let e: Tensor2<u8> = Tensor2::empty();
    assert_eq!(e.shape(), (0, 0));
    assert_eq!(e.len(), 0);
}
