use neuralnet::layer::flatten_layer::{FlattenError, FlattenLayer};
use neuralnet::tensor::{ShapeError, Tensor2, Tensor3};

fn feature_maps() -> Vec<f64> {
    vec![
        30.0, 49.0, 36.0, 62.0, 45.5, 83.5, 22.5, 38.5, 34.5, 58.0, 44.5, 76.5, 28.5, 51.5, 35.0,
        61.5, 44.5, 76.5,
    ]
}

#[test]
fn new_should_initialize_layer() {
    let layer: FlattenLayer = FlattenLayer::new();
    assert_eq!(layer.input_shape(), (0, 0, 0));
    assert!(!layer.has_input());
}

#[test]
fn forward_propagation_should_flatten_input() {
    let mut layer: FlattenLayer = FlattenLayer::new();
    let input: Tensor3<f64> = Tensor3::from_shape_vec((3, 3, 2), feature_maps()).unwrap();
    let flatten: Tensor2<f64> = layer.forward_propagation(&input);
    assert_eq!(layer.input_shape(), (3, 3, 2));
    assert_eq!(flatten.shape(), (1, 18));
    assert_eq!(flatten.into_raw_vec(), feature_maps());
}

#[test]
fn backward_propagation_should_reshape_input() {
    let mut layer: FlattenLayer = FlattenLayer::new();
    let input: Tensor3<f64> = Tensor3::from_shape_vec((3, 3, 2), feature_maps()).unwrap();
    layer.forward_propagation(&input);
    let error_input: Tensor2<f64> = Tensor2::from_shape_vec((1, 18), feature_maps()).unwrap();
    let output: Tensor3<f64> = layer.backward_propagation(error_input).unwrap();
    assert_eq!(output.shape(), input.shape());
    assert_eq!(output.into_raw_vec(), input.into_raw_vec());
}

#[test]
fn flatten_round_trip_is_identity() {
    let mut layer = FlattenLayer::new();
    let values: Vec<i64> = (0..24).collect();
    let input = Tensor3::from_shape_vec((2, 3, 4), values.clone()).unwrap();
    let flat = layer.forward_propagation(&input);
    let back = layer.backward_propagation(flat).unwrap();
    assert_eq!(back.shape(), (2, 3, 4));
    assert_eq!(*back.get(1, 2, 3), 23);
    assert_eq!(*back.get(1, 0, 2), 14);
    assert_eq!(back.into_raw_vec(), values);
}

#[test]
fn backward_propagation_before_forward_fails() {
    let layer = FlattenLayer::new();
    let y = Tensor2::from_shape_vec((1, 2), vec![1.0, 2.0]).unwrap();
    assert_eq!(layer.backward_propagation(y).err(), Some(FlattenError::NoInput));
    // a gradient without elements would fit the empty shape, and fails all the same
    let empty: Tensor2<f64> = Tensor2::from_shape_vec((1, 0), vec![]).unwrap();
    assert_eq!(layer.backward_propagation(empty).err(), Some(FlattenError::NoInput));
    assert_eq!(FlattenError::NoInput.message(), "the layer has seen no input");
}

#[test]
fn backward_propagation_after_forward_of_an_empty_input_succeeds() {
    let mut layer = FlattenLayer::new();
    let none: Tensor3<f64> = Tensor3::from_shape_vec((0, 0, 0), vec![]).unwrap();
    let flat = layer.forward_propagation(&none);
    assert!(layer.has_input());
    assert_eq!(flat.shape(), (1, 0));
    let back = layer.backward_propagation(flat).unwrap();
    assert_eq!(back.shape(), (0, 0, 0));
}

#[test]
fn backward_propagation_rejects_wrong_element_count() {
    let mut layer = FlattenLayer::new();
    let input = Tensor3::from_shape_vec((2, 2, 1), vec![1.0, 2.0, 3.0, 4.0]).unwrap();
    layer.forward_propagation(&input);
    let short = Tensor2::from_shape_vec((1, 3), vec![1.0, 2.0, 3.0]).unwrap();
    assert_eq!(
        layer.backward_propagation(short).err(),
        Some(FlattenError::Shape(ShapeError::OutOfBounds))
    );
    let long = Tensor2::from_shape_vec((1, 5), vec![1.0; 5]).unwrap();
    assert_eq!(
        layer.backward_propagation(long).err(),
        Some(FlattenError::Shape(ShapeError::IncompatibleShape))
    );
    assert_eq!(
        FlattenError::Shape(ShapeError::OutOfBounds).message(),
        "the gradient has fewer elements than the input"
    );
    assert_eq!(
        FlattenError::Shape(ShapeError::IncompatibleShape).message(),
        "the gradient has more elements than the input"
    );
    assert_eq!(
        FlattenError::Shape(ShapeError::Overflow).message(),
        "the shape of the input is too large"
    );
}
