use neuralnet::layer::fc_layer::{FCLayer, FCLayerModel};
use neuralnet::tensor::{ShapeError, Tensor2};

fn generate_test_fc_layer() -> FCLayer<f64> {
    let mut layer = FCLayer::from_model(
        FCLayerModel {
            weights: vec![0.0, 1.0, 0.0, 0.5, 1.0, 0.5],
            bias: vec![1.0, 1.0, 0.25],
            shape: (2, 3),
        },
        0.0,
    )
    .unwrap();
    layer
        .remember_input(&Tensor2::from_shape_vec((1, 2), vec![1.0, 0.5]).unwrap())
        .unwrap();
    layer
}

#[test]
fn fc_layer_build_should_initialize_layer() {
    let layer: FCLayer<f64> =
        FCLayer::build(2, 3, 0.0, vec![0.25; 6], vec![-0.25; 3]).unwrap();
    assert_eq!(layer.input().shape(), (1, 2));
    assert_eq!(layer.input().clone().into_raw_vec(), vec![0.0, 0.0]);
    assert_eq!(layer.weights().shape(), (2, 3));
    assert_eq!(layer.bias().shape(), (1, 3));
    assert_eq!(layer.get_shape(), (2, 3));
}

#[test]
fn fc_layer_get_shape_should_return_layer_dim() {
    let layer: FCLayer<f64> = generate_test_fc_layer();
    assert_eq!(layer.get_shape(), (2, 3));
}

#[test]
fn fc_layer_get_name_should_return_struct_name() {
    let layer: FCLayer<f64> = generate_test_fc_layer();
    assert_eq!(layer.get_name(), "FCLayer");
}

#[test]
fn fc_layer_to_model_lists_weights_row_by_row() {
    let layer = generate_test_fc_layer();
    let model = layer.to_model();
    assert_eq!(model.weights, vec![0.0, 1.0, 0.0, 0.5, 1.0, 0.5]);
    assert_eq!(model.bias, vec![1.0, 1.0, 0.25]);
    assert_eq!(model.shape, (2, 3));
}

#[test]
fn fc_layer_save_and_load_round_trip() {
    let target_layer = generate_test_fc_layer();
    let output_layer = FCLayer::from_model(target_layer.to_model(), 0.0).unwrap();
    assert_eq!(target_layer.get_shape(), output_layer.get_shape());
    assert_eq!(target_layer.bias().shape(), output_layer.bias().shape());
    assert_eq!(target_layer.weights().shape(), output_layer.weights().shape());
    let target_weights: Vec<f64> = target_layer.weights().clone().into_raw_vec();
    let output_weights: Vec<f64> = output_layer.weights().clone().into_raw_vec();
    for i in 0..target_weights.len() {
        assert!((target_weights[i] - output_weights[i]).powf(2.0) < 0.00001)
    }
    let target_bias: Vec<f64> = target_layer.bias().clone().into_raw_vec();
    let output_bias: Vec<f64> = output_layer.bias().clone().into_raw_vec();
    for i in 0..target_bias.len() {
        assert!((target_bias[i] - output_bias[i]).powf(2.0) < 0.00001)
    }
    assert_eq!(output_layer.input().clone().into_raw_vec(), vec![0.0, 0.0]);
}

#[test]
fn fc_layer_from_model_checks_weights_before_bias() {
    let short_weights = FCLayerModel { weights: vec![0u8; 5], bias: vec![0u8; 9], shape: (2, 3) };
    assert!(matches!(
        FCLayer::from_model(short_weights, 0),
        Err(ShapeError::OutOfBounds)
    ));
    let long_weights = FCLayerModel { weights: vec![0u8; 7], bias: vec![0u8; 1], shape: (2, 3) };
    assert!(matches!(
        FCLayer::from_model(long_weights, 0),
        Err(ShapeError::IncompatibleShape)
    ));
    let short_bias = FCLayerModel { weights: vec![0u8; 6], bias: vec![0u8; 2], shape: (2, 3) };
    assert!(matches!(
        FCLayer::from_model(short_bias, 0),
        Err(ShapeError::OutOfBounds)
    ));
    let long_bias = FCLayerModel { weights: vec![0u8; 6], bias: vec![0u8; 4], shape: (2, 3) };
    assert!(matches!(
        FCLayer::from_model(long_bias, 0),
        Err(ShapeError::IncompatibleShape)
    ));
}

#[test]
fn fc_layer_remembers_a_conforming_input_only() {
    let mut layer = generate_test_fc_layer();
    let x = Tensor2::from_shape_vec((1, 2), vec![1.0, 1.0]).unwrap();
    assert!(layer.remember_input(&x).is_ok());
    assert_eq!(layer.input().clone().into_raw_vec(), vec![1.0, 1.0]);
    let wide = Tensor2::from_shape_vec((1, 3), vec![1.0, 1.0, 1.0]).unwrap();
    assert!(matches!(
        layer.remember_input(&wide),
        Err(ShapeError::IncompatibleShape)
    ));
    let tall = Tensor2::from_shape_vec((2, 2), vec![1.0; 4]).unwrap();
    assert!(matches!(
        layer.remember_input(&tall),
        Err(ShapeError::IncompatibleShape)
    ));
    assert_eq!(layer.input().clone().into_raw_vec(), vec![1.0, 1.0]);
}

#[test]
fn fc_layer_update_keeps_the_shapes() {
    let mut layer = generate_test_fc_layer();
    let weights = Tensor2::from_shape_vec((2, 3), vec![-0.5, 1.0, 0.0, 0.25, 1.0, 0.5]).unwrap();
    let bias = Tensor2::from_shape_vec((1, 3), vec![0.5, 1.0, 0.25]).unwrap();
    assert!(layer.update(weights, bias).is_ok());
    assert_eq!(
        layer.weights().clone().into_raw_vec(),
        vec![-0.5, 1.0, 0.0, 0.25, 1.0, 0.5]
    );
    assert_eq!(layer.bias().clone().into_raw_vec(), vec![0.5, 1.0, 0.25]);
    assert_eq!(layer.input().clone().into_raw_vec(), vec![1.0, 0.5]);
    let transposed = Tensor2::from_shape_vec((3, 2), vec![0.0; 6]).unwrap();
    let bias = Tensor2::from_shape_vec((1, 3), vec![0.0; 3]).unwrap();
    assert!(matches!(
        layer.update(transposed, bias),
        Err(ShapeError::IncompatibleShape)
    ));
    let weights = Tensor2::from_shape_vec((2, 3), vec![0.0; 6]).unwrap();
    let column = Tensor2::from_shape_vec((3, 1), vec![0.0; 3]).unwrap();
    assert!(matches!(
        layer.update(weights, column),
        Err(ShapeError::IncompatibleShape)
    ));
    assert_eq!(layer.bias().clone().into_raw_vec(), vec![0.5, 1.0, 0.25]);
}
