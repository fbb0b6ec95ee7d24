use neuralnet::layer::conv_layer::ConvLayer;
use neuralnet::tensor::{ShapeError, Tensor2, Tensor3};

fn generate_test_conv_layer() -> ConvLayer<f64> {
    ConvLayer::build(2, 2, vec![1.0, 0.5, 1.5, 2.5, 0.5, 3.5, 4.0, 1.5]).unwrap()
}

fn image() -> Tensor2<f64> {
    Tensor2::from_shape_vec(
        (4, 4),
        vec![
            6.0, 6.0, 7.0, 11.0, 4.0, 6.0, 7.0, 9.0, 2.0, 5.0, 7.0, 9.0, 6.0, 6.0, 7.0, 9.0,
        ],
    )
    .unwrap()
}

/// For each patch, the sum of its products with each kernel.
fn responses(layer: &mut ConvLayer<f64>, x: &Tensor2<f64>) -> Vec<f64> {
    let mut sums = vec![];
    for (patch, _, _) in layer.image_to_patches(x) {
        for n in 0..layer.kernel_num() {
            let mut sum = 0.0;
            for i in 0..layer.kernel_size() {
                for j in 0..layer.kernel_size() {
                    sum += *patch.get(i, j) * *layer.kernels().get(n, i, j);
                }
            }
            sums.push(sum);
        }
    }
    sums
}

#[test]
fn conv_layer_build_should_initialize_layer() {
    let layer: ConvLayer<f64> = ConvLayer::build(2, 2, vec![0.125; 8]).unwrap();
    assert!(layer.input().is_none());
    assert_eq!(layer.kernel_size(), 2);
    assert_eq!(layer.kernel_num(), 2);
    assert_eq!(layer.kernels().shape(), (2, 2, 2));
}

#[test]
fn conv_layer_image_to_patches_should_return_vec_of_pattern() {
    let mut layer: ConvLayer<f64> = generate_test_conv_layer();
    let x = image();
    let output = layer.image_to_patches(&x);
    let target: Vec<(Vec<f64>, usize, usize)> = vec![
        (vec![6.0, 6.0, 4.0, 6.0], 0, 0),
        (vec![6.0, 7.0, 6.0, 7.0], 0, 1),
        (vec![7.0, 11.0, 7.0, 9.0], 0, 2),
        (vec![4.0, 6.0, 2.0, 5.0], 1, 0),
        (vec![6.0, 7.0, 5.0, 7.0], 1, 1),
        (vec![7.0, 9.0, 7.0, 9.0], 1, 2),
        (vec![2.0, 5.0, 6.0, 6.0], 2, 0),
        (vec![5.0, 7.0, 6.0, 7.0], 2, 1),
        (vec![7.0, 9.0, 7.0, 9.0], 2, 2),
    ];
    assert_eq!(output.len(), target.len());
    for i in 0..target.len() {
        assert_eq!(output[i].0.shape(), (2, 2));
        assert_eq!(output[i].0.clone().into_raw_vec(), target[i].0);
        assert_eq!(output[i].1, target[i].1);
        assert_eq!(output[i].2, target[i].2);
    }
    assert_eq!(layer.input().unwrap().clone().into_raw_vec(), x.into_raw_vec());
}

#[test]
fn conv_layer_forward_propagation_apply_kernel() {
    let mut layer: ConvLayer<f64> = generate_test_conv_layer();
    let x = image();
    let sums = responses(&mut layer, &x);
    let output: Tensor3<f64> = layer.forward_propagation(&x, sums).unwrap();
    assert_eq!(output.shape(), (3, 3, 2));
    assert_eq!(*output.get(0, 0, 0), 30.0);
    assert_eq!(*output.get(0, 0, 1), 49.0);
    assert_eq!(
        output.into_raw_vec(),
        vec![
            30.0, 49.0, 36.0, 62.0, 45.5, 83.5, 22.5, 38.5, 34.5, 58.0, 44.5, 76.5, 28.5, 51.5,
            35.0, 61.5, 44.5, 76.5,
        ]
    );
}

#[test]
fn conv_layer_backward_propagation_should_correct_kernel() {
    let mut layer: ConvLayer<f64> = generate_test_conv_layer();
    let x = image();
    let sums = responses(&mut layer, &x);
    layer.forward_propagation(&x, sums).unwrap();
    let error: Tensor3<f64> = Tensor3::from_shape_vec(
        (3, 3, 2),
        vec![
            0.1, 0.2, 0.3, 0.4, 0.9, 1.0, 0.5, 0.6, 0.7, 0.8, 1.1, 1.2, 1.5, 1.6, 1.7, 1.8, 1.9,
            2.0,
        ],
    )
    .unwrap();
    let target: Vec<f64> = vec![47.4, 66.9, 53.2, 66.1, 52.4, 73.6, 58.2, 72.6];
    // the gradient of each kernel: the patches weighted by the error at their place
    let remembered = layer.input().unwrap().clone();
    let mut kernel_error = vec![0.0; 8];
    for (patch, h, w) in layer.image_to_patches(&remembered) {
        for k in 0..2 {
            for i in 0..2 {
                for j in 0..2 {
                    kernel_error[(k * 2 + i) * 2 + j] += *patch.get(i, j) * *error.get(h, w, k);
                }
            }
        }
    }
    let kernels: Vec<f64> = layer
        .kernels()
        .clone()
        .into_raw_vec()
        .iter()
        .zip(kernel_error.iter())
        .map(|(k, e)| k - 0.1 * e)
        .collect();
    layer
        .update_kernels(Tensor3::from_shape_vec((2, 2, 2), kernels).unwrap())
        .unwrap();
    for i in 0..8 {
        assert!((target[i] - kernel_error[i]).powf(2.0) < 0.00001);
    }
    let target_kernels: Vec<f64> = vec![-3.74, -6.19, -3.82, -4.11, -4.74, -3.86, -1.82, -5.76];
    assert_eq!(layer.kernels().shape(), (2, 2, 2));
    let output_kernels_vec: Vec<f64> = layer.kernels().clone().into_raw_vec();
    for i in 0..8 {
        assert!((target_kernels[i] - output_kernels_vec[i]).powf(2.0) < 0.00001);
    }
}

#[test]
fn conv_build_rejects_wrong_number_of_values() {
    assert!(matches!(
        ConvLayer::build(2, 2, vec![0u8; 7]),
        Err(ShapeError::OutOfBounds)
    ));
    assert!(matches!(
        ConvLayer::build(2, 2, vec![0u8; 9]),
        Err(ShapeError::IncompatibleShape)
    ));
}

#[test]
fn conv_output_shape_needs_room_for_a_kernel() {
    let layer = ConvLayer::build(3, 5, vec![0u8; 45]).unwrap();
    assert_eq!(layer.output_shape((4, 4)), Some((2, 2, 5)));
    assert_eq!(layer.output_shape((3, 7)), Some((1, 5, 5)));
    assert_eq!(layer.output_shape((2, 7)), None);
    assert_eq!(layer.output_shape((7, 2)), None);
}

#[test]
fn conv_forward_rejects_wrong_number_of_responses() {
    let mut layer = ConvLayer::build(2, 2, vec![0i32; 8]).unwrap();
    let x = Tensor2::filled((3, 3), 1);
    assert!(matches!(
        layer.forward_propagation(&x, vec![0; 7]),
        Err(ShapeError::OutOfBounds)
    ));
    assert!(matches!(
        layer.forward_propagation(&x, vec![0; 9]),
        Err(ShapeError::IncompatibleShape)
    ));
    let out = layer.forward_propagation(&x, vec![1, 2, 3, 4, 5, 6, 7, 8]).unwrap();
    assert_eq!(out.shape(), (2, 2, 2));
    assert_eq!(*out.get(1, 0, 1), 6);
}

#[test]
fn conv_update_kernels_keeps_the_shape() {
    let mut layer = ConvLayer::build(2, 1, vec![1, 2, 3, 4]).unwrap();
    let other = Tensor3::from_shape_vec((1, 4, 1), vec![9, 9, 9, 9]).unwrap();
    assert!(matches!(
        layer.update_kernels(other),
        Err(ShapeError::IncompatibleShape)
    ));
    assert_eq!(layer.kernels().clone().into_raw_vec(), vec![1, 2, 3, 4]);
    let same = Tensor3::from_shape_vec((1, 2, 2), vec![5, 6, 7, 8]).unwrap();
    assert!(layer.update_kernels(same).is_ok());
    assert_eq!(layer.kernels().clone().into_raw_vec(), vec![5, 6, 7, 8]);
}
