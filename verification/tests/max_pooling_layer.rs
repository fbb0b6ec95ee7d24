use neuralnet::layer::max_pooling_layer::MaxPoolingLayer;
use neuralnet::tensor::Tensor3;

fn feature_maps() -> Tensor3<f64> {
    Tensor3::from_shape_vec(
        (3, 3, 2),
        vec![
            30.0, 49.0, 36.0, 62.0, 45.5, 83.5, 22.5, 38.5, 34.5, 58.0, 44.5, 76.5, 28.5, 51.5,
            35.0, 61.5, 44.5, 76.5,
        ],
    )
    .unwrap()
}

/// The place of the first largest value of a patch, in row-major order.
fn argmax(patch: &Tensor3<f64>) -> (usize, usize, usize) {
    let (h, w, c) = patch.shape();
    let mut best = (0, 0, 0);
    for i in 0..h {
        for j in 0..w {
            for k in 0..c {
                if *patch.get(i, j, k) > *patch.get(best.0, best.1, best.2) {
                    best = (i, j, k);
                }
            }
        }
    }
    best
}

/// A whole number that is larger exactly where the value is.
fn order_key(value: f64) -> u64 {
    let bits = (value + 0.0).to_bits();
    if bits >> 63 == 1 {
        !bits
    } else {
        bits | (1 << 63)
    }
}

fn keys(x: &Tensor3<f64>) -> Tensor3<u64> {
    Tensor3::from_shape_fn(x.shape(), |i, j, k| order_key(*x.get(i, j, k)))
}

/// The places whose value is, within the tolerance, that of the winner of
/// their tile in the same channel.
fn ties(layer: &mut MaxPoolingLayer<f64>, x: &Tensor3<f64>) -> Tensor3<bool> {
    let size = layer.kernel_size();
    let (height, width, channels) = x.shape();
    let mut marks = vec![false; height * width * channels];
    for (patch, h, w) in layer.image_to_patches(x) {
        let best = argmax(&patch);
        for ph in 0..size {
            for pw in 0..size {
                for pk in 0..channels {
                    if (*patch.get(ph, pw, pk) - *patch.get(best.0, best.1, pk)).powf(2.0)
                        < 0.00000001
                    {
                        marks[((h * size + ph) * width + w * size + pw) * channels + pk] = true;
                    }
                }
            }
        }
    }
    Tensor3::from_shape_vec((height, width, channels), marks).unwrap()
}

#[test]
fn max_pooling_layer_build_should_initialize_layer() {
    let layer: MaxPoolingLayer<f64> = MaxPoolingLayer::build(2);
    assert!(layer.input().is_none());
    assert_eq!(layer.kernel_size(), 2);
}

#[test]
fn max_pooling_layer_image_to_patches_should_return_vec_of_pattern() {
    let mut layer: MaxPoolingLayer<f64> = MaxPoolingLayer::build(2);
    let x = feature_maps();
    let output = layer.image_to_patches(&x);
    let target: Vec<(Vec<f64>, usize, usize)> = vec![(
        vec![30.0, 49.0, 36.0, 62.0, 22.5, 38.5, 34.5, 58.0],
        0,
        0,
    )];
    assert_eq!(output.len(), target.len());
    for i in 0..target.len() {
        assert_eq!(output[i].0.shape(), (2, 2, 2));
        assert_eq!(output[i].0.clone().into_raw_vec(), target[i].0);
        assert_eq!(output[i].1, target[i].1);
        assert_eq!(output[i].2, target[i].2);
    }
    assert_eq!(layer.input().unwrap().shape(), (3, 3, 2));
    assert_eq!(
        layer.input().unwrap().clone().into_raw_vec(),
        x.into_raw_vec()
    );
}

#[test]
fn max_pooling_layer_forward_propagation_apply_kernel() {
    let mut layer: MaxPoolingLayer<f64> = MaxPoolingLayer::build(2);
    let x = feature_maps();
    let output: Tensor3<f64> = layer.forward_propagation(&x, &keys(&x));
    assert_eq!(output.shape(), (1, 1, 2));
    assert_eq!(output.into_raw_vec(), vec![36.0, 62.0]);
}

#[test]
fn max_pooling_layer_backward_propagation_should_correct_kernel() {
    let mut layer: MaxPoolingLayer<f64> = MaxPoolingLayer::build(2);
    let x = feature_maps();
    layer.forward_propagation(&x, &keys(&x));
    let marks = ties(&mut layer, &x);
    let output: Tensor3<f64> = layer.backward_propagation(&x, &marks, 0.0);
    assert_eq!(output.shape(), (3, 3, 2));
    assert_eq!(
        output.into_raw_vec(),
        vec![
            0.0, 0.0, 30.0, 49.0, 0.0, 0.0, 0.0, 0.0, 0.0, 0.0, 0.0, 0.0, 0.0, 0.0, 0.0, 0.0, 0.0,
            0.0,
        ]
    );
}

#[test]
fn pooling_tiles_a_larger_input_row_by_row() {
    let mut layer: MaxPoolingLayer<usize> = MaxPoolingLayer::build(2);
    let x = Tensor3::from_shape_fn((5, 4, 1), |i, j, _| 10 * i + j);
    let patches = layer.image_to_patches(&x);
    assert_eq!(patches.len(), 4);
    let places: Vec<(usize, usize)> = patches.iter().map(|p| (p.1, p.2)).collect();
    assert_eq!(places, vec![(0, 0), (0, 1), (1, 0), (1, 1)]);
    assert_eq!(patches[1].0.clone().into_raw_vec(), vec![2, 3, 12, 13]);
    assert_eq!(patches[2].0.clone().into_raw_vec(), vec![20, 21, 30, 31]);
    // the values grow along rows and columns: the last place of a tile wins
    let order = Tensor3::from_shape_fn((5, 4, 1), |i, j, _| (10 * i + j) as u64);
    let out = layer.forward_propagation(&x, &order);
    assert_eq!(out.shape(), (2, 2, 1));
    assert_eq!(out.into_raw_vec(), vec![11, 13, 31, 33]);
}

#[test]
fn pooling_keeps_every_channel_at_the_place_of_one_winner() {
    let mut layer: MaxPoolingLayer<char> = MaxPoolingLayer::build(2);
    let x = Tensor3::from_shape_vec(
        (2, 2, 2),
        vec!['a', 'b', 'c', 'd', 'e', 'f', 'g', 'h'],
    )
    .unwrap();
    // the largest key stands at row 1, column 0, in the second channel
    let order = Tensor3::from_shape_vec((2, 2, 2), vec![1, 2, 9, 3, 0, 10, 4, 5]).unwrap();
    let out = layer.forward_propagation(&x, &order);
    assert_eq!(out.shape(), (1, 1, 2));
    assert_eq!(out.into_raw_vec(), vec!['e', 'f']);
    // of several largest keys the first wins
    let order = Tensor3::from_shape_vec((2, 2, 2), vec![1, 7, 7, 3, 0, 7, 4, 5]).unwrap();
    let out = layer.forward_propagation(&x, &order);
    assert_eq!(out.into_raw_vec(), vec!['a', 'b']);
    let order = Tensor3::from_shape_vec((2, 2, 2), vec![0, 0, 0, 0, 0, 0, 0, 0]).unwrap();
    let out = layer.forward_propagation(&x, &order);
    assert_eq!(out.into_raw_vec(), vec!['a', 'b']);
}

#[test]
fn order_keys_follow_the_order_of_the_numbers() {
    let numbers = [
        f64::NEG_INFINITY,
        -1e300,
        -2.5,
        -1.0,
        -1e-300,
        0.0,
        1e-300,
        0.5,
        1.0,
        36.0,
        62.0,
        1e300,
        f64::INFINITY,
    ];
    for a in 0..numbers.len() {
        for b in 0..numbers.len() {
            assert_eq!(
                order_key(numbers[a]) < order_key(numbers[b]),
                numbers[a] < numbers[b]
            );
        }
    }
    assert_eq!(order_key(-0.0), order_key(0.0));
}

#[test]
fn pooling_backward_sends_gradient_to_every_tie() {
    let mut layer: MaxPoolingLayer<i32> = MaxPoolingLayer::build(2);
    let x = Tensor3::from_shape_vec((2, 5, 1), vec![7, 7, 1, 2, 9, 7, 3, 4, 4, 9]).unwrap();
    let order = Tensor3::from_shape_fn((2, 5, 1), |i, j, _| *x.get(i, j, 0) as u64);
    layer.forward_propagation(&x, &order);
    // the fifth column fills no tile; its marks are not looked at
    let marks = Tensor3::from_shape_vec(
        (2, 5, 1),
        vec![true, true, false, false, true, true, false, true, true, true],
    )
    .unwrap();
    let y = Tensor3::from_shape_vec((1, 2, 1), vec![5, -3]).unwrap();
    let out = layer.backward_propagation(&y, &marks, 0);
    assert_eq!(out.shape(), (2, 5, 1));
    assert_eq!(out.into_raw_vec(), vec![5, 5, 0, 0, 0, 5, 0, -3, -3, 0]);
}
