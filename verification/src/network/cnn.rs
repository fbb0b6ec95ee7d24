//! The convolutional network.

use vstd::prelude::*;

verus! {

/// A convolutional network: a convolution layer, a pooling layer and a
/// flatten layer in front of activation layers.
#[derive(Debug)]
pub struct Cnn {}

} // verus!
