//! Networks: the multilayer network, the convolutional network, and the
//! order of work of training and predicting.

pub mod cnn;
pub mod mlp;
pub mod schedule;
