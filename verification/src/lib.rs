//! A small engine for training neural networks: a chain of layers, trained
//! row by row with gradient descent.
//!
//! The library holds what does not depend on the arithmetic of the scalars:
//! the shapes of tensors and the places of their elements, the patches and
//! tiles of the spatial layers, the routing of pooled values and gradients,
//! the order of work of a training run, the names under which layers,
//! activations and losses are saved, the counting of an accuracy, and the
//! text of a report. Tensors are generic in their scalar; where the order
//! of scalars matters, the caller hands in keys that stand for them.

pub mod accuracy;
pub mod activation;
pub mod layer;
pub mod loss;
pub mod network;
pub mod order;
pub mod registry;
pub mod report;
pub mod tensor;
pub mod text;
pub mod utils;
