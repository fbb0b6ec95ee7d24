//! Helpers around the data that a network is trained on.

pub mod data;
