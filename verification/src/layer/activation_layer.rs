//! A layer that applies one activation function: which function, the
//! declared sizes, and the input of its most recent forward pass.

use crate::activation::{from_string, lookup, Activation, ActivationKind};
use crate::registry::{Registry, UnknownName};
use crate::tensor::Tensor2;
use crate::text::uppercase;
use vstd::prelude::*;

verus! {

/// An activation layer. Its shape is declared, not enforced: an activation
/// keeps the shape of what it is given.
pub struct ActivationLayer<T> {
    input: Tensor2<T>,
    activation: ActivationKind,
    shape: (usize, usize),
}

/// The saved form of an activation layer.
#[derive(Debug)]
pub struct ActivationLayerModel {
    pub activation: String,
    pub shape: (usize, usize),
}

impl<T> ActivationLayer<T> {
    /// The declared pair (inputs, outputs).
    pub closed spec fn spec_shape(&self) -> (usize, usize) {
        self.shape
    }

    /// The activation function of the layer.
    pub closed spec fn spec_activation(&self) -> ActivationKind {
        self.activation
    }

    /// The input of the most recent forward pass.
    pub closed spec fn spec_input(&self) -> Tensor2<T> {
        self.input
    }

    /// A layer of the given activation and declared sizes that remembers
    /// an empty input.
    pub fn build<A: Activation>(activation: A, input_size: usize, output_size: usize) -> (r: Self)
        ensures
            r.spec_activation() == activation.spec_kind(),
            r.spec_shape() == (input_size, output_size),
            r.spec_input().spec_shape() == (0usize, 0usize),
            r.spec_input()@.len() == 0,
    {
        let kind = activation.kind();
        ActivationLayer { input: Tensor2::empty(), activation: kind, shape: (input_size, output_size) }
    }

    /// The layer that a saved form describes, or the name of its
    /// activation where the table of activations does not hold it.
    pub fn from_model(model: ActivationLayerModel) -> (r: Result<Self, UnknownName>)
        ensures
            match r {
                Ok(layer) => {
                    &&& lookup(uppercase(model.activation@)) == Some(layer.spec_activation())
                    &&& layer.spec_shape() == model.shape
                    &&& layer.spec_input().spec_shape() == (0usize, 0usize)
                    &&& layer.spec_input()@.len() == 0
                },
                Err(e) => {
                    &&& lookup(uppercase(model.activation@)) is None
                    &&& e.registry == Registry::Activation
                    &&& e.name@ == model.activation@
                },
            },
    {
        let shape = model.shape;
        match from_string(model.activation) {
            Ok(kind) => Ok(ActivationLayer { input: Tensor2::empty(), activation: kind, shape }),
            Err(e) => Err(e),
        }
    }

    /// The saved form of the layer.
    pub fn to_model(&self) -> (model: ActivationLayerModel)
        ensures
            model.activation@ == self.spec_activation().spec_name(),
            model.shape == self.spec_shape(),
    {
        ActivationLayerModel { activation: self.activation.get_name(), shape: self.shape }
    }

    /// The declared pair (inputs, outputs).
    pub fn get_shape(&self) -> (s: (usize, usize))
        ensures
            s == self.spec_shape(),
    {
        self.shape
    }

    /// The name under which the layer is saved.
    pub fn get_name(&self) -> (name: String)
        ensures
            name@ == "ActivationLayer"@,
    {
        "ActivationLayer".to_owned()
    }

    /// The activation function of the layer.
    pub fn activation(&self) -> (k: ActivationKind)
        ensures
            k == self.spec_activation(),
    {
        self.activation
    }

    /// The input of the most recent forward pass.
    pub fn input(&self) -> (r: &Tensor2<T>)
        ensures
            *r == self.spec_input(),
    {
        &self.input
    }
}

impl<T: Copy> ActivationLayer<T> {
    /// Remembers `x` as the input of a forward pass.
    pub fn remember_input(&mut self, x: &Tensor2<T>)
        ensures
            final(self).spec_shape() == old(self).spec_shape(),
            final(self).spec_activation() == old(self).spec_activation(),
            final(self).spec_input().spec_shape() == x.spec_shape(),
            final(self).spec_input()@ == x@,
    {
        self.input = x.clone();
    }
}

} // verus!
