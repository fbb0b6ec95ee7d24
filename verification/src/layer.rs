//! The layers of a network and their names.

pub mod activation_layer;
pub mod conv_layer;
pub mod fc_layer;
pub mod flatten_layer;
pub mod max_pooling_layer;

use crate::layer::activation_layer::ActivationLayer;
use crate::layer::fc_layer::FCLayer;
use crate::registry::{is_word, Registry, UnknownName};
use crate::text::{to_uppercase, uppercase};
use vstd::prelude::*;

verus! {

/// The kinds of layer that a saved network can hold.
#[derive(Debug, Clone, Copy, PartialEq, Eq, Structural)]
pub enum LayerKind {
    FCLayer,
    ActivationLayer,
}

impl LayerKind {
    /// The name under which a layer of this kind is saved.
    pub open spec fn spec_name(&self) -> Seq<char> {
        match self {
            LayerKind::FCLayer => "FCLayer"@,
            LayerKind::ActivationLayer => "ActivationLayer"@,
        }
    }

    /// The name under which a layer of this kind is saved.
    pub fn get_name(&self) -> (name: String)
        ensures
            name@ == self.spec_name(),
    {
        match self {
            LayerKind::FCLayer => "FCLayer".to_owned(),
            LayerKind::ActivationLayer => "ActivationLayer".to_owned(),
        }
    }
}

/// A layer of a multilayer network.
pub enum Layer<T> {
    FC(FCLayer<T>),
    Activation(ActivationLayer<T>),
}

impl<T> Layer<T> {
    /// Which kind of layer this is.
    pub open spec fn spec_kind(&self) -> LayerKind {
        match self {
            Layer::FC(_) => LayerKind::FCLayer,
            Layer::Activation(_) => LayerKind::ActivationLayer,
        }
    }

    /// The pair (inputs, outputs) of the layer.
    pub open spec fn spec_shape(&self) -> (usize, usize) {
        match self {
            Layer::FC(l) => l.spec_shape(),
            Layer::Activation(l) => l.spec_shape(),
        }
    }

    /// Which kind of layer this is.
    pub fn kind(&self) -> (k: LayerKind)
        ensures
            k == self.spec_kind(),
    {
        match self {
            Layer::FC(_) => LayerKind::FCLayer,
            Layer::Activation(_) => LayerKind::ActivationLayer,
        }
    }

    /// The pair (inputs, outputs) of the layer.
    pub fn get_shape(&self) -> (s: (usize, usize))
        ensures
            s == self.spec_shape(),
    {
        match self {
            Layer::FC(l) => l.get_shape(),
            Layer::Activation(l) => l.get_shape(),
        }
    }

    /// The name under which the layer is saved.
    pub fn get_name(&self) -> (name: String)
        ensures
            name@ == self.spec_kind().spec_name(),
    {
        match self {
            Layer::FC(l) => l.get_name(),
            Layer::Activation(l) => l.get_name(),
        }
    }
}

/// The kind of layer that an upper-case name stands for.
pub open spec fn lookup(upper: Seq<char>) -> Option<LayerKind> {
    if upper == "FCLAYER"@ {
        Some(LayerKind::FCLayer)
    } else if upper == "ACTIVATIONLAYER"@ {
        Some(LayerKind::ActivationLayer)
    } else {
        None
    }
}

/// The kind of layer that an upper-case name stands for.
pub fn from_uppercase(upper: &str) -> (r: Option<LayerKind>)
    ensures
        r == lookup(upper@),
{
    if is_word(upper, "FCLAYER") {
        Some(LayerKind::FCLayer)
    } else if is_word(upper, "ACTIVATIONLAYER") {
        Some(LayerKind::ActivationLayer)
    } else {
        None
    }
}

/// The kind of layer of the given name, whatever its case, or the name back
/// where the table does not hold it.
pub fn from_string(name: String) -> (r: Result<LayerKind, UnknownName>)
    ensures
        match r {
            Ok(kind) => lookup(uppercase(name@)) == Some(kind),
            Err(e) => lookup(uppercase(name@)) is None && e.registry == Registry::Layer && e.name@
                == name@,
        },
{
    let upper = to_uppercase(name.as_str());
    match from_uppercase(upper.as_str()) {
        Some(kind) => Ok(kind),
        None => Err(UnknownName { registry: Registry::Layer, name }),
    }
}

} // verus!
