//! The activation functions by name and kind.
//!
//! An activation is applied element by element, except softmax, which
//! normalises a single row.

use crate::registry::{is_word, Registry, UnknownName};
use crate::text::{to_uppercase, uppercase};
use vstd::prelude::*;

verus! {

/// The activation functions that a layer can hold.
#[derive(Debug, Clone, Copy, PartialEq, Eq, Structural)]
pub enum ActivationKind {
    Tanh,
    Relu,
    Sigmoid,
    Softmax,
}

impl ActivationKind {
    /// The name under which the activation is saved.
    pub open spec fn spec_name(&self) -> Seq<char> {
        match self {
            ActivationKind::Tanh => "Tanh"@,
            ActivationKind::Relu => "Relu"@,
            ActivationKind::Sigmoid => "Sigmoid"@,
            ActivationKind::Softmax => "Softmax"@,
        }
    }

    /// The shape of what the activation makes of an input of the given shape:
    /// the same shape, and nothing where softmax is given another number of
    /// rows than one.
    pub open spec fn spec_function_shape(&self, input: (usize, usize)) -> Option<(usize, usize)> {
        match self {
            ActivationKind::Softmax => if input.0 == 1 {
                Some(input)
            } else {
                None
            },
            _ => Some(input),
        }
    }

    /// The shape of what the activation makes of an input of the given shape.
    pub fn function_shape(&self, input: (usize, usize)) -> (r: Option<(usize, usize)>)
        ensures
            r == self.spec_function_shape(input),
    {
        match self {
            ActivationKind::Softmax => if input.0 == 1 {
                Some(input)
            } else {
                None
            },
            _ => Some(input),
        }
    }
}

/// An activation function: something that has a kind and a name.
pub trait Activation {
    /// Which of the activation functions this is.
    spec fn spec_kind(&self) -> ActivationKind;

    /// Which of the activation functions this is.
    fn kind(&self) -> (k: ActivationKind)
        ensures
            k == self.spec_kind(),
    ;

    /// The name under which the activation is saved.
    fn get_name(&self) -> (name: String)
        ensures
            name@ == self.spec_kind().spec_name(),
    ;
}

impl Activation for ActivationKind {
    open spec fn spec_kind(&self) -> ActivationKind {
        *self
    }

    fn kind(&self) -> (k: ActivationKind) {
        *self
    }

    fn get_name(&self) -> (name: String) {
        match self {
            ActivationKind::Tanh => "Tanh".to_owned(),
            ActivationKind::Relu => "Relu".to_owned(),
            ActivationKind::Sigmoid => "Sigmoid".to_owned(),
            ActivationKind::Softmax => "Softmax".to_owned(),
        }
    }
}

/// The rectified linear unit.
#[derive(Debug)]
pub struct Relu;

impl Activation for Relu {
    open spec fn spec_kind(&self) -> ActivationKind {
        ActivationKind::Relu
    }

    fn kind(&self) -> (k: ActivationKind) {
        ActivationKind::Relu
    }

    fn get_name(&self) -> (name: String) {
        ActivationKind::Relu.get_name()
    }
}

/// The logistic function.
#[derive(Debug)]
pub struct Sigmoid;

impl Activation for Sigmoid {
    open spec fn spec_kind(&self) -> ActivationKind {
        ActivationKind::Sigmoid
    }

    fn kind(&self) -> (k: ActivationKind) {
        ActivationKind::Sigmoid
    }

    fn get_name(&self) -> (name: String) {
        ActivationKind::Sigmoid.get_name()
    }
}

/// The normalised exponential of a single row.
#[derive(Debug)]
pub struct Softmax;

impl Activation for Softmax {
    open spec fn spec_kind(&self) -> ActivationKind {
        ActivationKind::Softmax
    }

    fn kind(&self) -> (k: ActivationKind) {
        ActivationKind::Softmax
    }

    fn get_name(&self) -> (name: String) {
        ActivationKind::Softmax.get_name()
    }
}

/// The hyperbolic tangent.
#[derive(Debug)]
pub struct Tanh;

impl Activation for Tanh {
    open spec fn spec_kind(&self) -> ActivationKind {
        ActivationKind::Tanh
    }

    fn kind(&self) -> (k: ActivationKind) {
        ActivationKind::Tanh
    }

    fn get_name(&self) -> (name: String) {
        ActivationKind::Tanh.get_name()
    }
}

/// The activation that an upper-case name stands for. Softmax has no entry.
pub open spec fn lookup(upper: Seq<char>) -> Option<ActivationKind> {
    if upper == "TANH"@ {
        Some(ActivationKind::Tanh)
    } else if upper == "RELU"@ {
        Some(ActivationKind::Relu)
    } else if upper == "SIGMOID"@ {
        Some(ActivationKind::Sigmoid)
    } else {
        None
    }
}

/// The activation that an upper-case name stands for.
pub fn from_uppercase(upper: &str) -> (r: Option<ActivationKind>)
    ensures
        r == lookup(upper@),
{
    if is_word(upper, "TANH") {
        Some(ActivationKind::Tanh)
    } else if is_word(upper, "RELU") {
        Some(ActivationKind::Relu)
    } else if is_word(upper, "SIGMOID") {
        Some(ActivationKind::Sigmoid)
    } else {
        None
    }
}

/// The activation of the given name, whatever its case, or the name back
/// where the table does not hold it.
pub fn from_string(name: String) -> (r: Result<ActivationKind, UnknownName>)
    ensures
        match r {
            Ok(kind) => lookup(uppercase(name@)) == Some(kind),
            Err(e) => lookup(uppercase(name@)) is None && e.registry == Registry::Activation
                && e.name@ == name@,
        },
{
    let upper = to_uppercase(name.as_str());
    match from_uppercase(upper.as_str()) {
        Some(kind) => Ok(kind),
        None => Err(UnknownName { registry: Registry::Activation, name }),
    }
}

} // verus!
