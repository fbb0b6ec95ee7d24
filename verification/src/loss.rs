//! The loss functions by name and kind.

use crate::registry::{is_word, Registry, UnknownName};
use crate::text::{to_uppercase, uppercase};
use vstd::prelude::*;

verus! {

/// The loss functions that a network can train against.
#[derive(Debug, Clone, Copy, PartialEq, Eq, Structural)]
pub enum LossKind {
    Mse,
    CategoricalCrossEntropy,
}

impl LossKind {
    /// The name under which the loss is saved.
    pub open spec fn spec_name(&self) -> Seq<char> {
        match self {
            LossKind::Mse => "MSE"@,
            LossKind::CategoricalCrossEntropy => "categorical_cross_entropy"@,
        }
    }
}

/// A loss function: something that has a kind and a name.
pub trait Loss {
    /// Which of the loss functions this is.
    spec fn spec_kind(&self) -> LossKind;

    /// Which of the loss functions this is.
    fn kind(&self) -> (k: LossKind)
        ensures
            k == self.spec_kind(),
    ;

    /// The name under which the loss is saved.
    fn get_name(&self) -> (name: String)
        ensures
            name@ == self.spec_kind().spec_name(),
    ;
}

impl Loss for LossKind {
    open spec fn spec_kind(&self) -> LossKind {
        *self
    }

    fn kind(&self) -> (k: LossKind) {
        *self
    }

    fn get_name(&self) -> (name: String) {
        match self {
            LossKind::Mse => "MSE".to_owned(),
            LossKind::CategoricalCrossEntropy => "categorical_cross_entropy".to_owned(),
        }
    }
}

/// The mean of the squared differences.
#[derive(Debug)]
pub struct Mse;

impl Loss for Mse {
    open spec fn spec_kind(&self) -> LossKind {
        LossKind::Mse
    }

    fn kind(&self) -> (k: LossKind) {
        LossKind::Mse
    }

    fn get_name(&self) -> (name: String) {
        LossKind::Mse.get_name()
    }
}

/// The cross entropy between a one-hot truth and a prediction.
#[derive(Debug)]
pub struct CategoricalCrossEntropy;

impl Loss for CategoricalCrossEntropy {
    open spec fn spec_kind(&self) -> LossKind {
        LossKind::CategoricalCrossEntropy
    }

    fn kind(&self) -> (k: LossKind) {
        LossKind::CategoricalCrossEntropy
    }

    fn get_name(&self) -> (name: String) {
        LossKind::CategoricalCrossEntropy.get_name()
    }
}

/// The loss that an upper-case name stands for.
pub open spec fn lookup(upper: Seq<char>) -> Option<LossKind> {
    if upper == "MSE"@ {
        Some(LossKind::Mse)
    } else if upper == "CATEGORICAL_CROSS_ENTROPY"@ {
        Some(LossKind::CategoricalCrossEntropy)
    } else {
        None
    }
}

/// The loss that an upper-case name stands for.
pub fn from_uppercase(upper: &str) -> (r: Option<LossKind>)
    ensures
        r == lookup(upper@),
{
    if is_word(upper, "MSE") {
        Some(LossKind::Mse)
    } else if is_word(upper, "CATEGORICAL_CROSS_ENTROPY") {
        Some(LossKind::CategoricalCrossEntropy)
    } else {
        None
    }
}

/// The loss of the given name, whatever its case, or the name back where
/// the table does not hold it.
pub fn from_string(name: String) -> (r: Result<LossKind, UnknownName>)
    ensures
        match r {
            Ok(kind) => lookup(uppercase(name@)) == Some(kind),
            Err(e) => lookup(uppercase(name@)) is None && e.registry == Registry::Loss && e.name@
                == name@,
        },
{
    let upper = to_uppercase(name.as_str());
    match from_uppercase(upper.as_str()) {
        Some(kind) => Ok(kind),
        None => Err(UnknownName { registry: Registry::Loss, name }),
    }
}

} // verus!
