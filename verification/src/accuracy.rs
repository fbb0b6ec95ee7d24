//! How often a prediction names the class that the truth names.
//!
//! The class that a row names is the column of its largest value. The
//! arrays come as keys that stand for their values in comparisons.

use crate::order::{row_argmax, row_classes};
use crate::registry::{is_word, unknown_message, Registry, UnknownName};
use crate::tensor::Tensor2;
use crate::text::{format_list, list_text};
use vstd::prelude::*;

verus! {

/// The accuracy functions that can be asked for by name.
#[derive(Debug, Clone, Copy, PartialEq, Eq, Structural)]
pub enum AccuracyKind {
    CategoricalAccuracy,
}

/// Why no accuracy can be taken.
#[derive(Debug)]
pub enum AccuracyError {
    /// The predictions and the truth have different shapes.
    ShapeMismatch { predicted: (usize, usize), truth: (usize, usize) },
    /// No accuracy function has the name.
    UnknownFunction(UnknownName),
    /// An array has fewer than two columns.
    NotOneHot,
}

/// A shape as a list of two lengths.
pub open spec fn shape_list(shape: (usize, usize)) -> Seq<usize> {
    seq![shape.0, shape.1]
}

impl AccuracyError {
    /// The message of the error.
    pub open spec fn spec_message(&self) -> Seq<char> {
        match self {
            AccuracyError::ShapeMismatch { predicted, truth } => "shapes are not equals "@
                + list_text(shape_list(*predicted)) + " != "@ + list_text(shape_list(*truth)),
            AccuracyError::UnknownFunction(e) => unknown_message(e.registry, e.name@),
            AccuracyError::NotOneHot => "array must be one hot encoding"@,
        }
    }

    /// The message of the error.
    pub fn message(&self) -> (r: String)
        ensures
            r@ == self.spec_message(),
    {
        match self {
            AccuracyError::ShapeMismatch { predicted, truth } => {
                let mut r = String::from_str("shapes are not equals ");
                let a: [usize; 2] = [predicted.0, predicted.1];
                let b: [usize; 2] = [truth.0, truth.1];
                proof {
                    assert(a@ =~= shape_list(*predicted));
                    assert(b@ =~= shape_list(*truth));
                }
                let left = format_list(a.as_slice());
                r.append(left.as_str());
                r.append(" != ");
                let right = format_list(b.as_slice());
                r.append(right.as_str());
                r
            },
            AccuracyError::UnknownFunction(e) => e.message(),
            AccuracyError::NotOneHot => String::from_str("array must be one hot encoding"),
        }
    }
}

/// What the checks say of a request for the accuracy named `function`
/// between predictions and truth of the given shapes. The shapes are
/// compared first, then the name is looked up, then the columns are counted.
pub enum Outcome {
    ShapeMismatch,
    UnknownFunction,
    NotOneHot,
    Accepted(AccuracyKind),
}

/// What the checks come to.
pub open spec fn outcome(function: Seq<char>, predicted: (usize, usize), truth: (usize, usize)) -> Outcome {
    if predicted != truth {
        Outcome::ShapeMismatch
    } else if function != "categorical_accuracy"@ {
        Outcome::UnknownFunction
    } else if predicted.1 < 2 || truth.1 < 2 {
        Outcome::NotOneHot
    } else {
        Outcome::Accepted(AccuracyKind::CategoricalAccuracy)
    }
}

/// Whether `e` is the error that the outcome `o` of the checks calls for.
pub open spec fn tells(
    e: AccuracyError,
    o: Outcome,
    function: Seq<char>,
    predicted: (usize, usize),
    truth: (usize, usize),
) -> bool {
    match e {
        AccuracyError::ShapeMismatch { predicted: p, truth: t } => o is ShapeMismatch && p
            == predicted && t == truth,
        AccuracyError::UnknownFunction(name) => o is UnknownFunction && name.registry
            == Registry::Accuracy && name.name@ == function,
        AccuracyError::NotOneHot => o is NotOneHot,
    }
}

/// Checks a request for the accuracy named `function` between predictions
/// and truth of the given shapes, and says which accuracy to take.
pub fn check(function: &str, predicted: (usize, usize), truth: (usize, usize)) -> (r: Result<
    AccuracyKind,
    AccuracyError,
>)
    ensures
        match r {
            Ok(kind) => outcome(function@, predicted, truth) == Outcome::Accepted(kind),
            Err(e) => tells(e, outcome(function@, predicted, truth), function@, predicted, truth),
        },
{
    if predicted.0 != truth.0 || predicted.1 != truth.1 {
        return Err(AccuracyError::ShapeMismatch { predicted, truth });
    }
    if !is_word(function, "categorical_accuracy") {
        return Err(
            AccuracyError::UnknownFunction(
                UnknownName { registry: Registry::Accuracy, name: function.to_owned() },
            ),
        );
    }
    if predicted.1 < 2 || truth.1 < 2 {
        return Err(AccuracyError::NotOneHot);
    }
    Ok(AccuracyKind::CategoricalAccuracy)
}

/// Among the first `count` rows, the number of rows for which prediction
/// and truth name the same class.
pub open spec fn agreements(predicted: Seq<usize>, truth: Seq<usize>, count: nat) -> nat
    decreases count,
{
    if count == 0 {
        0
    } else {
        agreements(predicted, truth, (count - 1) as nat) + if predicted[count - 1] == truth[count
            - 1] {
            1nat
        } else {
            0nat
        }
    }
}

/// The categorical accuracy as a fraction: the number of rows in which the
/// largest prediction stands in the column of the largest truth, over the
/// number of rows. Of several largest values in a row, the first counts.
pub open spec fn categorical(y_pred: Tensor2<u64>, y_true: Tensor2<u64>) -> (nat, nat) {
    let rows = y_pred.spec_shape().0 as nat;
    (agreements(row_classes(y_pred, rows), row_classes(y_true, rows), rows), rows)
}

/// What the checks of the categorical accuracy come to: arrays of fewer
/// than two columns are not one-hot, and the two arrays are to have the
/// same shape.
pub open spec fn categorical_outcome(predicted: (usize, usize), truth: (usize, usize)) -> Outcome {
    if predicted.1 < 2 || truth.1 < 2 {
        Outcome::NotOneHot
    } else if predicted != truth {
        Outcome::ShapeMismatch
    } else {
        Outcome::Accepted(AccuracyKind::CategoricalAccuracy)
    }
}

/// The categorical accuracy of predictions against the truth, as a
/// fraction. Both arrays hold keys. It fails where an array has fewer than
/// two columns, and where the arrays have different shapes.
pub fn categorical_accuracy(y_pred: &Tensor2<u64>, y_true: &Tensor2<u64>) -> (r: Result<
    (usize, usize),
    AccuracyError,
>)
    ensures
        match r {
            Ok(fraction) => categorical_outcome(y_pred.spec_shape(), y_true.spec_shape())
                is Accepted && (fraction.0 as nat, fraction.1 as nat) == categorical(
                *y_pred,
                *y_true,
            ) && fraction.0 <= fraction.1,
            Err(e) => tells(
                e,
                categorical_outcome(y_pred.spec_shape(), y_true.spec_shape()),
                "categorical_accuracy"@,
                y_pred.spec_shape(),
                y_true.spec_shape(),
            ),
        },
{
    let predicted = y_pred.shape();
    let truth = y_true.shape();
    if predicted.1 < 2 || truth.1 < 2 {
        return Err(AccuracyError::NotOneHot);
    }
    if predicted.0 != truth.0 || predicted.1 != truth.1 {
        return Err(AccuracyError::ShapeMismatch { predicted, truth });
    }
    let rows = predicted.0;
    let ghost classes = row_classes(*y_pred, rows as nat);
    let ghost wanted = row_classes(*y_true, rows as nat);
    let mut correct: usize = 0;
    let mut i: usize = 0;
    while i < rows
        invariant
            i <= rows,
            rows == y_pred.spec_shape().0,
            y_pred.spec_shape() == y_true.spec_shape(),
            y_pred.spec_shape().1 >= 2,
            classes == row_classes(*y_pred, rows as nat),
            wanted == row_classes(*y_true, rows as nat),
            correct == agreements(classes, wanted, i as nat),
            correct <= i,
        decreases rows - i,
    {
        let p = row_argmax(y_pred, i);
        let t = row_argmax(y_true, i);
        proof {
            assert(classes[i as int] == p);
            assert(wanted[i as int] == t);
        }
        if p == t {
            correct = correct + 1;
        }
        i = i + 1;
    }
    Ok((correct, rows))
}

/// The accuracy named `function` of predictions against the truth, as a
/// fraction. It fails where the arrays have different shapes, where no
/// accuracy has the name, and where the arrays have fewer than two columns.
pub fn accuracy(function: &str, y_pred: &Tensor2<u64>, y_true: &Tensor2<u64>) -> (r: Result<
    (usize, usize),
    AccuracyError,
>)
    ensures
        match r {
            Ok(fraction) => outcome(function@, y_pred.spec_shape(), y_true.spec_shape())
                is Accepted && (fraction.0 as nat, fraction.1 as nat) == categorical(
                *y_pred,
                *y_true,
            ),
            Err(e) => tells(
                e,
                outcome(function@, y_pred.spec_shape(), y_true.spec_shape()),
                function@,
                y_pred.spec_shape(),
                y_true.spec_shape(),
            ),
        },
{
    match check(function, y_pred.shape(), y_true.shape()) {
        Ok(AccuracyKind::CategoricalAccuracy) => categorical_accuracy(y_pred, y_true),
        Err(e) => Err(e),
    }
}

} // verus!
