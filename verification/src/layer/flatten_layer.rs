//! Reshaping between feature maps and a single row, keeping the order of
//! the elements.

use crate::tensor::{check3, ShapeError, Tensor2, Tensor3};
use vstd::prelude::*;

verus! {

/// Why a gradient cannot be given the shape of the input.
#[derive(Debug, Clone, Copy, PartialEq, Eq, Structural)]
pub enum FlattenError {
    /// The layer has seen no input yet, so it remembers no shape.
    NoInput,
    /// The gradient does not have one element per place of the remembered shape.
    Shape(ShapeError),
}

impl FlattenError {
    /// The message of the error.
    pub open spec fn spec_message(&self) -> Seq<char> {
        match self {
            FlattenError::NoInput => "the layer has seen no input"@,
            FlattenError::Shape(ShapeError::IncompatibleShape) =>
                "the gradient has more elements than the input"@,
            FlattenError::Shape(ShapeError::OutOfBounds) =>
                "the gradient has fewer elements than the input"@,
            FlattenError::Shape(ShapeError::Overflow) => "the shape of the input is too large"@,
        }
    }

    /// The message of the error.
    pub fn message(&self) -> (r: String)
        ensures
            r@ == self.spec_message(),
    {
        match self {
            FlattenError::NoInput => String::from_str("the layer has seen no input"),
            FlattenError::Shape(ShapeError::IncompatibleShape) => String::from_str(
                "the gradient has more elements than the input",
            ),
            FlattenError::Shape(ShapeError::OutOfBounds) => String::from_str(
                "the gradient has fewer elements than the input",
            ),
            FlattenError::Shape(ShapeError::Overflow) => String::from_str(
                "the shape of the input is too large",
            ),
        }
    }
}

/// A flatten layer: whether it has seen an input, and the shape of the
/// input of its most recent forward pass.
#[derive(Debug)]
pub struct FlattenLayer {
    seen: bool,
    input_shape: (usize, usize, usize),
}

/// What a forward pass on `x` leaves: the layer has seen an input and
/// remembers the shape of `x`, and `out` is a single row with the elements
/// of `x` in their order.
pub open spec fn flattens<T>(x: Tensor3<T>, after: FlattenLayer, out: Tensor2<T>) -> bool {
    &&& after.spec_has_input()
    &&& after.spec_input_shape() == x.spec_shape()
    &&& out.spec_shape() == (1usize, x@.len() as usize)
    &&& out@ == x@
}

/// What a backward pass on `y` gives: nothing but an error before the
/// first forward pass; after it the remembered shape laid over the elements
/// of `y` in their order, or the reason why it cannot be.
pub open spec fn unflattens<T>(
    layer: FlattenLayer,
    y: Tensor2<T>,
    r: Result<Tensor3<T>, FlattenError>,
) -> bool {
    let shape = layer.spec_input_shape();
    let fit = check3(shape.0 as nat, shape.1 as nat, shape.2 as nat, y@.len());
    match r {
        Ok(t) => {
            &&& layer.spec_has_input()
            &&& fit is Ok
            &&& t.spec_shape() == shape
            &&& t@ == y@
        },
        Err(FlattenError::NoInput) => !layer.spec_has_input(),
        Err(FlattenError::Shape(e)) => layer.spec_has_input() && fit == Err::<(), ShapeError>(e),
    }
}

impl FlattenLayer {
    /// Whether the layer has gone through a forward pass.
    pub closed spec fn spec_has_input(&self) -> bool {
        self.seen
    }

    /// The shape of the input of the most recent forward pass.
    pub closed spec fn spec_input_shape(&self) -> (usize, usize, usize) {
        self.input_shape
    }

    /// A layer that has seen no input: its remembered shape is empty.
    pub fn new() -> (r: FlattenLayer)
        ensures
            !r.spec_has_input(),
            r.spec_input_shape() == (0usize, 0usize, 0usize),
    {
        FlattenLayer { seen: false, input_shape: (0, 0, 0) }
    }

    /// Whether the layer has gone through a forward pass.
    #[verifier::when_used_as_spec(spec_has_input)]
    pub fn has_input(&self) -> (r: bool)
        ensures
            r == self.spec_has_input(),
    {
        self.seen
    }

    /// The shape of the input of the most recent forward pass.
    #[verifier::when_used_as_spec(spec_input_shape)]
    pub fn input_shape(&self) -> (s: (usize, usize, usize))
        ensures
            s == self.spec_input_shape(),
    {
        self.input_shape
    }

    /// Remembers the shape of `x` and gives its elements as a single row.
    pub fn forward_propagation<T: Copy>(&mut self, x: &Tensor3<T>) -> (out: Tensor2<T>)
        ensures
            flattens(*x, *final(self), out),
            out.wf(),
    {
        self.seen = true;
        self.input_shape = x.shape();
        x.clone().into_row()
    }

    /// Lays the remembered shape over the elements of `y`. Before the first
    /// forward pass there is no shape to lay, whatever `y` holds.
    pub fn backward_propagation<T>(&self, y: Tensor2<T>) -> (r: Result<Tensor3<T>, FlattenError>)
        ensures
            unflattens(*self, y, r),
            r matches Ok(t) ==> t.wf(),
    {
        if !self.seen {
            return Err(FlattenError::NoInput);
        }
        match Tensor3::from_shape_vec(self.input_shape, y.into_raw_vec()) {
            Ok(t) => Ok(t),
            Err(e) => Err(FlattenError::Shape(e)),
        }
    }
}

/// Flattening and then unflattening the outcome gives back the input:
/// the same shape and the same elements.
pub proof fn lemma_flatten_round_trip<T>(
    x: Tensor3<T>,
    after: FlattenLayer,
    flat: Tensor2<T>,
    back: Result<Tensor3<T>, FlattenError>,
)
    requires
        x.wf(),
        flattens(x, after, flat),
        unflattens(after, flat, back),
    ensures
        back matches Ok(t) && t.spec_shape() == x.spec_shape() && t@ == x@,
{
}

} // verus!
