//! A fully connected layer: its weights, its bias and the input of its most
//! recent forward pass, with the shapes that hold them together.

use crate::tensor::{check2, lemma_fits2_product, nonzero, ShapeError, Tensor2};
use vstd::prelude::*;

verus! {

/// A fully connected layer from `shape.0` inputs to `shape.1` outputs.
pub struct FCLayer<T> {
    input: Tensor2<T>,
    weights: Tensor2<T>,
    bias: Tensor2<T>,
    shape: (usize, usize),
}

/// The saved form of a fully connected layer: weights and bias as flat
/// lists, the weights row by row.
pub struct FCLayerModel<T> {
    pub weights: Vec<T>,
    pub bias: Vec<T>,
    pub shape: (usize, usize),
}

/// Whether flat lists of the given lengths make a layer of the given shape:
/// the weights are checked first, then the bias.
pub open spec fn model_check(shape: (usize, usize), weights: nat, bias: nat) -> Result<
    (),
    ShapeError,
> {
    match check2(shape.0 as nat, shape.1 as nat, weights) {
        Err(e) => Err(e),
        Ok(_) => check2(1, shape.1 as nat, bias),
    }
}

/// Whether `loaded` is what loading `model` gives: a layer with the model's
/// shape, weights and bias whose remembered input is a row of `zero`, or the
/// reason why the lists do not make a layer.
pub open spec fn loads<T>(model: FCLayerModel<T>, zero: T, loaded: Result<FCLayer<T>, ShapeError>) -> bool {
    match loaded {
        Ok(layer) => {
            &&& model_check(model.shape, model.weights@.len(), model.bias@.len()) is Ok
            &&& layer.wf()
            &&& layer.spec_shape() == model.shape
            &&& layer.spec_weights()@ == model.weights@
            &&& layer.spec_bias()@ == model.bias@
            &&& forall|n: int| 0 <= n < layer.spec_input()@.len() ==> layer.spec_input()@[n] == zero
        },
        Err(e) => model_check(model.shape, model.weights@.len(), model.bias@.len()) == Err::<
            (),
            ShapeError,
        >(e),
    }
}

/// Whether `model` is the saved form of `layer`.
pub open spec fn saves<T>(layer: FCLayer<T>, model: FCLayerModel<T>) -> bool {
    &&& model.shape == layer.spec_shape()
    &&& model.weights@ == layer.spec_weights()@
    &&& model.bias@ == layer.spec_bias()@
}

impl<T> FCLayer<T> {
    /// The pair (inputs, outputs).
    pub closed spec fn spec_shape(&self) -> (usize, usize) {
        self.shape
    }

    /// The weights, one row per input.
    pub closed spec fn spec_weights(&self) -> Tensor2<T> {
        self.weights
    }

    /// The bias, a single row.
    pub closed spec fn spec_bias(&self) -> Tensor2<T> {
        self.bias
    }

    /// The input of the most recent forward pass, a single row.
    pub closed spec fn spec_input(&self) -> Tensor2<T> {
        self.input
    }

    /// The weights have the layer's shape, the bias is a row of one value
    /// per output, and the remembered input a row of one value per input.
    #[verifier::type_invariant]
    pub open spec fn wf(&self) -> bool {
        &&& self.spec_weights().wf()
        &&& self.spec_bias().wf()
        &&& self.spec_input().wf()
        &&& self.spec_weights().spec_shape() == self.spec_shape()
        &&& self.spec_bias().spec_shape() == (1usize, self.spec_shape().1)
        &&& self.spec_input().spec_shape() == (1usize, self.spec_shape().0)
    }

    /// The pair (inputs, outputs).
    pub fn get_shape(&self) -> (s: (usize, usize))
        ensures
            s == self.spec_shape(),
    {
        self.shape
    }

    /// The name under which the layer is saved.
    pub fn get_name(&self) -> (name: String)
        ensures
            name@ == "FCLayer"@,
    {
        "FCLayer".to_owned()
    }

    /// The weights, one row per input.
    pub fn weights(&self) -> (r: &Tensor2<T>)
        ensures
            *r == self.spec_weights(),
            r.spec_shape() == self.spec_shape(),
    {
        proof {
            use_type_invariant(self);
        }
        &self.weights
    }

    /// The bias, a single row.
    pub fn bias(&self) -> (r: &Tensor2<T>)
        ensures
            *r == self.spec_bias(),
            r.spec_shape() == (1usize, self.spec_shape().1),
    {
        proof {
            use_type_invariant(self);
        }
        &self.bias
    }

    /// The input of the most recent forward pass, a single row.
    pub fn input(&self) -> (r: &Tensor2<T>)
        ensures
            *r == self.spec_input(),
            r.spec_shape() == (1usize, self.spec_shape().0),
    {
        proof {
            use_type_invariant(self);
        }
        &self.input
    }

    /// Puts new weights and a new bias in place of the old. Values of
    /// another shape are refused, and the layer stays as it is.
    pub fn update(&mut self, weights: Tensor2<T>, bias: Tensor2<T>) -> (r: Result<(), ShapeError>)
        ensures
            final(self).spec_shape() == old(self).spec_shape(),
            final(self).spec_input() == old(self).spec_input(),
            r is Ok <==> weights.spec_shape() == old(self).spec_shape() && bias.spec_shape() == (
                1usize,
                old(self).spec_shape().1,
            ),
            r is Ok ==> final(self).spec_weights() == weights && final(self).spec_bias() == bias,
            r is Err ==> r == Err::<(), ShapeError>(ShapeError::IncompatibleShape)
                && final(self).spec_weights() == old(self).spec_weights() && final(self).spec_bias() == old(self).spec_bias(),
    {
        proof {
            use_type_invariant(&*self);
            use_type_invariant(&weights);
            use_type_invariant(&bias);
        }
        let w = weights.shape();
        let b = bias.shape();
        if w.0 == self.shape.0 && w.1 == self.shape.1 && b.0 == 1 && b.1 == self.shape.1 {
            self.weights = weights;
            self.bias = bias;
            Ok(())
        } else {
            Err(ShapeError::IncompatibleShape)
        }
    }
}


impl<T: Copy> FCLayer<T> {
    /// A layer of the given sizes with the given weights, row by row, and
    /// bias, whose remembered input is a row of `zero`.
    pub fn build(input_size: usize, output_size: usize, zero: T, weights: Vec<T>, bias: Vec<T>) -> (r:
        Result<FCLayer<T>, ShapeError>)
        ensures
            loads(
                (FCLayerModel { weights, bias, shape: (input_size, output_size) }),
                zero,
                r,
            ),
    {
        FCLayer::from_model(FCLayerModel { weights, bias, shape: (input_size, output_size) }, zero)
    }

    /// The layer that a saved form describes, its remembered input a row
    /// of `zero`.
    pub fn from_model(model: FCLayerModel<T>, zero: T) -> (r: Result<FCLayer<T>, ShapeError>)
        ensures
            loads(model, zero, r),
    {
        let shape = model.shape;
        let weights = match Tensor2::from_shape_vec(shape, model.weights) {
            Ok(w) => w,
            Err(e) => {
                return Err(e);
            },
        };
        let bias = match Tensor2::from_shape_vec((1, shape.1), model.bias) {
            Ok(b) => b,
            Err(e) => {
                return Err(e);
            },
        };
        proof {
            lemma_fits2_product(shape.0 as nat, shape.1 as nat);
            assert(nonzero(1) * nonzero(shape.0 as nat) == nonzero(shape.0 as nat))
                by (nonlinear_arith)
                requires
                    nonzero(1) == 1,
            ;
        }
        let input = Tensor2::filled((1, shape.0), zero);
        proof {
            assert forall|n: int| 0 <= n < input@.len() implies input@[n] == zero by {
                assert(1 * shape.0 == shape.0) by (nonlinear_arith);
                assert(0 * shape.0 + n == n) by (nonlinear_arith);
                assert(input.spec_at(0, n) == input@[n]);
            }
        }
        Ok(FCLayer { input, weights, bias, shape })
    }

    /// The saved form of the layer.
    pub fn to_model(&self) -> (model: FCLayerModel<T>)
        ensures
            saves(*self, model),
    {
        FCLayerModel {
            weights: self.weights.clone().into_raw_vec(),
            bias: self.bias.clone().into_raw_vec(),
            shape: self.shape,
        }
    }

    /// Remembers `x` as the input of a forward pass. An input that is not
    /// a single row of one value per input of the layer is refused.
    pub fn remember_input(&mut self, x: &Tensor2<T>) -> (r: Result<(), ShapeError>)
        ensures
            final(self).spec_shape() == old(self).spec_shape(),
            final(self).spec_weights() == old(self).spec_weights(),
            final(self).spec_bias() == old(self).spec_bias(),
            r is Ok <==> x.spec_shape() == (1usize, old(self).spec_shape().0),
            r is Ok ==> final(self).spec_input().spec_shape() == x.spec_shape() && final(self).spec_input()@ == x@,
            r is Err ==> r == Err::<(), ShapeError>(ShapeError::IncompatibleShape)
                && final(self).spec_input() == old(self).spec_input(),
    {
        proof {
            use_type_invariant(&*self);
            use_type_invariant(x);
        }
        let s = x.shape();
        if s.0 == 1 && s.1 == self.shape.0 {
            self.input = x.clone();
            Ok(())
        } else {
            Err(ShapeError::IncompatibleShape)
        }
    }
}

/// Saving a layer and loading what was saved gives a layer of the same
/// shape with the same weights and the same bias.
pub proof fn lemma_save_load_round_trip<T>(
    layer: FCLayer<T>,
    model: FCLayerModel<T>,
    zero: T,
    loaded: Result<FCLayer<T>, ShapeError>,
)
    requires
        layer.wf(),
        saves(layer, model),
        loads(model, zero, loaded),
    ensures
        loaded matches Ok(l) && l.spec_shape() == layer.spec_shape() && l.spec_weights()@
            == layer.spec_weights()@ && l.spec_bias()@ == layer.spec_bias()@,
{
    let (rows, cols) = layer.spec_shape();
    assert(nonzero(1) * nonzero(cols as nat) <= nonzero(rows as nat) * nonzero(cols as nat))
        by (nonlinear_arith)
        requires
            nonzero(1) == 1,
            nonzero(rows as nat) >= 1,
    ;
}

} // verus!
