//! The multilayer network: an ordered chain of layers and one loss.

use crate::layer::Layer;
use crate::loss::{from_string, lookup, Loss, LossKind};
use crate::network::schedule::{Plan, Prediction, Schedule};
use crate::registry::{Registry, UnknownName};
use crate::text::uppercase;
use vstd::prelude::*;

verus! {

/// A multilayer network. Layers are added at the end and never taken away.
pub struct Mlp<T> {
    layers: Vec<Layer<T>>,
    loss: LossKind,
}

/// The saved form of a multilayer network: for each layer its name and its
/// saved state, in order, and the name of the loss.
#[derive(Debug)]
pub struct MlpModel {
    pub layers: Vec<(String, String)>,
    pub loss: String,
}

/// Whether `model` lists the layers of `network` in order, each under the
/// name of its kind and with the state given for it, and names its loss.
pub open spec fn saves<T>(network: Mlp<T>, states: Seq<String>, model: MlpModel) -> bool {
    &&& model.loss@ == network.spec_loss().spec_name()
    &&& model.layers@.len() == network.spec_layers().len()
    &&& forall|i: int|
        0 <= i < model.layers@.len() ==> {
            &&& (#[trigger] model.layers@[i]).0@ == network.spec_layers()[i].spec_kind().spec_name()
            &&& model.layers@[i].1@ == states[i]@
        }
}

impl<T> Mlp<T> {
    /// The layers in the order of the forward pass.
    pub closed spec fn spec_layers(&self) -> Seq<Layer<T>> {
        self.layers@
    }

    /// The loss that the network trains against.
    pub closed spec fn spec_loss(&self) -> LossKind {
        self.loss
    }

    /// A network without layers.
    pub fn build<L: Loss>(loss: L) -> (r: Self)
        ensures
            r.spec_layers() == Seq::<Layer<T>>::empty(),
            r.spec_loss() == loss.spec_kind(),
    {
        Mlp { layers: Vec::new(), loss: loss.kind() }
    }

    /// A network of the given layers and of the loss of the given name,
    /// whatever its case, or the name back where the table of losses does
    /// not hold it.
    pub fn from_layers(layers: Vec<Layer<T>>, loss: String) -> (r: Result<Self, UnknownName>)
        ensures
            match r {
                Ok(network) => {
                    &&& lookup(uppercase(loss@)) == Some(network.spec_loss())
                    &&& network.spec_layers() == layers@
                },
                Err(e) => {
                    &&& lookup(uppercase(loss@)) is None
                    &&& e.registry == Registry::Loss
                    &&& e.name@ == loss@
                },
            },
    {
        match from_string(loss) {
            Ok(kind) => Ok(Mlp { layers, loss: kind }),
            Err(e) => Err(e),
        }
    }

    /// Adds a layer behind the layers that are there.
    pub fn add_layer(&mut self, layer: Layer<T>)
        ensures
            final(self).spec_layers() == old(self).spec_layers().push(layer),
            final(self).spec_loss() == old(self).spec_loss(),
    {
        self.layers.push(layer);
    }

    /// The name of this kind of network.
    pub fn get_name(&self) -> (name: String)
        ensures
            name@ == "Mlp"@,
    {
        "Mlp".to_owned()
    }

    /// The layers in the order of the forward pass.
    pub fn layers(&self) -> (r: &Vec<Layer<T>>)
        ensures
            r@ == self.spec_layers(),
    {
        &self.layers
    }

    /// The layer at `index`, to work on.
    pub fn layer_mut(&mut self, index: usize) -> (layer: &mut Layer<T>)
        requires
            index < old(self).spec_layers().len(),
        ensures
            *layer == old(self).spec_layers()[index as int],
            final(self).spec_layers() == old(self).spec_layers().update(
                index as int,
                *final(layer),
            ),
            final(self).spec_loss() == old(self).spec_loss(),
    {
        &mut self.layers[index]
    }

    /// The loss that the network trains against.
    pub fn loss(&self) -> (k: LossKind)
        ensures
            k == self.spec_loss(),
    {
        self.loss
    }

    /// The number of values in a prediction: the outputs of the last
    /// layer, and nothing for a network without layers.
    pub fn output_width(&self) -> (r: Option<usize>)
        ensures
            r == if self.spec_layers().len() == 0 {
                None
            } else {
                Some(self.spec_layers().last().spec_shape().1)
            },
    {
        let n = self.layers.len();
        if n == 0 {
            None
        } else {
            Some(self.layers[n - 1].get_shape().1)
        }
    }

    /// The order of work that trains the network on `samples` rows for
    /// `epochs` epochs, with a snapshot every `report_step` epochs and after
    /// the last; nothing where the sizes make no valid plan.
    pub fn fit(&self, samples: usize, with_test: bool, epochs: usize, report_step: usize) -> (r:
        Option<Schedule>)
        ensures
            ({
                let plan = Plan {
                    epochs,
                    samples,
                    layers: self.spec_layers().len() as usize,
                    report_step,
                    with_test,
                };
                &&& r.is_some() == plan.valid()
                &&& r matches Some(s) ==> s.spec_plan() == plan && s.issued() == 0
            }),
    {
        Schedule::start(
            Plan { epochs, samples, layers: self.layers.len(), report_step, with_test },
        )
    }

    /// The order of work that predicts `rows` rows, each by itself; nothing
    /// for a network without layers.
    pub fn predict(&self, rows: usize) -> (r: Option<Prediction>)
        ensures
            r.is_some() == (self.spec_layers().len() > 0),
            r matches Some(p) ==> p.spec_samples() == rows && p.spec_layers()
                == self.spec_layers().len() && p.issued() == 0,
    {
        Prediction::start(rows, self.layers.len())
    }

    /// The saved form of the network, given the saved state of each layer
    /// in order; nothing where there is not one state per layer.
    pub fn to_model(&self, states: &Vec<String>) -> (r: Option<MlpModel>)
        ensures
            r.is_some() == (states@.len() == self.spec_layers().len()),
            r matches Some(model) ==> saves(*self, states@, model),
    {
        if states.len() != self.layers.len() {
            return None;
        }
        let mut layers: Vec<(String, String)> = Vec::new();
        let mut i: usize = 0;
        while i < self.layers.len()
            invariant
                i <= self.layers@.len(),
                states@.len() == self.layers@.len(),
                layers@.len() == i,
                forall|k: int|
                    0 <= k < i ==> {
                        &&& (#[trigger] layers@[k]).0@ == self.layers@[k].spec_kind().spec_name()
                        &&& layers@[k].1@ == states@[k]@
                    },
            decreases self.layers@.len() - i,
        {
            let name = self.layers[i].get_name();
            let state = states[i].clone();
            layers.push((name, state));
            i = i + 1;
        }
        Some(MlpModel { layers, loss: self.loss.get_name() })
    }
}

} // verus!
