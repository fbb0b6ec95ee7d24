//! The order of work in a training run.
//!
//! Training alternates numeric work on the layers with bookkeeping. The
//! bookkeeping lives here: a [`Schedule`] hands out, one at a time, the
//! actions of the run, and the caller carries each of them out. A
//! [`Prediction`] does the same for a pass that only predicts.

use vstd::prelude::*;

verus! {

/// One unit of work that a training run asks of its driver.
#[derive(Debug, Clone, Copy, PartialEq, Eq, Structural)]
pub enum Action {
    /// Push the current output of row `sample` through layer `layer`.
    Forward { sample: usize, layer: usize },
    /// Add the loss of row `sample` to the epoch's sum and take its gradient.
    Loss { sample: usize },
    /// Pull the current gradient of row `sample` back through layer `layer`.
    Backward { sample: usize, layer: usize },
    /// Measure the accuracies after epoch `epoch` and record its metrics.
    Evaluate { epoch: usize, with_test: bool },
    /// Emit a snapshot report after epoch `epoch`.
    Snapshot { epoch: usize },
    /// Keep the current output of row `sample` as its prediction.
    Collect { sample: usize },
    /// Nothing is left to do.
    Done,
}

/// The sizes that fix a training run.
#[derive(Debug, Clone, Copy, PartialEq, Eq, Structural)]
pub struct Plan {
    pub epochs: usize,
    pub samples: usize,
    pub layers: usize,
    pub report_step: usize,
    pub with_test: bool,
}

impl Plan {
    /// A run of one or more epochs needs a layer to predict with, and a run of
    /// two or more epochs needs a report interval to divide by.
    pub open spec fn valid(&self) -> bool {
        &&& self.epochs == 0 || self.layers > 0
        &&& self.epochs <= 1 || self.report_step > 0
    }
}

/// Whether a snapshot follows epoch `epoch`: after the last epoch, whichever
/// it is, and after every later epoch than the first whose number is a
/// multiple of the interval.
pub open spec fn reports_after(plan: Plan, epoch: nat) -> bool {
    epoch + 1 == plan.epochs || (epoch > 0 && epoch % (plan.report_step as nat) == 0)
}

/// The layers in order, first to last.
pub open spec fn forward_pass(sample: nat, layers: nat) -> Seq<Action> {
    Seq::new(layers, |l: int| Action::Forward { sample: sample as usize, layer: l as usize })
}

/// The layers in reverse order, last to first.
pub open spec fn backward_pass(sample: nat, layers: nat) -> Seq<Action> {
    Seq::new(
        layers,
        |k: int| Action::Backward { sample: sample as usize, layer: (layers - 1 - k) as usize },
    )
}

/// What one training row asks for: forward, loss, backward.
pub open spec fn sample_trace(sample: nat, layers: nat) -> Seq<Action> {
    forward_pass(sample, layers) + seq![Action::Loss { sample: sample as usize }] + backward_pass(
        sample,
        layers,
    )
}

/// The first `count` training rows, in their given order.
pub open spec fn samples_trace(count: nat, layers: nat) -> Seq<Action>
    decreases count,
{
    if count == 0 {
        Seq::empty()
    } else {
        samples_trace((count - 1) as nat, layers) + sample_trace((count - 1) as nat, layers)
    }
}

/// What the end of epoch `epoch` asks for.
pub open spec fn epoch_end(plan: Plan, epoch: nat) -> Seq<Action> {
    let evaluate = Action::Evaluate { epoch: epoch as usize, with_test: plan.with_test };
    if reports_after(plan, epoch) {
        seq![evaluate, Action::Snapshot { epoch: epoch as usize }]
    } else {
        seq![evaluate]
    }
}

/// One epoch: every training row, then the evaluation, then the snapshot if one is due.
pub open spec fn epoch_trace(plan: Plan, epoch: nat) -> Seq<Action> {
    samples_trace(plan.samples as nat, plan.layers as nat) + epoch_end(plan, epoch)
}

/// The first `count` epochs.
pub open spec fn epochs_trace(plan: Plan, count: nat) -> Seq<Action>
    decreases count,
{
    if count == 0 {
        Seq::empty()
    } else {
        epochs_trace(plan, (count - 1) as nat) + epoch_trace(plan, (count - 1) as nat)
    }
}

/// The whole run.
pub open spec fn trace(plan: Plan) -> Seq<Action> {
    epochs_trace(plan, plan.epochs as nat)
}

/// Whether a snapshot follows epoch `epoch` of a run of `epochs` epochs.
pub fn should_report(epoch: usize, epochs: usize, report_step: usize) -> (r: bool)
    requires
        epoch == 0 || report_step > 0,
    ensures
        r == (epoch + 1 == epochs || (epoch > 0 && epoch as nat % report_step as nat == 0)),
{
    (epochs > 0 && epoch == epochs - 1) || (epoch > 0 && epoch % report_step == 0)
}

/// In the first `count` epochs, the actions of epoch `epoch` stand together,
/// right behind those of the epochs before it.
pub proof fn lemma_epochs_index(plan: Plan, count: nat, epoch: nat, j: int)
    requires
        epoch < count,
        0 <= j < epoch_trace(plan, epoch).len(),
    ensures
        epochs_trace(plan, epoch).len() + j < epochs_trace(plan, count).len(),
        epochs_trace(plan, count)[epochs_trace(plan, epoch).len() + j] == epoch_trace(plan, epoch)[j],
    decreases count,
{
    if epoch + 1 < count {
        lemma_epochs_index(plan, (count - 1) as nat, epoch, j);
    }
}

/// Among the first `count` rows, the actions of row `sample` stand together,
/// right behind those of the rows before it.
pub proof fn lemma_samples_index(count: nat, layers: nat, sample: nat, j: int)
    requires
        sample < count,
        0 <= j < sample_trace(sample, layers).len(),
    ensures
        samples_trace(sample, layers).len() + j < samples_trace(count, layers).len(),
        samples_trace(count, layers)[samples_trace(sample, layers).len() + j] == sample_trace(
            sample,
            layers,
        )[j],
    decreases count,
{
    if sample + 1 < count {
        lemma_samples_index((count - 1) as nat, layers, sample, j);
    }
}

/// Where the work of one row stands in the whole run.
proof fn lemma_in_sample(plan: Plan, epoch: nat, sample: nat, j: int)
    requires
        epoch < plan.epochs,
        sample < plan.samples,
        0 <= j < 2 * plan.layers + 1,
    ensures
        epochs_trace(plan, epoch).len() + samples_trace(sample, plan.layers as nat).len() + j
            < trace(plan).len(),
        trace(plan)[epochs_trace(plan, epoch).len() + samples_trace(
            sample,
            plan.layers as nat,
        ).len() + j] == sample_trace(sample, plan.layers as nat)[j],
        samples_trace(sample + 1, plan.layers as nat).len() == samples_trace(
            sample,
            plan.layers as nat,
        ).len() + 2 * plan.layers + 1,
{
    let layers = plan.layers as nat;
    let within = samples_trace(sample, layers).len() + j;
    lemma_samples_index(plan.samples as nat, layers, sample, j);
    assert(epoch_trace(plan, epoch)[within] == samples_trace(plan.samples as nat, layers)[within]);
    lemma_epochs_index(plan, plan.epochs as nat, epoch, within);
}

/// Where the end of one epoch stands in the whole run.
proof fn lemma_in_epoch_end(plan: Plan, epoch: nat, j: int)
    requires
        epoch < plan.epochs,
        0 <= j < epoch_end(plan, epoch).len(),
    ensures
        epochs_trace(plan, epoch).len() + samples_trace(
            plan.samples as nat,
            plan.layers as nat,
        ).len() + j < trace(plan).len(),
        trace(plan)[epochs_trace(plan, epoch).len() + samples_trace(
            plan.samples as nat,
            plan.layers as nat,
        ).len() + j] == epoch_end(plan, epoch)[j],
        epochs_trace(plan, epoch + 1).len() == epochs_trace(plan, epoch).len() + samples_trace(
            plan.samples as nat,
            plan.layers as nat,
        ).len() + epoch_end(plan, epoch).len(),
{
    let within = samples_trace(plan.samples as nat, plan.layers as nat).len() + j;
    assert(epoch_trace(plan, epoch)[within] == epoch_end(plan, epoch)[j]);
    lemma_epochs_index(plan, plan.epochs as nat, epoch, within);
}

/// What a schedule does next.
#[derive(Debug, Clone, Copy, PartialEq, Eq, Structural)]
enum Stage {
    Forward,
    Loss,
    Backward,
    Evaluate,
    Snapshot,
    Done,
}

/// A training run in progress: its plan and how far it has come.
pub struct Schedule {
    plan: Plan,
    epoch: usize,
    sample: usize,
    layer: usize,
    stage: Stage,
}

impl Schedule {
    /// The plan that the run follows.
    pub closed spec fn spec_plan(&self) -> Plan {
        self.plan
    }

    /// How many actions the run has handed out so far.
    pub closed spec fn issued(&self) -> nat {
        let layers = self.plan.layers as nat;
        let before = epochs_trace(self.plan, self.epoch as nat).len();
        let rows = samples_trace(self.sample as nat, layers).len();
        let all_rows = samples_trace(self.plan.samples as nat, layers).len();
        match self.stage {
            Stage::Forward => before + rows + self.layer as nat,
            Stage::Loss => before + rows + layers,
            Stage::Backward => (before + rows + layers + 1 + (layers - 1 - self.layer)) as nat,
            Stage::Evaluate => before + all_rows,
            Stage::Snapshot => before + all_rows + 1,
            Stage::Done => trace(self.plan).len(),
        }
    }

    /// The plan is valid and the run stands at a place of it.
    #[verifier::type_invariant]
    pub closed spec fn wf(&self) -> bool {
        &&& self.plan.valid()
        &&& match self.stage {
            Stage::Forward | Stage::Backward => {
                &&& self.epoch < self.plan.epochs
                &&& self.sample < self.plan.samples
                &&& self.layer < self.plan.layers
            },
            Stage::Loss => self.epoch < self.plan.epochs && self.sample < self.plan.samples,
            Stage::Evaluate => self.epoch < self.plan.epochs,
            Stage::Snapshot => self.epoch < self.plan.epochs && reports_after(
                self.plan,
                self.epoch as nat,
            ),
            Stage::Done => true,
        }
    }

    /// A run at its beginning, or nothing where the plan is not valid.
    pub fn start(plan: Plan) -> (r: Option<Schedule>)
        ensures
            r.is_some() == plan.valid(),
            r matches Some(s) ==> s.spec_plan() == plan && s.issued() == 0,
    {
        if (plan.epochs > 0 && plan.layers == 0) || (plan.epochs > 1 && plan.report_step == 0) {
            return None;
        }
        let stage = if plan.epochs == 0 {
            Stage::Done
        } else if plan.samples == 0 {
            Stage::Evaluate
        } else {
            Stage::Forward
        };
        Some(Schedule { plan, epoch: 0, sample: 0, layer: 0, stage })
    }

    /// The plan that the run follows.
    #[verifier::when_used_as_spec(spec_plan)]
    pub fn plan(&self) -> (p: Plan)
        ensures
            p == self.spec_plan(),
    {
        self.plan
    }

    /// Whether every action has been handed out.
    pub fn is_done(&self) -> (r: bool)
        ensures
            r == (self.issued() >= trace(self.spec_plan()).len()),
    {
        proof {
            use_type_invariant(self);
            self.lemma_issued_bound();
        }
        match self.stage {
            Stage::Done => true,
            _ => false,
        }
    }

    /// Before the end, the count of actions handed out is short of the whole run.
    proof fn lemma_issued_bound(&self)
        requires
            self.wf(),
        ensures
            self.stage != Stage::Done ==> self.issued() < trace(self.plan).len(),
            self.stage == Stage::Done ==> self.issued() == trace(self.plan).len(),
    {
        let layers = self.plan.layers as nat;
        match self.stage {
            Stage::Forward => {
                lemma_in_sample(self.plan, self.epoch as nat, self.sample as nat, self.layer as int);
            },
            Stage::Loss => {
                lemma_in_sample(self.plan, self.epoch as nat, self.sample as nat, layers as int);
            },
            Stage::Backward => {
                lemma_in_sample(
                    self.plan,
                    self.epoch as nat,
                    self.sample as nat,
                    layers + 1 + (layers - 1 - self.layer),
                );
            },
            Stage::Evaluate => {
                lemma_in_epoch_end(self.plan, self.epoch as nat, 0);
            },
            Stage::Snapshot => {
                lemma_in_epoch_end(self.plan, self.epoch as nat, 1);
            },
            Stage::Done => {},
        }
    }

    /// The run right after epoch `epoch` is complete.
    fn after_epoch(plan: Plan, epoch: usize) -> (r: Schedule)
        requires
            plan.valid(),
            epoch < plan.epochs,
        ensures
            r.plan == plan,
            r.issued() == epochs_trace(plan, epoch as nat + 1).len(),
    {
        if epoch + 1 < plan.epochs {
            let stage = if plan.samples == 0 {
                Stage::Evaluate
            } else {
                Stage::Forward
            };
            Schedule { plan, epoch: epoch + 1, sample: 0, layer: 0, stage }
        } else {
            Schedule { plan, epoch, sample: 0, layer: 0, stage: Stage::Done }
        }
    }

    /// Hands out the next action of the run, and `Done` once the run is over.
    pub fn advance(&mut self) -> (action: Action)
        ensures
            final(self).spec_plan() == old(self).spec_plan(),
            old(self).issued() < trace(old(self).spec_plan()).len() ==> {
                &&& action == trace(old(self).spec_plan())[old(self).issued() as int]
                &&& final(self).issued() == old(self).issued() + 1
            },
            old(self).issued() >= trace(old(self).spec_plan()).len() ==> {
                &&& action == Action::Done
                &&& final(self).issued() == old(self).issued()
            },
    {
        proof {
            use_type_invariant(&*self);
            self.lemma_issued_bound();
        }
        let plan = self.plan;
        let epoch = self.epoch;
        let sample = self.sample;
        let layer = self.layer;
        let ghost layers = plan.layers as nat;
        match self.stage {
            Stage::Forward => {
                proof {
                    lemma_in_sample(plan, epoch as nat, sample as nat, layer as int);
                }
                if layer + 1 < plan.layers {
                    *self = Schedule { plan, epoch, sample, layer: layer + 1, stage: Stage::Forward };
                } else {
                    *self = Schedule { plan, epoch, sample, layer, stage: Stage::Loss };
                }
                Action::Forward { sample, layer }
            },
            Stage::Loss => {
                proof {
                    lemma_in_sample(plan, epoch as nat, sample as nat, layers as int);
                }
                *self = Schedule {
                    plan,
                    epoch,
                    sample,
                    layer: plan.layers - 1,
                    stage: Stage::Backward,
                };
                Action::Loss { sample }
            },
            Stage::Backward => {
                proof {
                    lemma_in_sample(
                        plan,
                        epoch as nat,
                        sample as nat,
                        layers + 1 + (layers - 1 - layer),
                    );
                }
                if layer > 0 {
                    *self = Schedule { plan, epoch, sample, layer: layer - 1, stage: Stage::Backward };
                } else if sample + 1 < plan.samples {
                    *self = Schedule {
                        plan,
                        epoch,
                        sample: sample + 1,
                        layer: 0,
                        stage: Stage::Forward,
                    };
                } else {
                    *self = Schedule { plan, epoch, sample, layer, stage: Stage::Evaluate };
                }
                Action::Backward { sample, layer }
            },
            Stage::Evaluate => {
                proof {
                    lemma_in_epoch_end(plan, epoch as nat, 0);
                }
                if should_report(epoch, plan.epochs, plan.report_step) {
                    *self = Schedule { plan, epoch, sample, layer, stage: Stage::Snapshot };
                } else {
                    *self = Schedule::after_epoch(plan, epoch);
                }
                Action::Evaluate { epoch, with_test: plan.with_test }
            },
            Stage::Snapshot => {
                proof {
                    lemma_in_epoch_end(plan, epoch as nat, 1);
                }
                *self = Schedule::after_epoch(plan, epoch);
                Action::Snapshot { epoch }
            },
            Stage::Done => Action::Done,
        }
    }
}

/// What predicting one row asks for: the layers in order, then keeping
/// the outcome.
pub open spec fn row_trace(sample: nat, layers: nat) -> Seq<Action> {
    forward_pass(sample, layers) + seq![Action::Collect { sample: sample as usize }]
}

/// Predicting the first `count` rows, each by itself and in the given order.
pub open spec fn predict_trace(count: nat, layers: nat) -> Seq<Action>
    decreases count,
{
    if count == 0 {
        Seq::empty()
    } else {
        predict_trace((count - 1) as nat, layers) + row_trace((count - 1) as nat, layers)
    }
}

/// Among the first `count` rows, the actions of row `sample` stand together,
/// right behind those of the rows before it.
pub proof fn lemma_predict_index(count: nat, layers: nat, sample: nat, j: int)
    requires
        sample < count,
        0 <= j <= layers,
    ensures
        predict_trace(sample, layers).len() + j < predict_trace(count, layers).len(),
        predict_trace(count, layers)[predict_trace(sample, layers).len() + j] == row_trace(
            sample,
            layers,
        )[j],
        predict_trace(sample + 1, layers).len() == predict_trace(sample, layers).len() + layers + 1,
    decreases count,
{
    if sample + 1 < count {
        lemma_predict_index((count - 1) as nat, layers, sample, j);
    }
}

/// A prediction pass in progress over `samples` rows and `layers` layers.
pub struct Prediction {
    samples: usize,
    layers: usize,
    sample: usize,
    layer: usize,
}

impl Prediction {
    /// The number of rows to predict.
    pub closed spec fn spec_samples(&self) -> usize {
        self.samples
    }

    /// The number of layers of the network.
    pub closed spec fn spec_layers(&self) -> usize {
        self.layers
    }

    /// How many actions the pass has handed out so far.
    pub closed spec fn issued(&self) -> nat {
        predict_trace(self.sample as nat, self.layers as nat).len() + self.layer as nat
    }

    /// The network has a layer and the pass stands at a place of it.
    #[verifier::type_invariant]
    pub closed spec fn wf(&self) -> bool {
        &&& self.layers > 0
        &&& self.sample <= self.samples
        &&& self.layer <= self.layers
        &&& self.sample == self.samples ==> self.layer == 0
    }

    /// A pass at its beginning, or nothing for a network without layers.
    pub fn start(samples: usize, layers: usize) -> (r: Option<Prediction>)
        ensures
            r.is_some() == (layers > 0),
            r matches Some(p) ==> p.spec_samples() == samples && p.spec_layers() == layers
                && p.issued() == 0,
    {
        if layers == 0 {
            None
        } else {
            Some(Prediction { samples, layers, sample: 0, layer: 0 })
        }
    }

    /// Whether every action has been handed out.
    pub fn is_done(&self) -> (r: bool)
        ensures
            r == (self.issued() >= predict_trace(
                self.spec_samples() as nat,
                self.spec_layers() as nat,
            ).len()),
    {
        proof {
            use_type_invariant(self);
            if self.sample < self.samples {
                lemma_predict_index(
                    self.samples as nat,
                    self.layers as nat,
                    self.sample as nat,
                    self.layer as int,
                );
            }
        }
        self.sample == self.samples
    }

    /// Hands out the next action of the pass, and `Done` once the pass is over.
    pub fn advance(&mut self) -> (action: Action)
        ensures
            final(self).spec_samples() == old(self).spec_samples(),
            final(self).spec_layers() == old(self).spec_layers(),
            old(self).issued() < predict_trace(
                old(self).spec_samples() as nat,
                old(self).spec_layers() as nat,
            ).len() ==> {
                &&& action == predict_trace(
                    old(self).spec_samples() as nat,
                    old(self).spec_layers() as nat,
                )[old(self).issued() as int]
                &&& final(self).issued() == old(self).issued() + 1
            },
            old(self).issued() >= predict_trace(
                old(self).spec_samples() as nat,
                old(self).spec_layers() as nat,
            ).len() ==> {
                &&& action == Action::Done
                &&& final(self).issued() == old(self).issued()
            },
    {
        proof {
            use_type_invariant(&*self);
        }
        let samples = self.samples;
        let layers = self.layers;
        let sample = self.sample;
        let layer = self.layer;
        if sample == samples {
            return Action::Done;
        }
        proof {
            lemma_predict_index(samples as nat, layers as nat, sample as nat, layer as int);
        }
        if layer < layers {
            *self = Prediction { samples, layers, sample, layer: layer + 1 };
            Action::Forward { sample, layer }
        } else {
            *self = Prediction { samples, layers, sample: sample + 1, layer: 0 };
            Action::Collect { sample }
        }
    }
}

} // verus!
