//! A pipeline, a loss and an optimizer put together: one training step.

use vstd::prelude::*;
use crate::losses::LossFunction;
use crate::networks::block::{lemma_backward_after_forward, lemma_params_stay};
use crate::networks::layer::Layer;
use crate::optimizers::{param_ids, Optimizer, Step};
use crate::params::param::{param_views, ParamView};

verus! {

/// The identities of the tensors of a list.
pub open spec fn view_ids(params: Seq<ParamView>) -> Seq<usize> {
    params.map_values(|p: ParamView| p.id)
}

/// What one training step does, for the arithmetic to follow.
pub struct StepPlan {
    /// The shape of what the pipeline gives for the batch.
    pub output: Vec<usize>,
    /// The number of rows that the loss is averaged over.
    pub rows: usize,
    /// The shape of the gradient that the loss sends back.
    pub grad: Vec<usize>,
    /// The shape of the gradient that comes out at the front of the pipeline.
    pub input_grad: Vec<usize>,
    /// The optimizer's step for each learnable tensor of the pipeline.
    pub steps: Vec<Step>,
}

/// A pipeline with the loss that judges it and the optimizer that trains it.
pub struct BaseModel {
    pub main_layer: Layer,
    pub loss_func: LossFunction,
    pub optimizer: Optimizer,
}

impl BaseModel {
    /// Puts a pipeline, a loss and an optimizer together.
    pub fn new(main_layer: Layer, loss_func: LossFunction, optimizer: Optimizer) -> (model: Self)
        ensures
            model.main_layer == main_layer,
            model.loss_func == loss_func,
            model.optimizer == optimizer,
    {
        BaseModel { main_layer, loss_func, optimizer }
    }

    /// Whether the pipeline takes the input and the loss takes what the pipeline
    /// gives for it, together with the target.
    pub open spec fn scores(self, input: Seq<usize>, target: Seq<usize>) -> bool {
        &&& self.main_layer@.accepts(input)
        &&& self.loss_func.accepts(self.main_layer@.output(input), target)
    }

    /// Whether a training step on this batch can run to its end: the batch can be
    /// scored, every dropout layer is training, and the optimizer has room for the
    /// pipeline's tensors.
    pub open spec fn trains_on(self, input: Seq<usize>, target: Seq<usize>) -> bool {
        &&& self.scores(input, target)
        &&& self.main_layer@.remembers()
        &&& self.optimizer.has_room(self.main_layer@.params().len())
    }

    /// Runs the pipeline forward on an input shape.
    pub fn predict(&mut self, input: &Vec<usize>) -> (output: Vec<usize>)
        requires
            old(self).main_layer@.accepts(input@),
        ensures
            output@ == old(self).main_layer@.output(input@),
            final(self).main_layer@ == old(self).main_layer@.after_forward(input@),
            final(self).loss_func == old(self).loss_func,
            final(self).optimizer == old(self).optimizer,
    {
        self.main_layer.forward(input)
    }

    /// Tells whether a batch can be scored.
    pub fn can_score(&self, input: &Vec<usize>, target: &Vec<usize>) -> (yes: bool)
        ensures
            yes == self.scores(input@, target@),
    {
        if !self.main_layer.can_forward(input) {
            return false;
        }
        let output = self.main_layer.output_shape(input);
        self.loss_func.can_compare(&output, target)
    }

    /// Runs the pipeline forward and gives the number of rows that the loss is
    /// averaged over.
    pub fn loss(&mut self, input: &Vec<usize>, target: &Vec<usize>) -> (rows: usize)
        requires
            old(self).scores(input@, target@),
        ensures
            rows == old(self).main_layer@.output(input@)[0],
            final(self).main_layer@ == old(self).main_layer@.after_forward(input@),
            final(self).loss_func == old(self).loss_func,
            final(self).optimizer == old(self).optimizer,
    {
        let output = self.main_layer.forward(input);
        self.loss_func.forward(&output, target)
    }

    /// Tells whether a training step on this batch can run to its end.
    pub fn can_train_on(&self, input: &Vec<usize>, target: &Vec<usize>) -> (yes: bool)
        ensures
            yes == self.trains_on(input@, target@),
    {
        if !self.can_score(input, target) {
            return false;
        }
        if !self.main_layer.remembers() {
            return false;
        }
        let params = self.main_layer.params();
        assert(param_views(params@).len() == params@.len());
        self.optimizer.can_update(params.len())
    }

    /// One training step on a batch: the pipeline runs forward, the loss is taken
    /// and sends its gradient back, the pipeline runs backward, and the optimizer
    /// steps every learnable tensor of the pipeline, in the pipeline's order.
    pub fn step(&mut self, input: &Vec<usize>, target: &Vec<usize>) -> (plan: StepPlan)
        requires
            old(self).trains_on(input@, target@),
        ensures
            plan.output@ == old(self).main_layer@.output(input@),
            plan.rows == plan.output@[0],
            plan.grad@ == plan.output@,
            plan.input_grad@ == input@,
            final(self).main_layer@ == old(self).main_layer@.after_forward(input@),
            final(self).loss_func == old(self).loss_func,
            old(self).optimizer.updates_to(
                final(self).optimizer,
                view_ids(old(self).main_layer@.params()),
                plan.steps@,
            ),
    {
        proof {
            lemma_backward_after_forward(self.main_layer@, input@);
            lemma_params_stay(self.main_layer@, input@, true);
        }
        let output = self.main_layer.forward(input);
        let rows = self.loss_func.forward(&output, target);
        let grad = self.loss_func.backward(&output, target);
        let input_grad = self.main_layer.backward(&grad);
        let params = self.main_layer.params();
        assert(param_ids(params@) =~= view_ids(param_views(params@)));
        let steps = self.optimizer.update(&params);
        StepPlan { output, rows, grad, input_grad, steps }
    }
}

} // verus!
