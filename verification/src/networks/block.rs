//! A chain of layers that works as one layer.

use vstd::prelude::*;
use crate::networks::layer::{
    chain_accepts, chain_accepts_grad, chain_after_forward, chain_input_grad, chain_output,
    chain_params, chain_remembers, chain_with_training, layer_views, lemma_layer_views, Layer,
    LayerView,
};
use crate::params::param::{param_views, LearnableParameter};
use crate::shape::{copy_shape, matrix_of};

verus! {

/// Layers in a row. The forward pass runs them from the first to the last, the
/// backward pass from the last to the first.
pub struct Sequential {
    layers: Vec<Layer>,
}

impl View for Sequential {
    type V = LayerView;

    closed spec fn view(&self) -> LayerView
        decreases self,
    {
        LayerView::Sequential { layers: layer_views(self.layers@) }
    }
}

/// A chain cut after its first `k + 1` layers gives what layer `k` gives for what
/// the first `k` layers gave.
pub proof fn lemma_chain_output_step(layers: Seq<LayerView>, input: Seq<usize>, k: int)
    requires
        0 <= k < layers.len(),
    ensures
        chain_output(layers.take(k + 1), input) == layers[k].output(
            chain_output(layers.take(k), input),
        ),
{
    assert(layers.take(k + 1).drop_last() =~= layers.take(k));
}

/// In a chain that takes an input, layer `k` takes what the first `k` layers gave.
pub proof fn lemma_chain_accepts_at(layers: Seq<LayerView>, input: Seq<usize>, k: int)
    requires
        0 <= k < layers.len(),
        chain_accepts(layers, input),
    ensures
        chain_accepts(layers.take(k), input),
        layers[k].accepts(chain_output(layers.take(k), input)),
    decreases layers.len(),
{
    if k == layers.len() - 1 {
        assert(layers.take(k) =~= layers.drop_last());
    } else {
        lemma_chain_accepts_at(layers.drop_last(), input, k);
        assert(layers.drop_last().take(k) =~= layers.take(k));
    }
}

/// In a chain that keeps what its backward pass needs, every layer does.
pub proof fn lemma_chain_remembers_at(layers: Seq<LayerView>, k: int)
    requires
        0 <= k < layers.len(),
        chain_remembers(layers),
    ensures
        layers[k].remembers(),
    decreases layers.len(),
{
    if k < layers.len() - 1 {
        lemma_chain_remembers_at(layers.drop_last(), k);
    }
}

/// After a forward pass, layer `k` of a chain is as after a forward pass on what
/// the first `k` layers gave.
pub proof fn lemma_chain_after_forward_at(layers: Seq<LayerView>, input: Seq<usize>)
    ensures
        chain_after_forward(layers, input).len() == layers.len(),
        forall|k: int|
            0 <= k < layers.len() ==> (#[trigger] chain_after_forward(layers, input)[k])
                == layers[k].after_forward(chain_output(layers.take(k), input)),
    decreases layers.len(),
{
    if layers.len() > 0 {
        let front = layers.drop_last();
        lemma_chain_after_forward_at(front, input);
        assert forall|k: int| 0 <= k < layers.len() implies (#[trigger] chain_after_forward(
            layers,
            input,
        )[k]) == layers[k].after_forward(chain_output(layers.take(k), input)) by {
            if k < front.len() {
                assert(front.take(k) =~= layers.take(k));
            } else {
                assert(layers.take(k) =~= front);
            }
        }
    }
}

/// Telling a chain whether it is training tells each of its layers.
pub proof fn lemma_chain_with_training_at(layers: Seq<LayerView>, on: bool)
    ensures
        chain_with_training(layers, on).len() == layers.len(),
        forall|k: int|
            0 <= k < layers.len() ==> (#[trigger] chain_with_training(layers, on)[k])
                == layers[k].with_training(on),
    decreases layers.len(),
{
    if layers.len() > 0 {
        lemma_chain_with_training_at(layers.drop_last(), on);
    }
}

impl Sequential {
    /// The chain of the given layers, in their order.
    pub fn new(layers: Vec<Layer>) -> (chain: Self)
        ensures
            chain@ == (LayerView::Sequential { layers: layer_views(layers@) }),
    {
        Sequential { layers }
    }

    /// How many layers the chain has.
    pub fn len(&self) -> (n: usize)
        ensures
            self@ matches LayerView::Sequential { layers } && layers.len() == n,
    {
        proof {
            lemma_layer_views(self.layers@);
        }
        self.layers.len()
    }

    /// The layer at place `i` of the chain.
    pub fn layer(&self, i: usize) -> (layer: &Layer)
        requires
            self@ matches LayerView::Sequential { layers } && i < layers.len(),
        ensures
            self@ matches LayerView::Sequential { layers } && layer@ == layers[i as int],
    {
        proof {
            lemma_layer_views(self.layers@);
        }
        &self.layers[i]
    }

    /// Tells whether a forward pass takes this input shape: whether each layer
    /// takes what the one before it gives.
    pub fn can_forward(&self, input: &Vec<usize>) -> (yes: bool)
        ensures
            yes == self@.accepts(input@),
        decreases self,
    {
        let ghost views = layer_views(self.layers@);
        proof {
            lemma_layer_views(self.layers@);
            assert(views.take(0) =~= Seq::<LayerView>::empty());
        }
        let mut shape = copy_shape(input);
        let mut i: usize = 0;
        while i < self.layers.len()
            invariant
                i <= self.layers.len(),
                views == layer_views(self.layers@),
                views.len() == self.layers.len(),
                forall|k: int| 0 <= k < views.len() ==> (#[trigger] views[k]) == self.layers@[k]@,
                shape@ == chain_output(views.take(i as int), input@),
                chain_accepts(views.take(i as int), input@),
            decreases self.layers.len() - i,
        {
            let layer = &self.layers[i];
            assert(views[i as int] == layer@);
            if !layer.can_forward(&shape) {
                proof {
                    if chain_accepts(views, input@) {
                        lemma_chain_accepts_at(views, input@, i as int);
                    }
                }
                return false;
            }
            shape = layer.output_shape(&shape);
            proof {
                assert(views.take(i + 1).drop_last() =~= views.take(i as int));
                assert(views.take(i + 1).last() == views[i as int]);
            }
            i += 1;
        }
        assert(views.take(views.len() as int) =~= views);
        true
    }

    /// The shape that a forward pass would give, with nothing kept.
    pub fn output_shape(&self, input: &Vec<usize>) -> (output: Vec<usize>)
        requires
            self@.accepts(input@),
        ensures
            output@ == self@.output(input@),
        decreases self,
    {
        let ghost views = layer_views(self.layers@);
        proof {
            lemma_layer_views(self.layers@);
            assert(views.take(0) =~= Seq::<LayerView>::empty());
        }
        let mut shape = copy_shape(input);
        let mut i: usize = 0;
        while i < self.layers.len()
            invariant
                i <= self.layers.len(),
                views == layer_views(self.layers@),
                views.len() == self.layers.len(),
                chain_accepts(views, input@),
                forall|k: int| 0 <= k < views.len() ==> (#[trigger] views[k]) == self.layers@[k]@,
                shape@ == chain_output(views.take(i as int), input@),
            decreases self.layers.len() - i,
        {
            let layer = &self.layers[i];
            proof {
                lemma_chain_accepts_at(views, input@, i as int);
                lemma_chain_output_step(views, input@, i as int);
                assert(views[i as int] == layer@);
            }
            shape = layer.output_shape(&shape);
            i += 1;
        }
        assert(views.take(views.len() as int) =~= views);
        shape
    }

    /// Runs the forward pass through the layers in their order: each one works on
    /// what the one before it gave, and keeps what its backward pass will need.
    pub fn forward(&mut self, input: &Vec<usize>) -> (output: Vec<usize>)
        requires
            old(self)@.accepts(input@),
        ensures
            output@ == old(self)@.output(input@),
            final(self)@ == old(self)@.after_forward(input@),
        decreases *old(self),
    {
        let ghost views = layer_views(old(self).layers@);
        proof {
            lemma_layer_views(self.layers@);
            lemma_chain_after_forward_at(views, input@);
            assert(views.take(0) =~= Seq::<LayerView>::empty());
        }
        let n = self.layers.len();
        let mut shape = copy_shape(input);
        let mut i: usize = 0;
        while i < n
            invariant
                i <= n,
                n == self.layers.len(),
                n == old(self).layers.len(),
                views == layer_views(old(self).layers@),
                views.len() == n,
                chain_accepts(views, input@),
                forall|k: int| 0 <= k < n ==> (#[trigger] views[k]) == old(self).layers@[k]@,
                forall|k: int| i <= k < n ==> self.layers@[k] == old(self).layers@[k],
                forall|k: int|
                    0 <= k < i ==> (#[trigger] self.layers@[k])@ == views[k].after_forward(
                        chain_output(views.take(k), input@),
                    ),
                shape@ == chain_output(views.take(i as int), input@),
            decreases n - i,
        {
            proof {
                lemma_chain_accepts_at(views, input@, i as int);
                lemma_chain_output_step(views, input@, i as int);
            }
            shape = self.layers[i].forward(&shape);
            i += 1;
        }
        proof {
            assert(views.take(views.len() as int) =~= views);
            lemma_layer_views(self.layers@);
            assert(layer_views(self.layers@) =~= chain_after_forward(views, input@));
        }
        shape
    }

    /// Tells whether a backward pass takes this gradient shape: whether each
    /// layer, from the last one back, takes what the one after it gives.
    pub fn can_backward(&self, grad: &Vec<usize>) -> (yes: bool)
        ensures
            yes == self@.accepts_grad(grad@),
        decreases self,
    {
        let ghost views = layer_views(self.layers@);
        proof {
            lemma_layer_views(self.layers@);
            assert(views.take(views.len() as int) =~= views);
        }
        let mut shape = copy_shape(grad);
        let mut i: usize = self.layers.len();
        while i > 0
            invariant
                i <= self.layers.len(),
                views == layer_views(self.layers@),
                views.len() == self.layers.len(),
                forall|k: int| 0 <= k < views.len() ==> (#[trigger] views[k]) == self.layers@[k]@,
                chain_accepts_grad(views, grad@) == chain_accepts_grad(
                    views.take(i as int),
                    shape@,
                ),
            decreases i,
        {
            proof {
                assert(views.take(i as int).drop_last() =~= views.take(i - 1));
                assert(views.take(i as int).last() == views[i - 1]);
            }
            if !self.layers[i - 1].can_backward(&shape) {
                return false;
            }
            shape = self.layers[i - 1].backward(&shape);
            i -= 1;
        }
        true
    }

    /// Runs the backward pass through the layers from the last to the first: each
    /// one works on the gradient that the one after it gave.
    pub fn backward(&self, grad: &Vec<usize>) -> (input_grad: Vec<usize>)
        requires
            self@.accepts_grad(grad@),
        ensures
            input_grad@ == self@.input_grad(grad@),
        decreases self,
    {
        let ghost views = layer_views(self.layers@);
        proof {
            lemma_layer_views(self.layers@);
            assert(views.take(views.len() as int) =~= views);
        }
        let mut shape = copy_shape(grad);
        let mut i: usize = self.layers.len();
        while i > 0
            invariant
                i <= self.layers.len(),
                views == layer_views(self.layers@),
                views.len() == self.layers.len(),
                forall|k: int| 0 <= k < views.len() ==> (#[trigger] views[k]) == self.layers@[k]@,
                chain_accepts_grad(views.take(i as int), shape@),
                chain_input_grad(views, grad@) == chain_input_grad(views.take(i as int), shape@),
            decreases i,
        {
            proof {
                assert(views.take(i as int).drop_last() =~= views.take(i - 1));
                assert(views.take(i as int).last() == views[i - 1]);
            }
            shape = self.layers[i - 1].backward(&shape);
            i -= 1;
        }
        shape
    }

    /// Tells whether every layer keeps what its backward pass needs.
    pub fn remembers(&self) -> (yes: bool)
        ensures
            yes == self@.remembers(),
        decreases self,
    {
        let ghost views = layer_views(self.layers@);
        proof {
            lemma_layer_views(self.layers@);
            assert(views.take(0) =~= Seq::<LayerView>::empty());
        }
        let mut i: usize = 0;
        while i < self.layers.len()
            invariant
                i <= self.layers.len(),
                views == layer_views(self.layers@),
                views.len() == self.layers.len(),
                forall|k: int| 0 <= k < views.len() ==> (#[trigger] views[k]) == self.layers@[k]@,
                chain_remembers(views.take(i as int)),
            decreases self.layers.len() - i,
        {
            let layer = &self.layers[i];
            assert(views[i as int] == layer@);
            if !layer.remembers() {
                proof {
                    if chain_remembers(views) {
                        lemma_chain_remembers_at(views, i as int);
                    }
                }
                return false;
            }
            proof {
                assert(views.take(i + 1).drop_last() =~= views.take(i as int));
                assert(views.take(i + 1).last() == views[i as int]);
            }
            i += 1;
        }
        assert(views.take(views.len() as int) =~= views);
        true
    }

    /// The learnable tensors of the layers, those of the first layer first.
    pub fn params(&self) -> (params: Vec<LearnableParameter>)
        ensures
            param_views(params@) == self@.params(),
        decreases self,
    {
        let ghost views = layer_views(self.layers@);
        proof {
            lemma_layer_views(self.layers@);
            assert(views.take(0) =~= Seq::<LayerView>::empty());
        }
        let mut params: Vec<LearnableParameter> = Vec::new();
        assert(param_views(params@) =~= chain_params(views.take(0)));
        let mut i: usize = 0;
        while i < self.layers.len()
            invariant
                i <= self.layers.len(),
                views == layer_views(self.layers@),
                views.len() == self.layers.len(),
                forall|k: int| 0 <= k < views.len() ==> (#[trigger] views[k]) == self.layers@[k]@,
                param_views(params@) == chain_params(views.take(i as int)),
            decreases self.layers.len() - i,
        {
            let mut more = self.layers[i].params();
            proof {
                assert(views.take(i + 1).drop_last() =~= views.take(i as int));
                assert(views.take(i + 1).last() == views[i as int]);
                assert(param_views(params@ + more@) =~= param_views(params@) + param_views(more@));
            }
            params.append(&mut more);
            i += 1;
        }
        assert(views.take(views.len() as int) =~= views);
        params
    }

    /// Tells every layer of the chain whether it is training.
    pub fn set_training(&mut self, training: bool)
        ensures
            final(self)@ == old(self)@.with_training(training),
        decreases *old(self),
    {
        let ghost views = layer_views(old(self).layers@);
        proof {
            lemma_layer_views(self.layers@);
            lemma_chain_with_training_at(views, training);
        }
        let n = self.layers.len();
        let mut i: usize = 0;
        while i < n
            invariant
                i <= n,
                n == self.layers.len(),
                n == old(self).layers.len(),
                views == layer_views(old(self).layers@),
                views.len() == n,
                forall|k: int| 0 <= k < n ==> (#[trigger] views[k]) == old(self).layers@[k]@,
                forall|k: int| i <= k < n ==> self.layers@[k] == old(self).layers@[k],
                forall|k: int|
                    0 <= k < i ==> (#[trigger] self.layers@[k])@ == views[k].with_training(
                        training,
                    ),
            decreases n - i,
        {
            self.layers[i].set_training(training);
            i += 1;
        }
        proof {
            lemma_layer_views(self.layers@);
            assert(layer_views(self.layers@) =~= chain_with_training(views, training));
        }
    }
}

/// An affine layer turns a batch of `n` rows of the input width into a batch of `n`
/// rows of the output width. After that forward pass it takes a gradient of the
/// output's shape and gives a gradient of the input's shape.
pub proof fn lemma_affine_shapes(layer: LayerView, input: Seq<usize>)
    requires
        layer is Affine,
        layer.accepts(input),
    ensures
        layer matches LayerView::Affine { weight, .. } && {
            &&& input == matrix_of(input[0], weight.shape[0])
            &&& layer.output(input) == matrix_of(input[0], weight.shape[1])
        },
        layer.after_forward(input).accepts_grad(layer.output(input)),
        layer.after_forward(input).input_grad(layer.output(input)) == input,
{
    match layer {
        LayerView::Affine { weight, .. } => {
            assert(input =~= matrix_of(input[0], weight.shape[0]));
        },
        _ => {},
    }
}

/// After a forward pass on an input that it takes, a layer whose dropout layers
/// are training takes a gradient of the shape that the pass gave, and gives a
/// gradient of the shape of the input.
pub proof fn lemma_backward_after_forward(layer: LayerView, input: Seq<usize>)
    requires
        layer.accepts(input),
        layer.remembers(),
    ensures
        layer.after_forward(input).accepts_grad(layer.output(input)),
        layer.after_forward(input).input_grad(layer.output(input)) == input,
    decreases layer,
{
    match layer {
        LayerView::Affine { weight, .. } => {
            assert(input =~= matrix_of(input[0], weight.shape[0]));
        },
        LayerView::Sequential { layers } => {
            lemma_chain_backward_after_forward(layers, input);
        },
        _ => {},
    }
}

/// The same for a chain: the gradient runs back through the layers that the input
/// ran forward through, and comes out with the shape of the input.
pub proof fn lemma_chain_backward_after_forward(layers: Seq<LayerView>, input: Seq<usize>)
    requires
        chain_accepts(layers, input),
        chain_remembers(layers),
    ensures
        chain_accepts_grad(chain_after_forward(layers, input), chain_output(layers, input)),
        chain_input_grad(chain_after_forward(layers, input), chain_output(layers, input))
            == input,
    decreases layers,
{
    if layers.len() > 0 {
        let front = layers.drop_last();
        let between = chain_output(front, input);
        lemma_backward_after_forward(layers.last(), between);
        lemma_chain_backward_after_forward(front, input);
        let after = chain_after_forward(layers, input);
        assert(after.drop_last() =~= chain_after_forward(front, input));
        assert(after.last() == layers.last().after_forward(between));
    }
}

/// Once a layer is told that it is training, its forward pass keeps all that its
/// backward pass needs.
pub proof fn lemma_training_remembers(layer: LayerView)
    ensures
        layer.with_training(true).remembers(),
    decreases layer,
{
    match layer {
        LayerView::Sequential { layers } => {
            lemma_chain_training_remembers(layers);
        },
        _ => {},
    }
}

/// The same for a chain.
pub proof fn lemma_chain_training_remembers(layers: Seq<LayerView>)
    ensures
        chain_remembers(chain_with_training(layers, true)),
    decreases layers,
{
    if layers.len() > 0 {
        let front = layers.drop_last();
        lemma_training_remembers(layers.last());
        lemma_chain_training_remembers(front);
        let told = chain_with_training(layers, true);
        assert(told.drop_last() =~= chain_with_training(front, true));
        assert(told.last() == layers.last().with_training(true));
    }
}

/// A layer keeps its learnable tensors, with their identities and shapes, through
/// forward passes and through being told whether it is training.
pub proof fn lemma_params_stay(layer: LayerView, input: Seq<usize>, on: bool)
    ensures
        layer.after_forward(input).params() == layer.params(),
        layer.with_training(on).params() == layer.params(),
    decreases layer,
{
    match layer {
        LayerView::Sequential { layers } => {
            lemma_chain_params_stay(layers, input, on);
        },
        _ => {},
    }
}

/// The same for a chain.
pub proof fn lemma_chain_params_stay(layers: Seq<LayerView>, input: Seq<usize>, on: bool)
    ensures
        chain_params(chain_after_forward(layers, input)) == chain_params(layers),
        chain_params(chain_with_training(layers, on)) == chain_params(layers),
    decreases layers,
{
    if layers.len() > 0 {
        let front = layers.drop_last();
        let between = chain_output(front, input);
        lemma_params_stay(layers.last(), between, on);
        lemma_chain_params_stay(front, input, on);
        let after = chain_after_forward(layers, input);
        assert(after.drop_last() =~= chain_after_forward(front, input));
        assert(after.last() == layers.last().after_forward(between));
        let told = chain_with_training(layers, on);
        assert(told.drop_last() =~= chain_with_training(front, on));
        assert(told.last() == layers.last().with_training(on));
    } else {
        assert(chain_after_forward(layers, input) =~= layers);
        assert(chain_with_training(layers, on) =~= layers);
    }
}

/// The learnable tensors of two chains put together are those of the first chain,
/// then those of the second.
pub proof fn lemma_chain_params_concat(front: Seq<LayerView>, back: Seq<LayerView>)
    ensures
        chain_params(front + back) == chain_params(front) + chain_params(back),
    decreases back.len(),
{
    if back.len() == 0 {
        assert(front + back =~= front);
        assert(chain_params(front) + chain_params(back) =~= chain_params(front));
    } else {
        lemma_chain_params_concat(front, back.drop_last());
        assert((front + back).drop_last() =~= front + back.drop_last());
        assert((front + back).last() == back.last());
        assert(chain_params(front + back) =~= chain_params(front) + chain_params(back));
    }
}

/// A forward pass changes nothing of what a layer takes, gives or keeps: only what
/// it remembers.
pub proof fn lemma_forward_keeps_setup(layer: LayerView, seen: Seq<usize>, input: Seq<usize>)
    ensures
        layer.after_forward(seen).accepts(input) == layer.accepts(input),
        layer.after_forward(seen).output(input) == layer.output(input),
        layer.after_forward(seen).remembers() == layer.remembers(),
    decreases layer,
{
    match layer {
        LayerView::Sequential { layers } => {
            lemma_chain_forward_keeps_setup(layers, seen, input);
        },
        _ => {},
    }
}

/// The same for a chain.
pub proof fn lemma_chain_forward_keeps_setup(
    layers: Seq<LayerView>,
    seen: Seq<usize>,
    input: Seq<usize>,
)
    ensures
        chain_accepts(chain_after_forward(layers, seen), input) == chain_accepts(layers, input),
        chain_output(chain_after_forward(layers, seen), input) == chain_output(layers, input),
        chain_remembers(chain_after_forward(layers, seen)) == chain_remembers(layers),
    decreases layers,
{
    if layers.len() > 0 {
        let front = layers.drop_last();
        let after = chain_after_forward(layers, seen);
        assert(after.drop_last() =~= chain_after_forward(front, seen));
        assert(after.last() == layers.last().after_forward(chain_output(front, seen)));
        lemma_chain_forward_keeps_setup(front, seen, input);
        lemma_forward_keeps_setup(
            layers.last(),
            chain_output(front, seen),
            chain_output(front, input),
        );
    } else {
        assert(chain_after_forward(layers, seen) =~= layers);
    }
}

/// A layer remembers its last forward pass and none before it: two passes in a row
/// leave it as the second one alone does.
pub proof fn lemma_last_forward_wins(layer: LayerView, first: Seq<usize>, second: Seq<usize>)
    ensures
        layer.after_forward(first).after_forward(second) == layer.after_forward(second),
    decreases layer,
{
    match layer {
        LayerView::Sequential { layers } => {
            lemma_chain_last_forward_wins(layers, first, second);
        },
        _ => {},
    }
}

/// The same for a chain.
pub proof fn lemma_chain_last_forward_wins(
    layers: Seq<LayerView>,
    first: Seq<usize>,
    second: Seq<usize>,
)
    ensures
        chain_after_forward(chain_after_forward(layers, first), second) == chain_after_forward(
            layers,
            second,
        ),
    decreases layers,
{
    if layers.len() > 0 {
        let front = layers.drop_last();
        let once = chain_after_forward(layers, first);
        assert(once.drop_last() =~= chain_after_forward(front, first));
        assert(once.last() == layers.last().after_forward(chain_output(front, first)));
        lemma_chain_last_forward_wins(front, first, second);
        lemma_chain_forward_keeps_setup(front, first, second);
        lemma_last_forward_wins(
            layers.last(),
            chain_output(front, first),
            chain_output(front, second),
        );
    } else {
        assert(chain_after_forward(layers, first) =~= layers);
    }
}

} // verus!
