//! The layers: which shapes each one takes and gives, and what it remembers
//! between the forward and the backward pass.

use vstd::prelude::*;
use crate::networks::block::Sequential;
use crate::params::initializer::Initializer;
use crate::params::param::{param_views, IdSource, LearnableParameter, ParamView};
use crate::params::regularizer::{Penalty, Regularizer};
use crate::shape::{
    copy_shape, is_matrix_of, is_vector_of, matrix, matrix_of, same_shape, vector, vector_of,
};

verus! {

/// A layer as the contracts see it: what it was set up with, and the shape that its
/// last forward pass left behind for the backward pass.
pub enum LayerView {
    /// `weight` has one row for each input column and one column for each output
    /// column; `bias` has one entry for each output column.
    Affine {
        weight: ParamView,
        bias: ParamView,
        cache: Option<Seq<usize>>,
        penalties: Seq<Penalty>,
        training: bool,
    },
    ReLU { cache: Option<Seq<usize>> },
    Softmax { cache: Option<Seq<usize>> },
    /// `weight` scales and `bias` shifts each of the columns.
    BatchNorm { weight: ParamView, bias: ParamView, cache: Option<Seq<usize>> },
    /// `p` is the share of entries to drop, held as the 64 bits of its encoding.
    Dropout { p: u64, mask: Option<Seq<usize>>, training: bool },
    /// The members, the first to run forward first.
    Sequential { layers: Seq<LayerView> },
}

impl LayerView {
    /// The input shapes that a forward pass takes.
    pub open spec fn accepts(self, input: Seq<usize>) -> bool
        decreases self,
    {
        match self {
            LayerView::Affine { weight, bias, .. } => {
                &&& weight.shape.len() == 2
                &&& bias.shape == vector_of(weight.shape[1])
                &&& input.len() == 2
                &&& input[1] == weight.shape[0]
            },
            LayerView::ReLU { .. } => input.len() == 2,
            LayerView::Softmax { .. } => input.len() == 2,
            LayerView::BatchNorm { weight, bias, .. } => {
                &&& weight.shape.len() == 1
                &&& bias.shape == weight.shape
                &&& input.len() == 2
                &&& input[0] > 0
                &&& input[1] == weight.shape[0]
            },
            LayerView::Dropout { training, .. } => !training || input.len() == 2,
            LayerView::Sequential { layers } => chain_accepts(layers, input),
        }
    }

    /// The shape that a forward pass gives for an input shape that it takes.
    pub open spec fn output(self, input: Seq<usize>) -> Seq<usize>
        decreases self,
    {
        match self {
            LayerView::Affine { weight, .. } => matrix_of(input[0], weight.shape[1]),
            LayerView::Sequential { layers } => chain_output(layers, input),
            _ => input,
        }
    }

    /// The layer after a forward pass on an input shape that it takes.
    pub open spec fn after_forward(self, input: Seq<usize>) -> LayerView
        decreases self,
    {
        match self {
            LayerView::Affine { weight, bias, cache, penalties, training } => LayerView::Affine {
                weight,
                bias,
                cache: Some(input),
                penalties,
                training,
            },
            LayerView::ReLU { .. } => LayerView::ReLU { cache: Some(input) },
            LayerView::Softmax { .. } => LayerView::Softmax { cache: Some(input) },
            LayerView::BatchNorm { weight, bias, .. } => LayerView::BatchNorm {
                weight,
                bias,
                cache: Some(input),
            },
            LayerView::Dropout { p, mask, training } => LayerView::Dropout {
                p,
                mask: if training { Some(input) } else { mask },
                training,
            },
            LayerView::Sequential { layers } => LayerView::Sequential {
                layers: chain_after_forward(layers, input),
            },
        }
    }

    /// The gradient shapes that a backward pass takes: a forward pass has run, and
    /// the gradient has the shape of what that pass gave.
    pub open spec fn accepts_grad(self, grad: Seq<usize>) -> bool
        decreases self,
    {
        match self {
            LayerView::Affine { weight, cache, .. } => {
                &&& weight.shape.len() == 2
                &&& cache matches Some(seen)
                &&& seen.len() == 2
                &&& seen[1] == weight.shape[0]
                &&& grad == matrix_of(seen[0], weight.shape[1])
            },
            LayerView::ReLU { cache } => cache == Some(grad) && grad.len() == 2,
            LayerView::Softmax { cache } => cache == Some(grad) && grad.len() == 2,
            LayerView::BatchNorm { cache, .. } => cache == Some(grad) && grad.len() == 2,
            LayerView::Dropout { mask, .. } => mask == Some(grad) && grad.len() == 2,
            LayerView::Sequential { layers } => chain_accepts_grad(layers, grad),
        }
    }

    /// The shape of the gradient that a backward pass gives for its input.
    pub open spec fn input_grad(self, grad: Seq<usize>) -> Seq<usize>
        decreases self,
    {
        match self {
            LayerView::Affine { weight, .. } => matrix_of(grad[0], weight.shape[0]),
            LayerView::Sequential { layers } => chain_input_grad(layers, grad),
            _ => grad,
        }
    }

    /// The learnable tensors, those of the first member first.
    pub open spec fn params(self) -> Seq<ParamView>
        decreases self,
    {
        match self {
            LayerView::Affine { weight, bias, .. } => seq![weight, bias],
            LayerView::BatchNorm { weight, bias, .. } => seq![weight, bias],
            LayerView::Sequential { layers } => chain_params(layers),
            _ => Seq::empty(),
        }
    }

    /// The shape that the last forward pass left behind, if the layer keeps one.
    pub open spec fn cache(self) -> Option<Seq<usize>> {
        match self {
            LayerView::Affine { cache, .. } => cache,
            LayerView::ReLU { cache } => cache,
            LayerView::Softmax { cache } => cache,
            LayerView::BatchNorm { cache, .. } => cache,
            LayerView::Dropout { mask, .. } => mask,
            LayerView::Sequential { .. } => None,
        }
    }

    /// Whether the layer works as in training. Only a layer that was told so can
    /// say otherwise.
    pub open spec fn training(self) -> bool {
        match self {
            LayerView::Affine { training, .. } => training,
            LayerView::Dropout { training, .. } => training,
            _ => true,
        }
    }

    /// The penalties on the gradient of the weight.
    pub open spec fn penalties(self) -> Seq<Penalty> {
        match self {
            LayerView::Affine { penalties, .. } => penalties,
            _ => Seq::empty(),
        }
    }

    /// Whether a forward pass leaves behind all that the backward pass needs: every
    /// dropout layer inside is training, and so keeps its mask.
    pub open spec fn remembers(self) -> bool
        decreases self,
    {
        match self {
            LayerView::Dropout { training, .. } => training,
            LayerView::Sequential { layers } => chain_remembers(layers),
            _ => true,
        }
    }

    /// The layer after it was told whether it is training.
    pub open spec fn with_training(self, on: bool) -> LayerView
        decreases self,
    {
        match self {
            LayerView::Affine { weight, bias, cache, penalties, training } => LayerView::Affine {
                weight,
                bias,
                cache,
                penalties,
                training: on,
            },
            LayerView::Dropout { p, mask, training } => LayerView::Dropout { p, mask, training: on },
            LayerView::Sequential { layers } => LayerView::Sequential {
                layers: chain_with_training(layers, on),
            },
            _ => self,
        }
    }
}

/// The shape that comes out of a chain of layers: each one works on what the one
/// before it gave.
pub open spec fn chain_output(layers: Seq<LayerView>, input: Seq<usize>) -> Seq<usize>
    decreases layers,
{
    if layers.len() == 0 {
        input
    } else {
        layers.last().output(chain_output(layers.drop_last(), input))
    }
}

/// Whether each layer of a chain takes what the one before it gave.
pub open spec fn chain_accepts(layers: Seq<LayerView>, input: Seq<usize>) -> bool
    decreases layers,
{
    if layers.len() == 0 {
        true
    } else {
        &&& chain_accepts(layers.drop_last(), input)
        &&& layers.last().accepts(chain_output(layers.drop_last(), input))
    }
}

/// The layers of a chain after a forward pass.
pub open spec fn chain_after_forward(layers: Seq<LayerView>, input: Seq<usize>) -> Seq<LayerView>
    decreases layers,
{
    if layers.len() == 0 {
        Seq::empty()
    } else {
        chain_after_forward(layers.drop_last(), input).push(
            layers.last().after_forward(chain_output(layers.drop_last(), input)),
        )
    }
}

/// The shape of the gradient that comes out at the front of a chain: the last
/// layer works first, and each one works on what the one after it gave.
pub open spec fn chain_input_grad(layers: Seq<LayerView>, grad: Seq<usize>) -> Seq<usize>
    decreases layers,
{
    if layers.len() == 0 {
        grad
    } else {
        chain_input_grad(layers.drop_last(), layers.last().input_grad(grad))
    }
}

/// Whether each layer of a chain, from the last one back, takes the gradient that
/// the one after it gave.
pub open spec fn chain_accepts_grad(layers: Seq<LayerView>, grad: Seq<usize>) -> bool
    decreases layers,
{
    if layers.len() == 0 {
        true
    } else {
        &&& layers.last().accepts_grad(grad)
        &&& chain_accepts_grad(layers.drop_last(), layers.last().input_grad(grad))
    }
}

/// The learnable tensors of a chain, those of the first layer first.
pub open spec fn chain_params(layers: Seq<LayerView>) -> Seq<ParamView>
    decreases layers,
{
    if layers.len() == 0 {
        Seq::empty()
    } else {
        chain_params(layers.drop_last()) + layers.last().params()
    }
}

/// The layers of a chain after each was told whether it is training.
pub open spec fn chain_with_training(layers: Seq<LayerView>, on: bool) -> Seq<LayerView>
    decreases layers,
{
    if layers.len() == 0 {
        Seq::empty()
    } else {
        chain_with_training(layers.drop_last(), on).push(layers.last().with_training(on))
    }
}

/// Whether every layer of a chain keeps what its backward pass needs.
pub open spec fn chain_remembers(layers: Seq<LayerView>) -> bool
    decreases layers,
{
    if layers.len() == 0 {
        true
    } else {
        chain_remembers(layers.drop_last()) && layers.last().remembers()
    }
}

/// What a remembered shape is to the contracts.
pub open spec fn cache_view(cache: Option<Vec<usize>>) -> Option<Seq<usize>> {
    match cache {
        Some(shape) => Some(shape@),
        None => None,
    }
}

fn cache_is(cache: &Option<Vec<usize>>, shape: &Vec<usize>) -> (yes: bool)
    ensures
        yes == (cache_view(*cache) == Some(shape@)),
{
    match cache {
        Some(seen) => same_shape(seen, shape),
        None => false,
    }
}

/// The penalties of a regularizer that may be missing.
pub open spec fn penalties_view(reg: Option<Regularizer>) -> Seq<Penalty> {
    match reg {
        Some(r) => r.penalties(),
        None => Seq::empty(),
    }
}

fn copy_cache(cache: &Option<Vec<usize>>) -> (copy: Option<Vec<usize>>)
    ensures
        cache_view(copy) == cache_view(*cache),
{
    match cache {
        Some(seen) => Some(copy_shape(seen)),
        None => None,
    }
}

/// Multiplies each row of its input with a weight matrix and adds a bias.
pub struct AffineLayer {
    weight: LearnableParameter,
    bias: LearnableParameter,
    input_cache: Option<Vec<usize>>,
    weight_reg: Option<Regularizer>,
    training: bool,
}

impl View for AffineLayer {
    type V = LayerView;

    closed spec fn view(&self) -> LayerView {
        LayerView::Affine {
            weight: self.weight@,
            bias: self.bias@,
            cache: cache_view(self.input_cache),
            penalties: penalties_view(self.weight_reg),
            training: self.training,
        }
    }
}

impl AffineLayer {
    /// A layer from `input_dim` to `output_dim` columns. The weight takes the next
    /// identity and the bias the one after it.
    pub fn new(
        input_dim: usize,
        output_dim: usize,
        weight_init: &Initializer,
        bias_init: &Initializer,
        weight_reg: Option<Regularizer>,
        ids: &mut IdSource,
    ) -> (layer: Self)
        requires
            weight_init.accepts(matrix_of(input_dim, output_dim)),
            bias_init.accepts(vector_of(output_dim)),
            old(ids).issued() + 2 <= usize::MAX,
        ensures
            layer@ == (LayerView::Affine {
                weight: ParamView {
                    id: old(ids).issued() as usize,
                    shape: matrix_of(input_dim, output_dim),
                },
                bias: ParamView {
                    id: (old(ids).issued() + 1) as usize,
                    shape: vector_of(output_dim),
                },
                cache: None,
                penalties: penalties_view(weight_reg),
                training: true,
            }),
            final(ids).issued() == old(ids).issued() + 2,
    {
        let weight = LearnableParameter::new(&matrix(input_dim, output_dim), weight_init, ids);
        let bias = LearnableParameter::new(&vector(output_dim), bias_init, ids);
        AffineLayer { weight, bias, input_cache: None, weight_reg, training: true }
    }

    /// Tells whether a forward pass takes this input shape.
    pub fn can_forward(&self, input: &Vec<usize>) -> (yes: bool)
        ensures
            yes == self@.accepts(input@),
    {
        self.weight.shape.len() == 2 && is_vector_of(&self.bias.shape, self.weight.shape[1])
            && input.len() == 2 && input[1] == self.weight.shape[0]
    }

    /// The shape that a forward pass would give, with nothing kept.
    pub fn output_shape(&self, input: &Vec<usize>) -> (output: Vec<usize>)
        requires
            self@.accepts(input@),
        ensures
            output@ == self@.output(input@),
    {
        matrix(input[0], self.weight.shape[1])
    }

    /// A batch of rows comes in; a batch of as many rows comes out, each as wide
    /// as the weight has columns. The input shape is kept for the backward pass.
    pub fn forward(&mut self, input: &Vec<usize>) -> (output: Vec<usize>)
        requires
            old(self)@.accepts(input@),
        ensures
            output@ == old(self)@.output(input@),
            final(self)@ == old(self)@.after_forward(input@),
    {
        self.input_cache = Some(copy_shape(input));
        matrix(input[0], self.weight.shape[1])
    }

    /// Tells whether a backward pass takes this gradient shape.
    pub fn can_backward(&self, grad: &Vec<usize>) -> (yes: bool)
        ensures
            yes == self@.accepts_grad(grad@),
    {
        match &self.input_cache {
            Some(seen) => self.weight.shape.len() == 2 && seen.len() == 2 && seen[1]
                == self.weight.shape[0] && is_matrix_of(grad, seen[0], self.weight.shape[1]),
            None => false,
        }
    }

    /// The gradient for the input: as many rows as the gradient that came in, each
    /// as wide as the weight has rows.
    pub fn backward(&self, grad: &Vec<usize>) -> (input_grad: Vec<usize>)
        requires
            self@.accepts_grad(grad@),
        ensures
            input_grad@ == self@.input_grad(grad@),
    {
        matrix(grad[0], self.weight.shape[0])
    }

    /// The weight, then the bias.
    pub fn params(&self) -> (params: Vec<LearnableParameter>)
        ensures
            param_views(params@) == self@.params(),
    {
        let mut params: Vec<LearnableParameter> = Vec::new();
        params.push(self.weight.duplicate());
        params.push(self.bias.duplicate());
        assert(param_views(params@) =~= self@.params());
        params
    }

    /// Records whether the layer is training.
    pub fn set_training(&mut self, training: bool)
        ensures
            final(self)@ == old(self)@.with_training(training),
    {
        self.training = training;
    }

    /// The penalties to add to the gradient of the weight, the first to add first.
    pub fn weight_penalties(&self) -> (steps: Vec<Penalty>)
        ensures
            steps@ == self@.penalties(),
    {
        match &self.weight_reg {
            Some(reg) => reg.apply(),
            None => Vec::new(),
        }
    }

    /// The input shape that the last forward pass saw.
    pub fn cached(&self) -> (cache: Option<Vec<usize>>)
        ensures
            cache_view(cache) == self@.cache(),
    {
        copy_cache(&self.input_cache)
    }

    /// Whether the layer was last told that it is training.
    pub fn is_training(&self) -> (training: bool)
        ensures
            training == self@.training(),
    {
        self.training
    }
}

/// Keeps what is above zero and puts zero elsewhere.
pub struct ReLU {
    input_cache: Option<Vec<usize>>,
}

impl View for ReLU {
    type V = LayerView;

    closed spec fn view(&self) -> LayerView {
        LayerView::ReLU { cache: cache_view(self.input_cache) }
    }
}

impl ReLU {
    /// A layer that has run no forward pass yet.
    pub fn new() -> (layer: Self)
        ensures
            layer@ == (LayerView::ReLU { cache: None }),
    {
        ReLU { input_cache: None }
    }

    /// Tells whether a forward pass takes this input shape.
    pub fn can_forward(&self, input: &Vec<usize>) -> (yes: bool)
        ensures
            yes == self@.accepts(input@),
    {
        input.len() == 2
    }

    /// The output has the shape of the input, which is kept for the backward pass.
    pub fn forward(&mut self, input: &Vec<usize>) -> (output: Vec<usize>)
        requires
            old(self)@.accepts(input@),
        ensures
            output@ == old(self)@.output(input@),
            final(self)@ == old(self)@.after_forward(input@),
    {
        self.input_cache = Some(copy_shape(input));
        copy_shape(input)
    }

    /// Tells whether a backward pass takes this gradient shape.
    pub fn can_backward(&self, grad: &Vec<usize>) -> (yes: bool)
        ensures
            yes == self@.accepts_grad(grad@),
    {
        grad.len() == 2 && cache_is(&self.input_cache, grad)
    }

    /// The gradient for the input has the shape of the gradient that came in.
    pub fn backward(&self, grad: &Vec<usize>) -> (input_grad: Vec<usize>)
        requires
            self@.accepts_grad(grad@),
        ensures
            input_grad@ == self@.input_grad(grad@),
    {
        copy_shape(grad)
    }

    /// The layer has nothing to learn.
    pub fn params(&self) -> (params: Vec<LearnableParameter>)
        ensures
            param_views(params@) == self@.params(),
    {
        let params: Vec<LearnableParameter> = Vec::new();
        assert(param_views(params@) =~= self@.params());
        params
    }

    /// The layer works the same whether it is training or not.
    pub fn set_training(&mut self, training: bool)
        ensures
            final(self)@ == old(self)@.with_training(training),
    {
    }

    /// The input shape that the last forward pass saw.
    pub fn cached(&self) -> (cache: Option<Vec<usize>>)
        ensures
            cache_view(cache) == self@.cache(),
    {
        copy_cache(&self.input_cache)
    }
}

/// Turns each row into shares that add up to one.
pub struct Softmax {
    output_cache: Option<Vec<usize>>,
}

impl View for Softmax {
    type V = LayerView;

    closed spec fn view(&self) -> LayerView {
        LayerView::Softmax { cache: cache_view(self.output_cache) }
    }
}

impl Softmax {
    /// A layer that has run no forward pass yet.
    pub fn new() -> (layer: Self)
        ensures
            layer@ == (LayerView::Softmax { cache: None }),
    {
        Softmax { output_cache: None }
    }

    /// Tells whether a forward pass takes this input shape.
    pub fn can_forward(&self, input: &Vec<usize>) -> (yes: bool)
        ensures
            yes == self@.accepts(input@),
    {
        input.len() == 2
    }

    /// The output has the shape of the input; it is kept for the backward pass.
    pub fn forward(&mut self, input: &Vec<usize>) -> (output: Vec<usize>)
        requires
            old(self)@.accepts(input@),
        ensures
            output@ == old(self)@.output(input@),
            final(self)@ == old(self)@.after_forward(input@),
    {
        self.output_cache = Some(copy_shape(input));
        copy_shape(input)
    }

    /// Tells whether a backward pass takes this gradient shape.
    pub fn can_backward(&self, grad: &Vec<usize>) -> (yes: bool)
        ensures
            yes == self@.accepts_grad(grad@),
    {
        grad.len() == 2 && cache_is(&self.output_cache, grad)
    }

    /// The gradient for the input has the shape of the gradient that came in.
    pub fn backward(&self, grad: &Vec<usize>) -> (input_grad: Vec<usize>)
        requires
            self@.accepts_grad(grad@),
        ensures
            input_grad@ == self@.input_grad(grad@),
    {
        copy_shape(grad)
    }

    /// The layer has nothing to learn.
    pub fn params(&self) -> (params: Vec<LearnableParameter>)
        ensures
            param_views(params@) == self@.params(),
    {
        let params: Vec<LearnableParameter> = Vec::new();
        assert(param_views(params@) =~= self@.params());
        params
    }

    /// The layer works the same whether it is training or not.
    pub fn set_training(&mut self, training: bool)
        ensures
            final(self)@ == old(self)@.with_training(training),
    {
    }

    /// The shape of what the last forward pass gave.
    pub fn cached(&self) -> (cache: Option<Vec<usize>>)
        ensures
            cache_view(cache) == self@.cache(),
    {
        copy_cache(&self.output_cache)
    }
}

/// Brings each column of a batch to mean zero and variance one, then scales and
/// shifts it.
pub struct BatchNorm {
    weight: LearnableParameter,
    bias: LearnableParameter,
    z_cache: Option<Vec<usize>>,
}

impl View for BatchNorm {
    type V = LayerView;

    closed spec fn view(&self) -> LayerView {
        LayerView::BatchNorm {
            weight: self.weight@,
            bias: self.bias@,
            cache: cache_view(self.z_cache),
        }
    }
}

impl BatchNorm {
    /// A layer for batches `input_dim` columns wide. The scale takes the next
    /// identity and the shift the one after it.
    pub fn new(
        input_dim: usize,
        weight_init: &Initializer,
        bias_init: &Initializer,
        ids: &mut IdSource,
    ) -> (layer: Self)
        requires
            weight_init.accepts(vector_of(input_dim)),
            bias_init.accepts(vector_of(input_dim)),
            old(ids).issued() + 2 <= usize::MAX,
        ensures
            layer@ == (LayerView::BatchNorm {
                weight: ParamView { id: old(ids).issued() as usize, shape: vector_of(input_dim) },
                bias: ParamView {
                    id: (old(ids).issued() + 1) as usize,
                    shape: vector_of(input_dim),
                },
                cache: None,
            }),
            final(ids).issued() == old(ids).issued() + 2,
    {
        let weight = LearnableParameter::new(&vector(input_dim), weight_init, ids);
        let bias = LearnableParameter::new(&vector(input_dim), bias_init, ids);
        BatchNorm { weight, bias, z_cache: None }
    }

    /// Tells whether a forward pass takes this input shape.
    pub fn can_forward(&self, input: &Vec<usize>) -> (yes: bool)
        ensures
            yes == self@.accepts(input@),
    {
        self.weight.shape.len() == 1 && same_shape(&self.bias.shape, &self.weight.shape)
            && input.len() == 2 && input[0] > 0 && input[1] == self.weight.shape[0]
    }

    /// A batch with at least one row comes in; the output has its shape, which is
    /// kept for the backward pass.
    pub fn forward(&mut self, input: &Vec<usize>) -> (output: Vec<usize>)
        requires
            old(self)@.accepts(input@),
        ensures
            output@ == old(self)@.output(input@),
            final(self)@ == old(self)@.after_forward(input@),
    {
        self.z_cache = Some(copy_shape(input));
        copy_shape(input)
    }

    /// Tells whether a backward pass takes this gradient shape.
    pub fn can_backward(&self, grad: &Vec<usize>) -> (yes: bool)
        ensures
            yes == self@.accepts_grad(grad@),
    {
        grad.len() == 2 && cache_is(&self.z_cache, grad)
    }

    /// The gradient for the input has the shape of the gradient that came in.
    pub fn backward(&self, grad: &Vec<usize>) -> (input_grad: Vec<usize>)
        requires
            self@.accepts_grad(grad@),
        ensures
            input_grad@ == self@.input_grad(grad@),
    {
        copy_shape(grad)
    }

    /// The scale, then the shift.
    pub fn params(&self) -> (params: Vec<LearnableParameter>)
        ensures
            param_views(params@) == self@.params(),
    {
        let mut params: Vec<LearnableParameter> = Vec::new();
        params.push(self.weight.duplicate());
        params.push(self.bias.duplicate());
        assert(param_views(params@) =~= self@.params());
        params
    }

    /// The layer always works on the batch at hand, training or not.
    pub fn set_training(&mut self, training: bool)
        ensures
            final(self)@ == old(self)@.with_training(training),
    {
    }

    /// The shape of the batch that the last forward pass saw.
    pub fn cached(&self) -> (cache: Option<Vec<usize>>)
        ensures
            cache_view(cache) == self@.cache(),
    {
        copy_cache(&self.z_cache)
    }
}

/// Drops entries at random while training and lets everything pass otherwise.
pub struct Dropout {
    p: u64,
    mask: Option<Vec<usize>>,
    training: bool,
}

impl View for Dropout {
    type V = LayerView;

    closed spec fn view(&self) -> LayerView {
        LayerView::Dropout { p: self.p, mask: cache_view(self.mask), training: self.training }
    }
}

impl Dropout {
    /// A layer that drops the share `p` of the entries, given as the 64 bits of its
    /// encoding. It starts out training.
    pub fn new(p: u64) -> (layer: Self)
        ensures
            layer@ == (LayerView::Dropout { p, mask: None, training: true }),
    {
        Dropout { p, mask: None, training: true }
    }

    /// Tells whether a forward pass takes this input shape.
    pub fn can_forward(&self, input: &Vec<usize>) -> (yes: bool)
        ensures
            yes == self@.accepts(input@),
    {
        !self.training || input.len() == 2
    }

    /// The output has the shape of the input. While training, the shape of the mask
    /// is kept for the backward pass; otherwise nothing is kept or changed.
    pub fn forward(&mut self, input: &Vec<usize>) -> (output: Vec<usize>)
        requires
            old(self)@.accepts(input@),
        ensures
            output@ == old(self)@.output(input@),
            final(self)@ == old(self)@.after_forward(input@),
    {
        if self.training {
            self.mask = Some(copy_shape(input));
        }
        copy_shape(input)
    }

    /// Tells whether a backward pass takes this gradient shape.
    pub fn can_backward(&self, grad: &Vec<usize>) -> (yes: bool)
        ensures
            yes == self@.accepts_grad(grad@),
    {
        grad.len() == 2 && cache_is(&self.mask, grad)
    }

    /// The gradient for the input has the shape of the gradient that came in.
    pub fn backward(&self, grad: &Vec<usize>) -> (input_grad: Vec<usize>)
        requires
            self@.accepts_grad(grad@),
        ensures
            input_grad@ == self@.input_grad(grad@),
    {
        copy_shape(grad)
    }

    /// The layer has nothing to learn.
    pub fn params(&self) -> (params: Vec<LearnableParameter>)
        ensures
            param_views(params@) == self@.params(),
    {
        let params: Vec<LearnableParameter> = Vec::new();
        assert(param_views(params@) =~= self@.params());
        params
    }

    /// Records whether the layer is training.
    pub fn set_training(&mut self, training: bool)
        ensures
            final(self)@ == old(self)@.with_training(training),
    {
        self.training = training;
    }

    /// The share of entries to drop, as it was given.
    pub fn rate(&self) -> (p: u64)
        ensures
            self@ matches LayerView::Dropout { p: share, .. } && share == p,
    {
        self.p
    }

    /// The shape of the mask that the last forward pass in training drew.
    pub fn cached(&self) -> (cache: Option<Vec<usize>>)
        ensures
            cache_view(cache) == self@.cache(),
    {
        copy_cache(&self.mask)
    }

    /// Whether the layer was last told that it is training.
    pub fn is_training(&self) -> (training: bool)
        ensures
            training == self@.training(),
    {
        self.training
    }
}

/// Any of the layers.
pub enum Layer {
    Affine(AffineLayer),
    ReLU(ReLU),
    Softmax(Softmax),
    BatchNorm(BatchNorm),
    Dropout(Dropout),
    Sequential(Sequential),
}

/// The layers of a list, each as the contracts see it.
pub open spec fn layer_views(layers: Seq<Layer>) -> Seq<LayerView>
    decreases layers,
{
    if layers.len() == 0 {
        Seq::empty()
    } else {
        layer_views(layers.drop_last()).push(layers.last()@)
    }
}

impl View for Layer {
    type V = LayerView;

    open spec fn view(&self) -> LayerView
        decreases self,
    {
        match self {
            Layer::Affine(l) => l@,
            Layer::ReLU(l) => l@,
            Layer::Softmax(l) => l@,
            Layer::BatchNorm(l) => l@,
            Layer::Dropout(l) => l@,
            Layer::Sequential(l) => l@,
        }
    }
}

/// The view of a list of layers has one entry for each layer, in the same place.
pub proof fn lemma_layer_views(layers: Seq<Layer>)
    ensures
        layer_views(layers).len() == layers.len(),
        forall|k: int| 0 <= k < layers.len() ==> (#[trigger] layer_views(layers)[k]) == layers[k]@,
    decreases layers.len(),
{
    reveal_with_fuel(layer_views, 2);
    if layers.len() > 0 {
        lemma_layer_views(layers.drop_last());
        assert(layer_views(layers) == layer_views(layers.drop_last()).push(layers.last()@));
    } else {
        assert(layer_views(layers) =~= Seq::<LayerView>::empty());
    }
}

impl Layer {
    /// Tells whether a forward pass takes this input shape.
    pub fn can_forward(&self, input: &Vec<usize>) -> (yes: bool)
        ensures
            yes == self@.accepts(input@),
        decreases self,
    {
        match self {
            Layer::Affine(l) => l.can_forward(input),
            Layer::ReLU(l) => l.can_forward(input),
            Layer::Softmax(l) => l.can_forward(input),
            Layer::BatchNorm(l) => l.can_forward(input),
            Layer::Dropout(l) => l.can_forward(input),
            Layer::Sequential(l) => l.can_forward(input),
        }
    }

    /// The shape that a forward pass would give, with nothing kept.
    pub fn output_shape(&self, input: &Vec<usize>) -> (output: Vec<usize>)
        requires
            self@.accepts(input@),
        ensures
            output@ == self@.output(input@),
        decreases self,
    {
        match self {
            Layer::Affine(l) => l.output_shape(input),
            Layer::Sequential(l) => l.output_shape(input),
            _ => copy_shape(input),
        }
    }

    /// Runs the forward pass on an input shape: gives the output shape and keeps
    /// what the backward pass will need.
    pub fn forward(&mut self, input: &Vec<usize>) -> (output: Vec<usize>)
        requires
            old(self)@.accepts(input@),
        ensures
            output@ == old(self)@.output(input@),
            final(self)@ == old(self)@.after_forward(input@),
        decreases *old(self),
    {
        match self {
            Layer::Affine(l) => l.forward(input),
            Layer::ReLU(l) => l.forward(input),
            Layer::Softmax(l) => l.forward(input),
            Layer::BatchNorm(l) => l.forward(input),
            Layer::Dropout(l) => l.forward(input),
            Layer::Sequential(l) => l.forward(input),
        }
    }

    /// Tells whether a backward pass takes this gradient shape.
    pub fn can_backward(&self, grad: &Vec<usize>) -> (yes: bool)
        ensures
            yes == self@.accepts_grad(grad@),
        decreases self,
    {
        match self {
            Layer::Affine(l) => l.can_backward(grad),
            Layer::ReLU(l) => l.can_backward(grad),
            Layer::Softmax(l) => l.can_backward(grad),
            Layer::BatchNorm(l) => l.can_backward(grad),
            Layer::Dropout(l) => l.can_backward(grad),
            Layer::Sequential(l) => l.can_backward(grad),
        }
    }

    /// Runs the backward pass on a gradient shape: gives the shape of the gradient
    /// for the input of the last forward pass.
    pub fn backward(&self, grad: &Vec<usize>) -> (input_grad: Vec<usize>)
        requires
            self@.accepts_grad(grad@),
        ensures
            input_grad@ == self@.input_grad(grad@),
        decreases self,
    {
        match self {
            Layer::Affine(l) => l.backward(grad),
            Layer::ReLU(l) => l.backward(grad),
            Layer::Softmax(l) => l.backward(grad),
            Layer::BatchNorm(l) => l.backward(grad),
            Layer::Dropout(l) => l.backward(grad),
            Layer::Sequential(l) => l.backward(grad),
        }
    }

    /// Tells whether a forward pass leaves behind all that the backward pass needs.
    pub fn remembers(&self) -> (yes: bool)
        ensures
            yes == self@.remembers(),
        decreases self,
    {
        match self {
            Layer::Dropout(l) => l.is_training(),
            Layer::Sequential(l) => l.remembers(),
            _ => true,
        }
    }

    /// The learnable tensors of the layer.
    pub fn params(&self) -> (params: Vec<LearnableParameter>)
        ensures
            param_views(params@) == self@.params(),
        decreases self,
    {
        match self {
            Layer::Affine(l) => l.params(),
            Layer::ReLU(l) => l.params(),
            Layer::Softmax(l) => l.params(),
            Layer::BatchNorm(l) => l.params(),
            Layer::Dropout(l) => l.params(),
            Layer::Sequential(l) => l.params(),
        }
    }

    /// Tells the layer, and every layer inside it, whether it is training.
    pub fn set_training(&mut self, training: bool)
        ensures
            final(self)@ == old(self)@.with_training(training),
        decreases *old(self),
    {
        match self {
            Layer::Affine(l) => l.set_training(training),
            Layer::ReLU(l) => l.set_training(training),
            Layer::Softmax(l) => l.set_training(training),
            Layer::BatchNorm(l) => l.set_training(training),
            Layer::Dropout(l) => l.set_training(training),
            Layer::Sequential(l) => l.set_training(training),
        }
    }
}

} // verus!
