//! Policies for the first value of a learnable tensor.

use vstd::prelude::*;
use crate::params::param::{IdSource, LearnableParameter};
use crate::shape::copy_shape;

verus! {

/// How the elements of a new tensor are drawn.
#[derive(Clone, Copy, Debug, PartialEq, Eq, Structural)]
pub enum Fill {
    /// Every element is zero.
    Zeros,
    /// Normal around zero; the deviation is one over the square root of `fan_in`.
    Xavier { fan_in: usize },
    /// Normal around zero; the deviation is the square root of two over `fan_in`.
    He { fan_in: usize },
}

/// Starts every element at zero.
pub struct ZeroInitializer;

/// Draws the elements with a spread that shrinks with the length of the first axis.
pub struct XavierInitializer;

/// Like Xavier, with twice the variance.
pub struct HeInitializer;

/// Whether a shape has a first axis, and that axis is not empty.
pub open spec fn has_fan_in(shape: Seq<usize>) -> bool {
    shape.len() > 0 && shape[0] > 0
}

impl ZeroInitializer {
    /// Every shape is accepted.
    pub open spec fn accepts(&self, shape: Seq<usize>) -> bool {
        true
    }

    /// How the elements of a tensor of this shape are drawn.
    pub open spec fn fill_of(&self, shape: Seq<usize>) -> Fill {
        Fill::Zeros
    }

    /// How the elements of a tensor of this shape are drawn.
    pub fn fill(&self, shape: &Vec<usize>) -> (fill: Fill)
        ensures
            fill == self.fill_of(shape@),
    {
        Fill::Zeros
    }

    /// Makes a tensor of the given shape under the next identity.
    pub fn initialize(&self, shape: &Vec<usize>, ids: &mut IdSource) -> (param: LearnableParameter)
        requires
            old(ids).issued() < usize::MAX,
        ensures
            param.id == old(ids).issued(),
            param.shape@ == shape@,
            final(ids).issued() == old(ids).issued() + 1,
    {
        LearnableParameter { id: ids.fresh(), shape: copy_shape(shape) }
    }
}

impl XavierInitializer {
    /// The deviation is taken from the first axis, which must not be empty.
    pub open spec fn accepts(&self, shape: Seq<usize>) -> bool {
        has_fan_in(shape)
    }

    /// How the elements of a tensor of this shape are drawn.
    pub open spec fn fill_of(&self, shape: Seq<usize>) -> Fill {
        Fill::Xavier { fan_in: shape[0] }
    }

    /// How the elements of a tensor of this shape are drawn.
    pub fn fill(&self, shape: &Vec<usize>) -> (fill: Fill)
        requires
            self.accepts(shape@),
        ensures
            fill == self.fill_of(shape@),
    {
        Fill::Xavier { fan_in: shape[0] }
    }

    /// Makes a tensor of the given shape under the next identity.
    pub fn initialize(&self, shape: &Vec<usize>, ids: &mut IdSource) -> (param: LearnableParameter)
        requires
            self.accepts(shape@),
            old(ids).issued() < usize::MAX,
        ensures
            param.id == old(ids).issued(),
            param.shape@ == shape@,
            final(ids).issued() == old(ids).issued() + 1,
    {
        LearnableParameter { id: ids.fresh(), shape: copy_shape(shape) }
    }
}

impl HeInitializer {
    /// The deviation is taken from the first axis, which must not be empty.
    pub open spec fn accepts(&self, shape: Seq<usize>) -> bool {
        has_fan_in(shape)
    }

    /// How the elements of a tensor of this shape are drawn.
    pub open spec fn fill_of(&self, shape: Seq<usize>) -> Fill {
        Fill::He { fan_in: shape[0] }
    }

    /// How the elements of a tensor of this shape are drawn.
    pub fn fill(&self, shape: &Vec<usize>) -> (fill: Fill)
        requires
            self.accepts(shape@),
        ensures
            fill == self.fill_of(shape@),
    {
        Fill::He { fan_in: shape[0] }
    }

    /// Makes a tensor of the given shape under the next identity.
    pub fn initialize(&self, shape: &Vec<usize>, ids: &mut IdSource) -> (param: LearnableParameter)
        requires
            self.accepts(shape@),
            old(ids).issued() < usize::MAX,
        ensures
            param.id == old(ids).issued(),
            param.shape@ == shape@,
            final(ids).issued() == old(ids).issued() + 1,
    {
        LearnableParameter { id: ids.fresh(), shape: copy_shape(shape) }
    }
}

/// Any of the initializers.
pub enum Initializer {
    Zero(ZeroInitializer),
    Xavier(XavierInitializer),
    He(HeInitializer),
}

impl Initializer {
    /// The shapes for which the initializer can make a tensor.
    pub open spec fn accepts(&self, shape: Seq<usize>) -> bool {
        match self {
            Initializer::Zero(z) => z.accepts(shape),
            Initializer::Xavier(x) => x.accepts(shape),
            Initializer::He(h) => h.accepts(shape),
        }
    }

    /// How the elements of a tensor of this shape are drawn.
    pub open spec fn fill_of(&self, shape: Seq<usize>) -> Fill {
        match self {
            Initializer::Zero(z) => z.fill_of(shape),
            Initializer::Xavier(x) => x.fill_of(shape),
            Initializer::He(h) => h.fill_of(shape),
        }
    }

    /// Tells whether the initializer can make a tensor of this shape.
    pub fn can_initialize(&self, shape: &Vec<usize>) -> (yes: bool)
        ensures
            yes == self.accepts(shape@),
    {
        match self {
            Initializer::Zero(_) => true,
            _ => shape.len() > 0 && shape[0] > 0,
        }
    }

    /// How the elements of a tensor of this shape are drawn.
    pub fn fill(&self, shape: &Vec<usize>) -> (fill: Fill)
        requires
            self.accepts(shape@),
        ensures
            fill == self.fill_of(shape@),
    {
        match self {
            Initializer::Zero(z) => z.fill(shape),
            Initializer::Xavier(x) => x.fill(shape),
            Initializer::He(h) => h.fill(shape),
        }
    }

    /// Makes a tensor of the given shape under the next identity.
    pub fn initialize(&self, shape: &Vec<usize>, ids: &mut IdSource) -> (param: LearnableParameter)
        requires
            self.accepts(shape@),
            old(ids).issued() < usize::MAX,
        ensures
            param.id == old(ids).issued(),
            param.shape@ == shape@,
            final(ids).issued() == old(ids).issued() + 1,
    {
        match self {
            Initializer::Zero(z) => z.initialize(shape, ids),
            Initializer::Xavier(x) => x.initialize(shape, ids),
            Initializer::He(h) => h.initialize(shape, ids),
        }
    }
}

} // verus!
