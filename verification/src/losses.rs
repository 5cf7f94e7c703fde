//! The loss at the end of the pipeline: what it compares, and the shape of the
//! gradient that it sends back.

use vstd::prelude::*;
use crate::shape::{copy_shape, same_shape};

verus! {

/// Cross-entropy between predicted shares and one-hot targets, averaged over the
/// rows of the batch.
pub struct CrossEntropyLoss;

impl CrossEntropyLoss {
    /// The loss; it has nothing to set up.
    pub fn new() -> (loss: Self)
        ensures
            loss == CrossEntropyLoss,
    {
        CrossEntropyLoss
    }

    /// The loss compares a batch of predictions with targets of the same shape.
    pub open spec fn accepts(self, pred: Seq<usize>, target: Seq<usize>) -> bool {
        pred.len() == 2 && target == pred
    }

    /// Tells whether the loss takes these shapes.
    pub fn can_compare(&self, pred: &Vec<usize>, target: &Vec<usize>) -> (yes: bool)
        ensures
            yes == self.accepts(pred@, target@),
    {
        pred.len() == 2 && same_shape(target, pred)
    }

    /// The number of rows that the loss is averaged over: the rows of the batch,
    /// which may be none.
    pub fn forward(&self, pred: &Vec<usize>, target: &Vec<usize>) -> (rows: usize)
        requires
            self.accepts(pred@, target@),
        ensures
            rows == pred@[0],
    {
        pred[0]
    }

    /// The shape of the gradient with respect to the predictions: their own shape.
    pub fn backward(&self, pred: &Vec<usize>, target: &Vec<usize>) -> (grad: Vec<usize>)
        requires
            self.accepts(pred@, target@),
        ensures
            grad@ == pred@,
    {
        copy_shape(pred)
    }
}

/// Any of the losses.
pub enum LossFunction {
    CrossEntropy(CrossEntropyLoss),
}

impl LossFunction {
    /// The shapes that the loss compares.
    pub open spec fn accepts(self, pred: Seq<usize>, target: Seq<usize>) -> bool {
        match self {
            LossFunction::CrossEntropy(l) => l.accepts(pred, target),
        }
    }

    /// Tells whether the loss takes these shapes.
    pub fn can_compare(&self, pred: &Vec<usize>, target: &Vec<usize>) -> (yes: bool)
        ensures
            yes == self.accepts(pred@, target@),
    {
        match self {
            LossFunction::CrossEntropy(l) => l.can_compare(pred, target),
        }
    }

    /// The number of rows that the loss is averaged over.
    pub fn forward(&self, pred: &Vec<usize>, target: &Vec<usize>) -> (rows: usize)
        requires
            self.accepts(pred@, target@),
        ensures
            rows == pred@[0],
    {
        match self {
            LossFunction::CrossEntropy(l) => l.forward(pred, target),
        }
    }

    /// The shape of the gradient with respect to the predictions.
    pub fn backward(&self, pred: &Vec<usize>, target: &Vec<usize>) -> (grad: Vec<usize>)
        requires
            self.accepts(pred@, target@),
        ensures
            grad@ == pred@,
    {
        match self {
            LossFunction::CrossEntropy(l) => l.backward(pred, target),
        }
    }
}

} // verus!
