//! How often the predicted class is the true class.

use vstd::prelude::*;

verus! {

/// Among the first `n` rows, how many have the same predicted and true class.
pub open spec fn hits_among(pred: Seq<usize>, target: Seq<usize>, n: nat) -> nat
    decreases n,
{
    if n == 0 {
        0
    } else {
        let rest = hits_among(pred, target, (n - 1) as nat);
        if pred[n - 1] == target[n - 1] {
            rest + 1
        } else {
            rest
        }
    }
}

/// The rows that have both a predicted and a true class.
pub open spec fn paired_rows(pred: Seq<usize>, target: Seq<usize>) -> nat {
    if pred.len() <= target.len() {
        pred.len()
    } else {
        target.len()
    }
}

/// A count of hits out of a number of rows; the accuracy is their quotient.
#[derive(Clone, Copy, Debug, PartialEq, Eq, Structural)]
pub struct Hits {
    pub correct: usize,
    pub total: usize,
}

/// Accuracy for one-hot targets: the class of a row is the column of its largest
/// entry.
pub struct OnehotArgmaxAccuracy;

impl OnehotArgmaxAccuracy {
    /// The metric; it has nothing to set up.
    pub fn new() -> (metric: Self)
        ensures
            metric == OnehotArgmaxAccuracy,
    {
        OnehotArgmaxAccuracy
    }

    /// Counts the rows whose predicted class is the true class, out of all the rows
    /// that have a prediction. A row without a true class counts as a miss.
    pub fn accuracy(&self, pred_classes: &Vec<usize>, true_classes: &Vec<usize>) -> (hits: Hits)
        ensures
            hits.correct == hits_among(
                pred_classes@,
                true_classes@,
                paired_rows(pred_classes@, true_classes@),
            ),
            hits.total == pred_classes@.len(),
            hits.correct <= hits.total,
    {
        let n = if pred_classes.len() <= true_classes.len() {
            pred_classes.len()
        } else {
            true_classes.len()
        };
        let mut correct: usize = 0;
        let mut i: usize = 0;
        while i < n
            invariant
                i <= n,
                n <= pred_classes.len(),
                n <= true_classes.len(),
                correct == hits_among(pred_classes@, true_classes@, i as nat),
                correct <= i,
            decreases n - i,
        {
            if pred_classes[i] == true_classes[i] {
                correct += 1;
            }
            i += 1;
        }
        Hits { correct, total: pred_classes.len() }
    }
}

/// Any of the accuracy metrics.
pub enum Accuracy {
    OnehotArgmax(OnehotArgmaxAccuracy),
}

impl Accuracy {
    /// Counts the rows whose predicted class is the true class.
    pub fn accuracy(&self, pred_classes: &Vec<usize>, true_classes: &Vec<usize>) -> (hits: Hits)
        ensures
            hits.correct == hits_among(
                pred_classes@,
                true_classes@,
                paired_rows(pred_classes@, true_classes@),
            ),
            hits.total == pred_classes@.len(),
            hits.correct <= hits.total,
    {
        match self {
            Accuracy::OnehotArgmax(metric) => metric.accuracy(pred_classes, true_classes),
        }
    }
}

} // verus!
