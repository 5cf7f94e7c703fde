//! Penalties that a regularizer adds to the gradient of a weight.

use vstd::prelude::*;

verus! {

/// One penalty on a gradient. `lambda` is the strength, held as the 64 bits of its
/// encoding: the library stores it and hands it on, and never computes with it.
#[derive(Clone, Copy, Debug, PartialEq, Eq, Structural)]
pub enum Penalty {
    /// Adds `lambda` times the sign of the weight.
    L1 { lambda: u64 },
    /// Adds twice `lambda` times the weight.
    L2 { lambda: u64 },
}

/// The penalty on the squares of the weights.
pub struct L2 {
    pub lambda: u64,
}

/// The penalty on the magnitudes of the weights.
pub struct L1 {
    pub lambda: u64,
}

/// Several regularizers, applied one after the other: each one works on the
/// gradient that the one before it gave.
pub struct CompositeRegularizer {
    pub regularizers: Vec<Regularizer>,
}

/// The magnitude penalty followed by the square penalty.
pub struct L1L2;

/// Any of the regularizers.
pub enum Regularizer {
    L1(L1),
    L2(L2),
    Composite(CompositeRegularizer),
}

/// The penalties of a list of regularizers, those of the first one first.
pub open spec fn penalties_of(regularizers: Seq<Regularizer>) -> Seq<Penalty>
    decreases regularizers,
{
    if regularizers.len() == 0 {
        Seq::empty()
    } else {
        penalties_of(regularizers.drop_last()) + regularizers.last().penalties()
    }
}

impl L2 {
    /// The one penalty that this regularizer adds.
    pub open spec fn penalties(self) -> Seq<Penalty> {
        seq![Penalty::L2 { lambda: self.lambda }]
    }

    /// A penalty of the given strength.
    pub fn new(lambda: u64) -> (reg: Self)
        ensures
            reg.lambda == lambda,
    {
        L2 { lambda }
    }

    /// The one penalty that this regularizer adds.
    pub fn apply(&self) -> (steps: Vec<Penalty>)
        ensures
            steps@ == self.penalties(),
    {
        let mut steps: Vec<Penalty> = Vec::new();
        steps.push(Penalty::L2 { lambda: self.lambda });
        assert(steps@ =~= self.penalties());
        steps
    }
}

impl L1 {
    /// The one penalty that this regularizer adds.
    pub open spec fn penalties(self) -> Seq<Penalty> {
        seq![Penalty::L1 { lambda: self.lambda }]
    }

    /// A penalty of the given strength.
    pub fn new(lambda: u64) -> (reg: Self)
        ensures
            reg.lambda == lambda,
    {
        L1 { lambda }
    }

    /// The one penalty that this regularizer adds.
    pub fn apply(&self) -> (steps: Vec<Penalty>)
        ensures
            steps@ == self.penalties(),
    {
        let mut steps: Vec<Penalty> = Vec::new();
        steps.push(Penalty::L1 { lambda: self.lambda });
        assert(steps@ =~= self.penalties());
        steps
    }
}

impl CompositeRegularizer {
    /// The penalties of the members, in the order in which the members stand.
    pub open spec fn penalties(self) -> Seq<Penalty>
        decreases self,
    {
        penalties_of(self.regularizers@)
    }

    /// The composite of the given members, in their order.
    pub fn new(regularizers: Vec<Regularizer>) -> (reg: Self)
        ensures
            reg.regularizers == regularizers,
    {
        CompositeRegularizer { regularizers }
    }

    /// The penalties of the members, in the order in which the members stand.
    pub fn apply(&self) -> (steps: Vec<Penalty>)
        ensures
            steps@ == self.penalties(),
        decreases self,
    {
        let mut steps: Vec<Penalty> = Vec::new();
        let mut i: usize = 0;
        assert(self.regularizers@.take(0) =~= Seq::<Regularizer>::empty());
        while i < self.regularizers.len()
            invariant
                i <= self.regularizers.len(),
                steps@ == penalties_of(self.regularizers@.take(i as int)),
            decreases self.regularizers.len() - i,
        {
            let mut more = self.regularizers[i].apply();
            proof {
                let upto = self.regularizers@.take(i + 1);
                assert(upto.drop_last() =~= self.regularizers@.take(i as int));
                assert(upto.last() == self.regularizers@[i as int]);
            }
            steps.append(&mut more);
            i += 1;
        }
        assert(self.regularizers@.take(self.regularizers@.len() as int) =~= self.regularizers@);
        steps
    }
}

impl L1L2 {
    /// The composite of the magnitude penalty and the square penalty, in that order.
    pub fn new(l1_lambda: u64, l2_lambda: u64) -> (reg: CompositeRegularizer)
        ensures
            reg.penalties() == seq![
                Penalty::L1 { lambda: l1_lambda },
                Penalty::L2 { lambda: l2_lambda },
            ],
    {
        let mut regularizers: Vec<Regularizer> = Vec::new();
        regularizers.push(Regularizer::L1(L1::new(l1_lambda)));
        regularizers.push(Regularizer::L2(L2::new(l2_lambda)));
        let reg = CompositeRegularizer { regularizers };
        proof {
            let both = reg.regularizers@;
            let first = both.drop_last();
            assert(first.drop_last() =~= Seq::<Regularizer>::empty());
            assert(penalties_of(first.drop_last()) =~= Seq::<Penalty>::empty());
            assert(first.last().penalties() =~= seq![Penalty::L1 { lambda: l1_lambda }]);
            assert(penalties_of(first) =~= seq![Penalty::L1 { lambda: l1_lambda }]);
            assert(both.last().penalties() =~= seq![Penalty::L2 { lambda: l2_lambda }]);
            assert(penalties_of(both) =~= seq![
                Penalty::L1 { lambda: l1_lambda },
                Penalty::L2 { lambda: l2_lambda },
            ]);
        }
        reg
    }
}

impl Regularizer {
    /// The penalties that the regularizer adds to a gradient, in the order in
    /// which it adds them.
    pub open spec fn penalties(self) -> Seq<Penalty>
        decreases self,
    {
        match self {
            Regularizer::L1(r) => r.penalties(),
            Regularizer::L2(r) => r.penalties(),
            Regularizer::Composite(c) => c.penalties(),
        }
    }

    /// Lists the penalties to add to a gradient, the first to add first.
    pub fn apply(&self) -> (steps: Vec<Penalty>)
        ensures
            steps@ == self.penalties(),
        decreases self,
    {
        match self {
            Regularizer::L1(r) => r.apply(),
            Regularizer::L2(r) => r.apply(),
            Regularizer::Composite(c) => c.apply(),
        }
    }
}

/// A composite adds the penalties of its first members, then those of its last.
pub proof fn lemma_penalties_concat(front: Seq<Regularizer>, back: Seq<Regularizer>)
    ensures
        penalties_of(front + back) == penalties_of(front) + penalties_of(back),
    decreases back.len(),
{
    if back.len() == 0 {
        assert(front + back =~= front);
        assert(penalties_of(front) + penalties_of(back) =~= penalties_of(front));
    } else {
        lemma_penalties_concat(front, back.drop_last());
        assert((front + back).drop_last() =~= front + back.drop_last());
        assert((front + back).last() == back.last());
        assert(penalties_of(front + back) =~= penalties_of(front) + penalties_of(back));
    }
}

} // verus!
