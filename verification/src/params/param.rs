//! Learnable tensors and the identities they carry.

use vstd::prelude::*;
use crate::params::initializer::Initializer;
use crate::shape::copy_shape;

verus! {

/// Hands out identities for learnable tensors, counting up from zero.
pub struct IdSource {
    next: usize,
}

impl IdSource {
    /// How many identities have been handed out.
    pub closed spec fn issued(&self) -> nat {
        self.next as nat
    }

    /// A source that has handed out nothing yet.
    pub fn new() -> (source: Self)
        ensures
            source.issued() == 0,
    {
        IdSource { next: 0 }
    }

    /// The number of identities handed out so far.
    pub fn count(&self) -> (n: usize)
        ensures
            n == self.issued(),
    {
        self.next
    }

    /// Tells whether `want` more identities can be handed out.
    pub fn can_issue(&self, want: usize) -> (yes: bool)
        ensures
            yes == (self.issued() + want <= usize::MAX),
    {
        want <= usize::MAX - self.next
    }

    /// Hands out the next identity: the number of identities handed out before.
    pub fn fresh(&mut self) -> (id: usize)
        requires
            old(self).issued() < usize::MAX,
        ensures
            id == old(self).issued(),
            final(self).issued() == old(self).issued() + 1,
    {
        let id = self.next;
        self.next = self.next + 1;
        id
    }
}

/// A learnable tensor, seen from outside: its identity and its shape.
///
/// The value and the gradient of the tensor both have this shape. The identity is
/// given once, when the tensor is made, and is what an optimizer finds it by.
pub struct LearnableParameter {
    pub id: usize,
    pub shape: Vec<usize>,
}

/// A learnable tensor as the contracts see it.
pub struct ParamView {
    pub id: usize,
    pub shape: Seq<usize>,
}

impl View for LearnableParameter {
    type V = ParamView;

    open spec fn view(&self) -> ParamView {
        ParamView { id: self.id, shape: self.shape@ }
    }
}

/// The tensors of a list, each as the contracts see it.
pub open spec fn param_views(params: Seq<LearnableParameter>) -> Seq<ParamView> {
    params.map_values(|p: LearnableParameter| p@)
}

impl LearnableParameter {
    /// Makes a tensor of the given shape, as the initializer makes it.
    pub fn new(shape: &Vec<usize>, initializer: &Initializer, ids: &mut IdSource) -> (param: Self)
        requires
            initializer.accepts(shape@),
            old(ids).issued() < usize::MAX,
        ensures
            param.id == old(ids).issued(),
            param.shape@ == shape@,
            final(ids).issued() == old(ids).issued() + 1,
    {
        initializer.initialize(shape, ids)
    }

    /// A second handle on the same tensor: the same identity and shape.
    pub fn duplicate(&self) -> (copy: Self)
        ensures
            copy@ == self@,
    {
        LearnableParameter { id: self.id, shape: copy_shape(&self.shape) }
    }
}

} // verus!
