//! The optimizers: which accumulators each learnable tensor gets, found again by the
//! tensor's identity, and how the steps are counted.

use vstd::prelude::*;
use std::collections::HashMap;
use crate::params::param::LearnableParameter;

verus! {

broadcast use vstd::std_specs::hash::group_hash_axioms;

/// Where the accumulator of a tensor lives. `fresh` says that the tensor was not
/// seen before, so that the accumulator starts as zeros of the tensor's shape.
#[derive(Clone, Copy, Debug, PartialEq, Eq, Structural)]
pub struct Slot {
    pub index: usize,
    pub fresh: bool,
}

/// A table after a tensor was seen: a tensor that it knows keeps its slot, a new one
/// takes the next slot.
pub open spec fn observe(table: Map<usize, nat>, id: usize) -> Map<usize, nat> {
    if table.contains_key(id) {
        table
    } else {
        table.insert(id, table.len())
    }
}

/// A table after the tensors of a list were seen, the first of the list first.
pub open spec fn observe_all(table: Map<usize, nat>, ids: Seq<usize>) -> Map<usize, nat>
    decreases ids.len(),
{
    if ids.len() == 0 {
        table
    } else {
        observe(observe_all(table, ids.drop_last()), ids.last())
    }
}

/// A table that gives each tensor it knows a slot of its own, the slots being
/// `0, 1, ..` without a gap.
pub open spec fn is_slot_table(table: Map<usize, nat>) -> bool {
    &&& table.dom().finite()
    &&& forall|id: usize| table.contains_key(id) ==> #[trigger] table[id] < table.len()
    &&& forall|a: usize, b: usize|
        table.contains_key(a) && table.contains_key(b) && #[trigger] table[a] == #[trigger] table[b]
            ==> a == b
}

/// Whether `slot` is what tensor `i` of a list gets from a table: the slot under
/// its identity once it was seen, fresh if none before it in the list, nor the
/// table, had that identity.
pub open spec fn is_slot_at(slot: Slot, table: Map<usize, nat>, ids: Seq<usize>, i: int) -> bool {
    &&& slot.index == observe_all(table, ids.take(i + 1))[ids[i]]
    &&& slot.fresh == !observe_all(table, ids.take(i)).contains_key(ids[i])
}

/// The identities of the tensors of a list.
pub open spec fn param_ids(params: Seq<LearnableParameter>) -> Seq<usize> {
    params.map_values(|p: LearnableParameter| p.id)
}

/// Slots for accumulators, one for each identity seen so far.
pub struct SlotTable {
    slots: HashMap<usize, usize>,
}

impl View for SlotTable {
    type V = Map<usize, nat>;

    closed spec fn view(&self) -> Map<usize, nat> {
        self.slots@.map_values(|slot: usize| slot as nat)
    }
}

impl SlotTable {
    /// A table that knows no tensor.
    pub fn new() -> (table: Self)
        ensures
            table@ == Map::<usize, nat>::empty(),
    {
        let table = SlotTable { slots: HashMap::new() };
        assert(table@ =~= Map::<usize, nat>::empty());
        table
    }

    /// How many tensors the table knows.
    pub fn len(&self) -> (n: usize)
        ensures
            n == self@.len(),
    {
        assert(self@.dom() =~= self.slots@.dom());
        self.slots.len()
    }

    /// The slot of a tensor, if the table knows it.
    pub fn slot_of(&self, id: usize) -> (slot: Option<usize>)
        ensures
            match slot {
                Some(index) => self@.contains_key(id) && self@[id] == index,
                None => !self@.contains_key(id),
            },
    {
        match self.slots.get(&id) {
            Some(index) => Some(*index),
            None => None,
        }
    }

    /// Sees a tensor: gives the slot under its identity, taking the next free slot
    /// if the identity is new.
    pub fn slot_for(&mut self, id: usize) -> (slot: Slot)
        ensures
            final(self)@ == observe(old(self)@, id),
            slot.index == final(self)@[id],
            slot.fresh == !old(self)@.contains_key(id),
    {
        let known = match self.slots.get(&id) {
            Some(index) => Some(*index),
            None => None,
        };
        match known {
            Some(index) => Slot { index, fresh: false },
            None => {
                let index = self.slots.len();
                assert(old(self)@.dom() =~= old(self).slots@.dom());
                self.slots.insert(id, index);
                assert(self@ =~= observe(old(self)@, id));
                Slot { index, fresh: true }
            },
        }
    }
}

/// What an optimizer does to one tensor in one update.
#[derive(Clone, Copy, Debug, PartialEq, Eq, Structural)]
pub enum Step {
    /// The value moves against the gradient.
    Sgd { id: usize },
    /// The velocity in the slot is updated from the gradient, and moves the value.
    Momentum { id: usize, velocity: Slot },
    /// The running mean of squared gradients in the slot is updated, and scales the
    /// move.
    RmsProp { id: usize, cache: Slot },
    /// The two moments in the slots are updated; each is corrected by one minus
    /// its decay rate to the given power.
    Adam { id: usize, m: Slot, v: Slot, power: i32 },
    /// As `Adam`; then the value, already moved, decays toward zero.
    AdamW { id: usize, m: Slot, v: Slot, power: i32 },
}

/// Seeing one more tensor of a list.
pub proof fn lemma_observe_next(table: Map<usize, nat>, ids: Seq<usize>, i: int)
    requires
        0 <= i < ids.len(),
    ensures
        observe_all(table, ids.take(i + 1)) == observe(observe_all(table, ids.take(i)), ids[i]),
{
    assert(ids.take(i + 1).drop_last() =~= ids.take(i));
}

/// The largest power that a moment's correction can be raised to.
pub const MAX_POWER: usize = 0x7fff_ffff;

/// Whether `steps` holds one step of the given kind for each tensor of a list.
pub open spec fn is_plan(steps: Seq<Step>, ids: Seq<usize>, kind: spec_fn(Step, int) -> bool) -> bool {
    &&& steps.len() == ids.len()
    &&& forall|i: int| 0 <= i < ids.len() ==> kind(#[trigger] steps[i], i)
}

/// Plain gradient descent. It keeps nothing between updates.
pub struct SGD {
    /// The step width, as the 64 bits of its encoding.
    pub learning_rate: u64,
}

impl SGD {
    /// An optimizer with the given step width.
    pub fn new(learning_rate: u64) -> (opt: Self)
        ensures
            opt.learning_rate == learning_rate,
    {
        SGD { learning_rate }
    }

    /// What an update does: one plain step for each tensor, in the list's order.
    pub open spec fn updates_to(self, after: Self, ids: Seq<usize>, steps: Seq<Step>) -> bool {
        &&& after == self
        &&& is_plan(steps, ids, |step: Step, i: int| step == (Step::Sgd { id: ids[i] }))
    }

    /// Plans one update of the given tensors.
    pub fn update(&mut self, params: &Vec<LearnableParameter>) -> (steps: Vec<Step>)
        ensures
            old(self).updates_to(*final(self), param_ids(params@), steps@),
    {
        let ghost ids = param_ids(params@);
        let mut steps: Vec<Step> = Vec::new();
        let mut i: usize = 0;
        while i < params.len()
            invariant
                i <= params.len(),
                ids == param_ids(params@),
                steps@.len() == i,
                forall|k: int| 0 <= k < i ==> (#[trigger] steps@[k]) == (Step::Sgd { id: ids[k] }),
            decreases params.len() - i,
        {
            steps.push(Step::Sgd { id: params[i].id });
            i += 1;
        }
        steps
    }
}

/// Gradient descent with a velocity for each tensor.
pub struct Momentum {
    /// The step width, as the 64 bits of its encoding.
    pub learning_rate: u64,
    /// The share of the velocity that is kept, as the 64 bits of its encoding.
    pub momentum: u64,
    /// Where the velocity of each tensor lives.
    pub velocity: SlotTable,
}

impl Momentum {
    /// An optimizer that has seen no tensor yet.
    pub fn new(learning_rate: u64, momentum: u64) -> (opt: Self)
        ensures
            opt.learning_rate == learning_rate,
            opt.momentum == momentum,
            opt.velocity@ == Map::<usize, nat>::empty(),
    {
        Momentum { learning_rate, momentum, velocity: SlotTable::new() }
    }

    /// What an update does: each tensor gets the velocity kept under its identity.
    pub open spec fn updates_to(self, after: Self, ids: Seq<usize>, steps: Seq<Step>) -> bool {
        &&& after.learning_rate == self.learning_rate
        &&& after.momentum == self.momentum
        &&& after.velocity@ == observe_all(self.velocity@, ids)
        &&& is_plan(
            steps,
            ids,
            |step: Step, i: int|
                step matches Step::Momentum { id, velocity } && id == ids[i] && is_slot_at(
                    velocity,
                    self.velocity@,
                    ids,
                    i,
                ),
        )
    }

    /// Plans one update of the given tensors.
    pub fn update(&mut self, params: &Vec<LearnableParameter>) -> (steps: Vec<Step>)
        ensures
            old(self).updates_to(*final(self), param_ids(params@), steps@),
    {
        let ghost ids = param_ids(params@);
        let ghost before = self.velocity@;
        let mut steps: Vec<Step> = Vec::new();
        let mut i: usize = 0;
        assert(ids.take(0) =~= Seq::<usize>::empty());
        while i < params.len()
            invariant
                i <= params.len(),
                ids == param_ids(params@),
                before == old(self).velocity@,
                self.learning_rate == old(self).learning_rate,
                self.momentum == old(self).momentum,
                self.velocity@ == observe_all(before, ids.take(i as int)),
                steps@.len() == i,
                forall|k: int|
                    0 <= k < i ==> (#[trigger] steps@[k] matches Step::Momentum { id, velocity }
                        && id == ids[k] && is_slot_at(velocity, before, ids, k)),
            decreases params.len() - i,
        {
            let id = params[i].id;
            proof {
                lemma_observe_next(before, ids, i as int);
            }
            let velocity = self.velocity.slot_for(id);
            steps.push(Step::Momentum { id, velocity });
            i += 1;
        }
        assert(ids.take(ids.len() as int) =~= ids);
        steps
    }
}

/// Gradient descent scaled by a running mean of squared gradients.
pub struct RMSProp {
    /// The step width, as the 64 bits of its encoding.
    pub learning_rate: u64,
    /// The share of the running mean that is kept, as the 64 bits of its encoding.
    pub decay_rate: u64,
    /// Where the running mean of each tensor lives.
    pub cache: SlotTable,
}

impl RMSProp {
    /// An optimizer that has seen no tensor yet.
    pub fn new(learning_rate: u64, decay_rate: u64) -> (opt: Self)
        ensures
            opt.learning_rate == learning_rate,
            opt.decay_rate == decay_rate,
            opt.cache@ == Map::<usize, nat>::empty(),
    {
        RMSProp { learning_rate, decay_rate, cache: SlotTable::new() }
    }

    /// What an update does: each tensor gets the running mean kept under its
    /// identity.
    pub open spec fn updates_to(self, after: Self, ids: Seq<usize>, steps: Seq<Step>) -> bool {
        &&& after.learning_rate == self.learning_rate
        &&& after.decay_rate == self.decay_rate
        &&& after.cache@ == observe_all(self.cache@, ids)
        &&& is_plan(
            steps,
            ids,
            |step: Step, i: int|
                step matches Step::RmsProp { id, cache } && id == ids[i] && is_slot_at(
                    cache,
                    self.cache@,
                    ids,
                    i,
                ),
        )
    }

    /// Plans one update of the given tensors.
    pub fn update(&mut self, params: &Vec<LearnableParameter>) -> (steps: Vec<Step>)
        ensures
            old(self).updates_to(*final(self), param_ids(params@), steps@),
    {
        let ghost ids = param_ids(params@);
        let ghost before = self.cache@;
        let mut steps: Vec<Step> = Vec::new();
        let mut i: usize = 0;
        assert(ids.take(0) =~= Seq::<usize>::empty());
        while i < params.len()
            invariant
                i <= params.len(),
                ids == param_ids(params@),
                before == old(self).cache@,
                self.learning_rate == old(self).learning_rate,
                self.decay_rate == old(self).decay_rate,
                self.cache@ == observe_all(before, ids.take(i as int)),
                steps@.len() == i,
                forall|k: int|
                    0 <= k < i ==> (#[trigger] steps@[k] matches Step::RmsProp { id, cache } && id
                        == ids[k] && is_slot_at(cache, before, ids, k)),
            decreases params.len() - i,
        {
            let id = params[i].id;
            proof {
                lemma_observe_next(before, ids, i as int);
            }
            let cache = self.cache.slot_for(id);
            steps.push(Step::RmsProp { id, cache });
            i += 1;
        }
        assert(ids.take(ids.len() as int) =~= ids);
        steps
    }
}

/// Whether `step` is what the tensor at place `i` of a list gets from the two
/// moment tables after `t` steps: the moments kept under its identity, and the
/// power `t + i + 1`, since every tensor counts as a step.
pub open spec fn is_moment_step(
    m: Slot,
    v: Slot,
    power: i32,
    first: Map<usize, nat>,
    second: Map<usize, nat>,
    t: nat,
    ids: Seq<usize>,
    i: int,
) -> bool {
    &&& is_slot_at(m, first, ids, i)
    &&& is_slot_at(v, second, ids, i)
    &&& power == t + i + 1
}

/// Gradient descent with two running moments for each tensor, each corrected for
/// its start at zero.
pub struct Adam {
    /// The step width, as the 64 bits of its encoding.
    pub learning_rate: u64,
    /// The share of the first moment that is kept, as the 64 bits of its encoding.
    pub beta1: u64,
    /// The share of the second moment that is kept, as the 64 bits of its encoding.
    pub beta2: u64,
    /// Where the first moment of each tensor lives.
    pub m: SlotTable,
    /// Where the second moment of each tensor lives.
    pub v: SlotTable,
    /// How many tensors were stepped so far, over all updates.
    pub t: usize,
}

impl Adam {
    /// An optimizer that has seen no tensor and counted no step yet.
    pub fn new(learning_rate: u64, beta1: u64, beta2: u64) -> (opt: Self)
        ensures
            opt.learning_rate == learning_rate,
            opt.beta1 == beta1,
            opt.beta2 == beta2,
            opt.m@ == Map::<usize, nat>::empty(),
            opt.v@ == Map::<usize, nat>::empty(),
            opt.t == 0,
    {
        Adam { learning_rate, beta1, beta2, m: SlotTable::new(), v: SlotTable::new(), t: 0 }
    }

    /// Whether the step count leaves room for `n` more tensors.
    pub open spec fn has_room(self, n: nat) -> bool {
        self.t + n <= MAX_POWER
    }

    /// Tells whether the step count leaves room for `n` more tensors.
    pub fn can_update(&self, n: usize) -> (yes: bool)
        ensures
            yes == self.has_room(n as nat),
    {
        self.t <= MAX_POWER && n <= MAX_POWER - self.t
    }

    /// What an update does: each tensor gets the moments kept under its identity
    /// and the next power, and the step count grows by one for each tensor.
    pub open spec fn updates_to(self, after: Self, ids: Seq<usize>, steps: Seq<Step>) -> bool {
        &&& after.learning_rate == self.learning_rate
        &&& after.beta1 == self.beta1
        &&& after.beta2 == self.beta2
        &&& after.m@ == observe_all(self.m@, ids)
        &&& after.v@ == observe_all(self.v@, ids)
        &&& after.t == self.t + ids.len()
        &&& is_plan(
            steps,
            ids,
            |step: Step, i: int|
                step matches Step::Adam { id, m, v, power } && id == ids[i] && is_moment_step(
                    m,
                    v,
                    power,
                    self.m@,
                    self.v@,
                    self.t as nat,
                    ids,
                    i,
                ),
        )
    }

    /// Plans one update of the given tensors.
    pub fn update(&mut self, params: &Vec<LearnableParameter>) -> (steps: Vec<Step>)
        requires
            old(self).has_room(params@.len()),
        ensures
            old(self).updates_to(*final(self), param_ids(params@), steps@),
    {
        let ghost ids = param_ids(params@);
        let ghost first = self.m@;
        let ghost second = self.v@;
        let mut steps: Vec<Step> = Vec::new();
        let mut i: usize = 0;
        assert(ids.take(0) =~= Seq::<usize>::empty());
        while i < params.len()
            invariant
                i <= params.len(),
                ids == param_ids(params@),
                first == old(self).m@,
                second == old(self).v@,
                old(self).has_room(params@.len()),
                self.learning_rate == old(self).learning_rate,
                self.beta1 == old(self).beta1,
                self.beta2 == old(self).beta2,
                self.t == old(self).t + i,
                self.m@ == observe_all(first, ids.take(i as int)),
                self.v@ == observe_all(second, ids.take(i as int)),
                steps@.len() == i,
                forall|k: int|
                    0 <= k < i ==> (#[trigger] steps@[k] matches Step::Adam { id, m, v, power }
                        && id == ids[k] && is_moment_step(
                        m,
                        v,
                        power,
                        first,
                        second,
                        old(self).t as nat,
                        ids,
                        k,
                    )),
            decreases params.len() - i,
        {
            let id = params[i].id;
            proof {
                lemma_observe_next(first, ids, i as int);
                lemma_observe_next(second, ids, i as int);
            }
            let m = self.m.slot_for(id);
            let v = self.v.slot_for(id);
            let power: i32 = (self.t + 1) as i32;
            steps.push(Step::Adam { id, m, v, power });
            self.t = self.t + 1;
            i += 1;
        }
        assert(ids.take(ids.len() as int) =~= ids);
        steps
    }
}

/// Adam, followed by a decay of the value that does not pass through the moments.
pub struct AdamW {
    /// The step width, as the 64 bits of its encoding.
    pub learning_rate: u64,
    /// The share of the first moment that is kept, as the 64 bits of its encoding.
    pub beta1: u64,
    /// The share of the second moment that is kept, as the 64 bits of its encoding.
    pub beta2: u64,
    /// The share of the value that decays in each step, as the 64 bits of its
    /// encoding.
    pub weight_decay: u64,
    /// Where the first moment of each tensor lives.
    pub m: SlotTable,
    /// Where the second moment of each tensor lives.
    pub v: SlotTable,
    /// How many tensors were stepped so far, over all updates.
    pub t: usize,
}

impl AdamW {
    /// An optimizer that has seen no tensor and counted no step yet.
    pub fn new(learning_rate: u64, beta1: u64, beta2: u64, weight_decay: u64) -> (opt: Self)
        ensures
            opt.learning_rate == learning_rate,
            opt.beta1 == beta1,
            opt.beta2 == beta2,
            opt.weight_decay == weight_decay,
            opt.m@ == Map::<usize, nat>::empty(),
            opt.v@ == Map::<usize, nat>::empty(),
            opt.t == 0,
    {
        AdamW {
            learning_rate,
            beta1,
            beta2,
            weight_decay,
            m: SlotTable::new(),
            v: SlotTable::new(),
            t: 0,
        }
    }

    /// Whether the step count leaves room for `n` more tensors.
    pub open spec fn has_room(self, n: nat) -> bool {
        self.t + n <= MAX_POWER
    }

    /// Tells whether the step count leaves room for `n` more tensors.
    pub fn can_update(&self, n: usize) -> (yes: bool)
        ensures
            yes == self.has_room(n as nat),
    {
        self.t <= MAX_POWER && n <= MAX_POWER - self.t
    }

    /// What an update does: as for `Adam`, with steps that end in the decay.
    pub open spec fn updates_to(self, after: Self, ids: Seq<usize>, steps: Seq<Step>) -> bool {
        &&& after.learning_rate == self.learning_rate
        &&& after.beta1 == self.beta1
        &&& after.beta2 == self.beta2
        &&& after.weight_decay == self.weight_decay
        &&& after.m@ == observe_all(self.m@, ids)
        &&& after.v@ == observe_all(self.v@, ids)
        &&& after.t == self.t + ids.len()
        &&& is_plan(
            steps,
            ids,
            |step: Step, i: int|
                step matches Step::AdamW { id, m, v, power } && id == ids[i] && is_moment_step(
                    m,
                    v,
                    power,
                    self.m@,
                    self.v@,
                    self.t as nat,
                    ids,
                    i,
                ),
        )
    }

    /// Plans one update of the given tensors.
    pub fn update(&mut self, params: &Vec<LearnableParameter>) -> (steps: Vec<Step>)
        requires
            old(self).has_room(params@.len()),
        ensures
            old(self).updates_to(*final(self), param_ids(params@), steps@),
    {
        let ghost ids = param_ids(params@);
        let ghost first = self.m@;
        let ghost second = self.v@;
        let mut steps: Vec<Step> = Vec::new();
        let mut i: usize = 0;
        assert(ids.take(0) =~= Seq::<usize>::empty());
        while i < params.len()
            invariant
                i <= params.len(),
                ids == param_ids(params@),
                first == old(self).m@,
                second == old(self).v@,
                old(self).has_room(params@.len()),
                self.learning_rate == old(self).learning_rate,
                self.beta1 == old(self).beta1,
                self.beta2 == old(self).beta2,
                self.weight_decay == old(self).weight_decay,
                self.t == old(self).t + i,
                self.m@ == observe_all(first, ids.take(i as int)),
                self.v@ == observe_all(second, ids.take(i as int)),
                steps@.len() == i,
                forall|k: int|
                    0 <= k < i ==> (#[trigger] steps@[k] matches Step::AdamW { id, m, v, power }
                        && id == ids[k] && is_moment_step(
                        m,
                        v,
                        power,
                        first,
                        second,
                        old(self).t as nat,
                        ids,
                        k,
                    )),
            decreases params.len() - i,
        {
            let id = params[i].id;
            proof {
                lemma_observe_next(first, ids, i as int);
                lemma_observe_next(second, ids, i as int);
            }
            let m = self.m.slot_for(id);
            let v = self.v.slot_for(id);
            let power: i32 = (self.t + 1) as i32;
            steps.push(Step::AdamW { id, m, v, power });
            self.t = self.t + 1;
            i += 1;
        }
        assert(ids.take(ids.len() as int) =~= ids);
        steps
    }
}

/// Any of the optimizers.
pub enum Optimizer {
    Sgd(SGD),
    Momentum(Momentum),
    RmsProp(RMSProp),
    Adam(Adam),
    AdamW(AdamW),
}

impl Optimizer {
    /// Whether the optimizer can take `n` more tensors.
    pub open spec fn has_room(self, n: nat) -> bool {
        match self {
            Optimizer::Adam(o) => o.has_room(n),
            Optimizer::AdamW(o) => o.has_room(n),
            _ => true,
        }
    }

    /// What an update does, by the kind of the optimizer.
    pub open spec fn updates_to(self, after: Self, ids: Seq<usize>, steps: Seq<Step>) -> bool {
        match (self, after) {
            (Optimizer::Sgd(a), Optimizer::Sgd(b)) => a.updates_to(b, ids, steps),
            (Optimizer::Momentum(a), Optimizer::Momentum(b)) => a.updates_to(b, ids, steps),
            (Optimizer::RmsProp(a), Optimizer::RmsProp(b)) => a.updates_to(b, ids, steps),
            (Optimizer::Adam(a), Optimizer::Adam(b)) => a.updates_to(b, ids, steps),
            (Optimizer::AdamW(a), Optimizer::AdamW(b)) => a.updates_to(b, ids, steps),
            _ => false,
        }
    }

    /// Tells whether the optimizer can take `n` more tensors.
    pub fn can_update(&self, n: usize) -> (yes: bool)
        ensures
            yes == self.has_room(n as nat),
    {
        match self {
            Optimizer::Adam(o) => o.can_update(n),
            Optimizer::AdamW(o) => o.can_update(n),
            _ => true,
        }
    }

    /// Plans one update of the given tensors.
    pub fn update(&mut self, params: &Vec<LearnableParameter>) -> (steps: Vec<Step>)
        requires
            old(self).has_room(params@.len()),
        ensures
            old(self).updates_to(*final(self), param_ids(params@), steps@),
    {
        match self {
            Optimizer::Sgd(o) => o.update(params),
            Optimizer::Momentum(o) => o.update(params),
            Optimizer::RmsProp(o) => o.update(params),
            Optimizer::Adam(o) => o.update(params),
            Optimizer::AdamW(o) => o.update(params),
        }
    }
}

/// Seeing a tensor leaves every known tensor its slot, and leaves each tensor a
/// slot of its own.
pub proof fn lemma_observe_keeps_table(table: Map<usize, nat>, id: usize)
    requires
        is_slot_table(table),
    ensures
        is_slot_table(observe(table, id)),
        observe(table, id).contains_key(id),
        forall|other: usize| #[trigger]
            table.contains_key(other) ==> observe(table, id).contains_key(other) && observe(
                table,
                id,
            )[other] == table[other],
{
    if !table.contains_key(id) {
        let after = table.insert(id, table.len());
        assert(after.dom() =~= table.dom().insert(id));
        assert(after.len() == table.len() + 1);
        assert forall|a: usize, b: usize|
            after.contains_key(a) && after.contains_key(b) && #[trigger] after[a]
                == #[trigger] after[b] implies a == b by {
            if a != id && b != id {
                assert(table[a] == table[b]);
            } else if a != id {
                assert(table[a] < table.len());
            } else if b != id {
                assert(table[b] < table.len());
            }
        }
        assert forall|other: usize| after.contains_key(other) implies #[trigger] after[other]
            < after.len() by {
            if other != id {
                assert(table[other] < table.len());
            }
        }
    }
}

/// Seeing the tensors of a list leaves every known tensor its slot, leaves each
/// tensor a slot of its own, and knows every tensor of the list afterwards.
pub proof fn lemma_observe_all_keeps_table(table: Map<usize, nat>, ids: Seq<usize>)
    requires
        is_slot_table(table),
    ensures
        is_slot_table(observe_all(table, ids)),
        forall|id: usize| #[trigger]
            table.contains_key(id) ==> observe_all(table, ids).contains_key(id) && observe_all(
                table,
                ids,
            )[id] == table[id],
        forall|i: int|
            0 <= i < ids.len() ==> observe_all(table, ids).contains_key(#[trigger] ids[i]),
    decreases ids.len(),
{
    if ids.len() > 0 {
        let front = ids.drop_last();
        let before = observe_all(table, front);
        lemma_observe_all_keeps_table(table, front);
        lemma_observe_keeps_table(before, ids.last());
        assert forall|id: usize| #[trigger] table.contains_key(id) implies observe_all(
            table,
            ids,
        ).contains_key(id) && observe_all(table, ids)[id] == table[id] by {
            assert(before.contains_key(id));
        }
        assert forall|i: int| 0 <= i < ids.len() implies observe_all(table, ids).contains_key(
            #[trigger] ids[i],
        ) by {
            if i < front.len() {
                assert(front[i] == ids[i]);
                assert(before.contains_key(front[i]));
            }
        }
    }
}

/// Seeing one list after another is seeing the two put together.
pub proof fn lemma_observe_all_concat(table: Map<usize, nat>, front: Seq<usize>, back: Seq<usize>)
    ensures
        observe_all(table, front + back) == observe_all(observe_all(table, front), back),
    decreases back.len(),
{
    if back.len() == 0 {
        assert(front + back =~= front);
    } else {
        lemma_observe_all_concat(table, front, back.drop_last());
        assert((front + back).drop_last() =~= front + back.drop_last());
        assert((front + back).last() == back.last());
    }
}

/// The slot that a tensor is given in an update is the slot that the table holds
/// for it when the update is over.
pub proof fn lemma_slot_lasts(slot: Slot, table: Map<usize, nat>, ids: Seq<usize>, i: int)
    requires
        is_slot_table(table),
        0 <= i < ids.len(),
        is_slot_at(slot, table, ids, i),
    ensures
        observe_all(table, ids).contains_key(ids[i]),
        slot.index == observe_all(table, ids)[ids[i]],
{
    let upto = ids.take(i + 1);
    let rest = ids.skip(i + 1);
    assert(upto + rest =~= ids);
    lemma_observe_all_concat(table, upto, rest);
    lemma_observe_all_keeps_table(table, upto);
    assert(upto[i] == ids[i]);
    assert(observe_all(table, upto).contains_key(upto[i]));
    lemma_observe_all_keeps_table(observe_all(table, upto), rest);
}

/// The accumulators follow the identity, not the place in the list: a tensor that
/// the table knows gets the slot held under its identity wherever it stands, and
/// the slot is not fresh.
pub proof fn lemma_known_slot(slot: Slot, table: Map<usize, nat>, ids: Seq<usize>, i: int)
    requires
        is_slot_table(table),
        0 <= i < ids.len(),
        table.contains_key(ids[i]),
        is_slot_at(slot, table, ids, i),
    ensures
        slot.index == table[ids[i]],
        !slot.fresh,
{
    lemma_observe_all_keeps_table(table, ids.take(i));
    lemma_observe_all_keeps_table(table, ids.take(i + 1));
    assert(table.contains_key(ids[i]));
}

/// Tensors with different identities never share a slot in one update, and a
/// tensor that stands twice in the list gets the same slot both times.
pub proof fn lemma_slots_by_identity(
    first: Slot,
    second: Slot,
    table: Map<usize, nat>,
    ids: Seq<usize>,
    i: int,
    j: int,
)
    requires
        is_slot_table(table),
        0 <= i < ids.len(),
        0 <= j < ids.len(),
        is_slot_at(first, table, ids, i),
        is_slot_at(second, table, ids, j),
    ensures
        (first.index == second.index) == (ids[i] == ids[j]),
{
    lemma_slot_lasts(first, table, ids, i);
    lemma_slot_lasts(second, table, ids, j);
    lemma_observe_all_keeps_table(table, ids);
}

/// Two tensors updated in one order and then in the other: each finds the
/// accumulator that it was given the first time, and the two never share one.
pub proof fn lemma_slots_follow_identity(
    table: Map<usize, nat>,
    a: usize,
    b: usize,
    first_a: Slot,
    first_b: Slot,
    then_b: Slot,
    then_a: Slot,
)
    requires
        is_slot_table(table),
        a != b,
        is_slot_at(first_a, table, seq![a, b], 0),
        is_slot_at(first_b, table, seq![a, b], 1),
        is_slot_at(then_b, observe_all(table, seq![a, b]), seq![b, a], 0),
        is_slot_at(then_a, observe_all(table, seq![a, b]), seq![b, a], 1),
    ensures
        then_a.index == first_a.index,
        then_b.index == first_b.index,
        first_a.index != first_b.index,
        !then_a.fresh,
        !then_b.fresh,
        observe_all(observe_all(table, seq![a, b]), seq![b, a]) == observe_all(table, seq![a, b]),
{
    let once = seq![a, b];
    let again = seq![b, a];
    let after = observe_all(table, once);
    lemma_slot_lasts(first_a, table, once, 0);
    lemma_slot_lasts(first_b, table, once, 1);
    lemma_slots_by_identity(first_a, first_b, table, once, 0, 1);
    lemma_observe_all_keeps_table(table, once);
    assert(once[0] == a && once[1] == b);
    lemma_known_slot(then_b, after, again, 0);
    lemma_known_slot(then_a, after, again, 1);
    assert(again.drop_last() =~= seq![b]);
    assert(seq![b].drop_last() =~= Seq::<usize>::empty());
    assert(observe_all(after, Seq::<usize>::empty()) == after);
    assert(observe_all(after, seq![b]) == observe(after, b));
    assert(observe_all(after, again) == observe(observe_all(after, seq![b]), a));
}

/// The table carries over from one update to the next: what a tensor gets in a
/// second update is what it would get at its place in one update of the two
/// lists put together.
pub proof fn lemma_slot_in_later_update(
    slot: Slot,
    table: Map<usize, nat>,
    first: Seq<usize>,
    second: Seq<usize>,
    i: int,
)
    requires
        0 <= i < second.len(),
    ensures
        is_slot_at(slot, observe_all(table, first), second, i) == is_slot_at(
            slot,
            table,
            first + second,
            first.len() + i,
        ),
{
    let both = first + second;
    let at = first.len() + i;
    assert(both.take(at) =~= first + second.take(i));
    assert(both.take(at + 1) =~= first + second.take(i + 1));
    assert(both[at] == second[i]);
    lemma_observe_all_concat(table, first, second.take(i));
    lemma_observe_all_concat(table, first, second.take(i + 1));
}

/// The first tensor that a new optimizer with moments steps gets fresh moments in
/// slot zero, and the power one.
pub proof fn lemma_first_moment_step(m: Slot, v: Slot, power: i32, ids: Seq<usize>)
    requires
        ids.len() > 0,
        is_moment_step(
            m,
            v,
            power,
            Map::<usize, nat>::empty(),
            Map::<usize, nat>::empty(),
            0,
            ids,
            0,
        ),
    ensures
        m == (Slot { index: 0, fresh: true }),
        v == (Slot { index: 0, fresh: true }),
        power == 1,
{
    let none = Map::<usize, nat>::empty();
    assert(ids.take(0) =~= Seq::<usize>::empty());
    assert(ids.take(1).drop_last() =~= Seq::<usize>::empty());
    assert(ids.take(1).last() == ids[0]);
    assert(observe_all(none, ids.take(0)) == none);
    assert(observe_all(none, ids.take(1)) == observe(none, ids[0]));
    assert(none.len() == 0);
}

} // verus!
