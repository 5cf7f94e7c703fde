use nnet::optimizers::{Adam, AdamW, Momentum, Optimizer, RMSProp, Slot, SlotTable, Step, MAX_POWER, SGD};
use nnet::params::param::LearnableParameter;

fn param(id: usize) -> LearnableParameter {
    LearnableParameter { id, shape: vec![2, 2] }
}

#[test]
fn slot_table_gives_slots_in_order_of_first_sight() {
    let mut table = SlotTable::new();
    assert_eq!(table.len(), 0);
    assert_eq!(table.slot_of(40), None);
    assert_eq!(table.slot_for(40), Slot { index: 0, fresh: true });
    assert_eq!(table.slot_for(7), Slot { index: 1, fresh: true });
    assert_eq!(table.slot_for(40), Slot { index: 0, fresh: false });
    assert_eq!(table.slot_for(usize::MAX), Slot { index: 2, fresh: true });
    assert_eq!(table.slot_for(7), Slot { index: 1, fresh: false });
    assert_eq!(table.len(), 3);
    assert_eq!(table.slot_of(7), Some(1));
    assert_eq!(table.slot_of(8), None);
}

#[test]
fn sgd_keeps_nothing() {
    let mut opt = SGD::new(0.1f64.to_bits());
    assert_eq!(f64::from_bits(opt.learning_rate), 0.1);
    let steps = opt.update(&vec![param(3), param(1)]);
    assert_eq!(steps, vec![Step::Sgd { id: 3 }, Step::Sgd { id: 1 }]);
    assert_eq!(opt.update(&vec![]), vec![]);
}

#[test]
fn momentum_state_follows_identity_not_position() {
    let mut opt = Momentum::new(0.05f64.to_bits(), 0.9f64.to_bits());
    let a = 1000;
    let b = 5;
    let first = opt.update(&vec![param(a), param(b)]);
    assert_eq!(
        first,
        vec![
            Step::Momentum { id: a, velocity: Slot { index: 0, fresh: true } },
            Step::Momentum { id: b, velocity: Slot { index: 1, fresh: true } },
        ]
    );
    let second = opt.update(&vec![param(b), param(a)]);
    assert_eq!(
        second,
        vec![
            Step::Momentum { id: b, velocity: Slot { index: 1, fresh: false } },
            Step::Momentum { id: a, velocity: Slot { index: 0, fresh: false } },
        ]
    );
    assert_eq!(opt.velocity.len(), 2);
}

#[test]
fn rmsprop_state_follows_identity_not_position() {
    let mut opt = RMSProp::new(0.005f64.to_bits(), 0.9f64.to_bits());
    assert_eq!(f64::from_bits(opt.decay_rate), 0.9);
    opt.update(&vec![param(1), param(2), param(3)]);
    let again = opt.update(&vec![param(3), param(9), param(1)]);
    assert_eq!(
        again,
        vec![
            Step::RmsProp { id: 3, cache: Slot { index: 2, fresh: false } },
            Step::RmsProp { id: 9, cache: Slot { index: 3, fresh: true } },
            Step::RmsProp { id: 1, cache: Slot { index: 0, fresh: false } },
        ]
    );
}

#[test]
fn adam_first_step_has_power_one_and_fresh_moments() {
    let mut opt = Adam::new(0.005f64.to_bits(), 0.9f64.to_bits(), 0.999f64.to_bits());
    assert_eq!(opt.t, 0);
    let steps = opt.update(&vec![param(77)]);
    assert_eq!(
        steps,
        vec![Step::Adam {
            id: 77,
            m: Slot { index: 0, fresh: true },
            v: Slot { index: 0, fresh: true },
            power: 1,
        }]
    );
    assert_eq!(opt.t, 1);
}

#[test]
fn adam_counts_one_step_for_each_tensor() {
    let mut opt = Adam::new(1, 2, 3);
    opt.update(&vec![param(10), param(20), param(30)]);
    assert_eq!(opt.t, 3);
    let steps = opt.update(&vec![param(30), param(10)]);
    assert_eq!(
        steps,
        vec![
            Step::Adam {
                id: 30,
                m: Slot { index: 2, fresh: false },
                v: Slot { index: 2, fresh: false },
                power: 4,
            },
            Step::Adam {
                id: 10,
                m: Slot { index: 0, fresh: false },
                v: Slot { index: 0, fresh: false },
                power: 5,
            },
        ]
    );
    assert_eq!(opt.t, 5);
    assert_eq!((opt.learning_rate, opt.beta1, opt.beta2), (1, 2, 3));
}

#[test]
fn adam_sees_a_tensor_twice_in_one_update() {
    let mut opt = Adam::new(1, 2, 3);
    let steps = opt.update(&vec![param(4), param(4)]);
    assert_eq!(
        steps,
        vec![
            Step::Adam {
                id: 4,
                m: Slot { index: 0, fresh: true },
                v: Slot { index: 0, fresh: true },
                power: 1,
            },
            Step::Adam {
                id: 4,
                m: Slot { index: 0, fresh: false },
                v: Slot { index: 0, fresh: false },
                power: 2,
            },
        ]
    );
}

#[test]
fn adam_has_room_up_to_the_largest_power() {
    let mut opt = Adam::new(1, 2, 3);
    assert!(opt.can_update(MAX_POWER));
    assert!(!opt.can_update(MAX_POWER + 1));
    opt.t = MAX_POWER - 1;
    assert!(opt.can_update(1));
    assert!(!opt.can_update(2));
    let steps = opt.update(&vec![param(0)]);
    assert_eq!(
        steps,
        vec![Step::Adam {
            id: 0,
            m: Slot { index: 0, fresh: true },
            v: Slot { index: 0, fresh: true },
            power: i32::MAX,
        }]
    );
    assert!(opt.can_update(0));
    assert!(!opt.can_update(1));
    opt.t = usize::MAX;
    assert!(!opt.can_update(0));
}

#[test]
fn adamw_plans_as_adam_with_its_own_steps() {
    let mut opt = AdamW::new(1, 2, 3, 4);
    assert_eq!(opt.weight_decay, 4);
    let steps = opt.update(&vec![param(8), param(6)]);
    assert_eq!(
        steps,
        vec![
            Step::AdamW {
                id: 8,
                m: Slot { index: 0, fresh: true },
                v: Slot { index: 0, fresh: true },
                power: 1,
            },
            Step::AdamW {
                id: 6,
                m: Slot { index: 1, fresh: true },
                v: Slot { index: 1, fresh: true },
                power: 2,
            },
        ]
    );
    assert_eq!(opt.t, 2);
    assert!(opt.can_update(MAX_POWER - 2));
    assert!(!opt.can_update(MAX_POWER - 1));
}

#[test]
fn any_optimizer_plans_by_its_kind() {
    let mut opts = vec![
        Optimizer::Sgd(SGD::new(1)),
        Optimizer::Momentum(Momentum::new(1, 2)),
        Optimizer::RmsProp(RMSProp::new(1, 2)),
        Optimizer::Adam(Adam::new(1, 2, 3)),
        Optimizer::AdamW(AdamW::new(1, 2, 3, 4)),
    ];
    let fresh = Slot { index: 0, fresh: true };
    let expected = vec![
        Step::Sgd { id: 5 },
        Step::Momentum { id: 5, velocity: fresh },
        Step::RmsProp { id: 5, cache: fresh },
        Step::Adam { id: 5, m: fresh, v: fresh, power: 1 },
        Step::AdamW { id: 5, m: fresh, v: fresh, power: 1 },
    ];
    for (opt, want) in opts.iter_mut().zip(expected) {
        assert!(opt.can_update(1));
        assert_eq!(opt.update(&vec![param(5)]), vec![want]);
    }
}
