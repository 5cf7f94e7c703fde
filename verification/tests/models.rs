use nnet::losses::{CrossEntropyLoss, LossFunction};
use nnet::models::BaseModel;
use nnet::networks::block::Sequential;
use nnet::networks::layer::{AffineLayer, BatchNorm, Dropout, Layer, ReLU, Softmax};
use nnet::optimizers::{Adam, Momentum, Optimizer, RMSProp, Slot, Step, SGD};
use nnet::params::initializer::{HeInitializer, Initializer, ZeroInitializer};
use nnet::params::param::IdSource;
use nnet::utils::batch::{create_batches, one_hot_encode};

fn he() -> Initializer {
    Initializer::He(HeInitializer)
}

fn zero() -> Initializer {
    Initializer::Zero(ZeroInitializer)
}

fn loss() -> LossFunction {
    LossFunction::CrossEntropy(CrossEntropyLoss::new())
}

#[test]
fn two_layer_network_takes_one_sgd_step() {
    let mut ids = IdSource::new();
    let net = Layer::Sequential(Sequential::new(vec![
        Layer::Affine(AffineLayer::new(4, 3, &he(), &zero(), None, &mut ids)),
        Layer::Softmax(Softmax::new()),
    ]));
    let mut model = BaseModel::new(net, loss(), Optimizer::Sgd(SGD::new(0.1f64.to_bits())));
    let input = vec![2, 4];
    let target = one_hot_encode(&vec![0, 1], 3);
    assert_eq!(target, vec![vec![1, 0, 0], vec![0, 1, 0]]);
    let target_shape = vec![target.len(), target[0].len()];
    assert!(model.can_score(&input, &target_shape));
    assert!(model.can_train_on(&input, &target_shape));
    let plan = model.step(&input, &target_shape);
    assert_eq!(plan.output, vec![2, 3]);
    assert_eq!(plan.rows, 2);
    assert_eq!(plan.grad, vec![2, 3]);
    assert_eq!(plan.input_grad, vec![2, 4]);
    assert_eq!(plan.steps, vec![Step::Sgd { id: 0 }, Step::Sgd { id: 1 }]);
    assert_eq!(model.loss(&input, &target_shape), 2);
    assert_eq!(model.predict(&input), vec![2, 3]);
}

#[test]
fn a_model_refuses_what_its_parts_refuse() {
    let mut ids = IdSource::new();
    let net = Layer::Sequential(Sequential::new(vec![
        Layer::Affine(AffineLayer::new(4, 3, &he(), &zero(), None, &mut ids)),
        Layer::Dropout(Dropout::new(0)),
    ]));
    let mut model = BaseModel::new(net, loss(), Optimizer::Adam(Adam::new(1, 2, 3)));
    assert!(!model.can_score(&vec![2, 5], &vec![2, 3]));
    assert!(!model.can_score(&vec![2, 4], &vec![2, 4]));
    assert!(!model.can_train_on(&vec![2, 4], &vec![3, 3]));
    assert!(model.can_train_on(&vec![2, 4], &vec![2, 3]));
    model.main_layer.set_training(false);
    assert!(model.can_score(&vec![2, 4], &vec![2, 3]));
    assert!(!model.can_train_on(&vec![2, 4], &vec![2, 3]));
    model.main_layer.set_training(true);
    if let Optimizer::Adam(adam) = &mut model.optimizer {
        adam.t = 0x7fff_ffff - 1;
    }
    assert!(!model.can_train_on(&vec![2, 4], &vec![2, 3]));
}

fn mnist_net(ids: &mut IdSource, with_norm: bool) -> Layer {
    let mut layers = Vec::new();
    for (from, to) in [(784, 128), (128, 64), (64, 10)] {
        layers.push(Layer::Affine(AffineLayer::new(from, to, &he(), &zero(), None, ids)));
        if with_norm {
            layers.push(Layer::BatchNorm(BatchNorm::new(to, &he(), &zero(), ids)));
        }
        if to != 10 {
            layers.push(Layer::ReLU(ReLU::new()));
        }
    }
    layers.push(Layer::Softmax(Softmax::new()));
    Layer::Sequential(Sequential::new(layers))
}

#[test]
fn it_works() {
    let mut ids = IdSource::new();
    let net = mnist_net(&mut ids, true);
    assert_eq!(ids.count(), 12);
    let mut model = BaseModel::new(net, loss(), Optimizer::Adam(Adam::new(
        0.005f64.to_bits(),
        0.9f64.to_bits(),
        0.999f64.to_bits(),
    )));
    let validate = create_batches(10000, 785, 0, 4096);
    assert_eq!(validate.len(), 3);
    let mut stepped = 0;
    for _ in 0..2 {
        for batch in create_batches(60000, 785, 0, 2048) {
            let input = vec![batch.rows.len(), batch.feature_cols.len()];
            let target = vec![batch.rows.len(), 10];
            assert!(model.can_train_on(&input, &target));
            let plan = model.step(&input, &target);
            assert_eq!(plan.output, target);
            assert_eq!(plan.input_grad, input);
            assert_eq!(plan.steps.len(), 12);
            for (place, step) in plan.steps.iter().enumerate() {
                let slot = Slot { index: place, fresh: stepped == 0 };
                let power = (stepped * 12 + place + 1) as i32;
                assert_eq!(*step, Step::Adam { id: place, m: slot, v: slot, power });
            }
            stepped += 1;
            let val = &validate[stepped % validate.len()];
            let val_input = vec![val.rows.len(), val.feature_cols.len()];
            let val_target = vec![val.rows.len(), 10];
            assert_eq!(model.loss(&val_input, &val_target), val.rows.len());
        }
    }
    assert_eq!(stepped, 60);
}

#[test]
fn benchmark_optimizers() {
    let optimizers = vec![
        ("SGD", Optimizer::Sgd(SGD::new(0.05f64.to_bits()))),
        ("Momentum", Optimizer::Momentum(Momentum::new(0.05f64.to_bits(), 0.9f64.to_bits()))),
        ("RMSProp", Optimizer::RmsProp(RMSProp::new(0.005f64.to_bits(), 0.9f64.to_bits()))),
        (
            "Adam",
            Optimizer::Adam(Adam::new(0.005f64.to_bits(), 0.9f64.to_bits(), 0.999f64.to_bits())),
        ),
    ];
    for (name, optimizer) in optimizers {
        let mut ids = IdSource::new();
        let net = mnist_net(&mut ids, false);
        assert_eq!(ids.count(), 6);
        let mut model = BaseModel::new(net, loss(), optimizer);
        let mut step = 0;
        for _ in 0..2 {
            for batch in create_batches(60000, 785, 0, 2048) {
                let input = vec![batch.rows.len(), batch.feature_cols.len()];
                let target = vec![batch.rows.len(), 10];
                assert!(model.can_train_on(&input, &target), "{}", name);
                let plan = model.step(&input, &target);
                assert_eq!(plan.rows, batch.rows.len());
                assert_eq!(plan.steps.len(), 6);
                let ids_seen: Vec<usize> = plan
                    .steps
                    .iter()
                    .map(|s| match s {
                        Step::Sgd { id } => *id,
                        Step::Momentum { id, .. } => *id,
                        Step::RmsProp { id, .. } => *id,
                        Step::Adam { id, .. } => *id,
                        Step::AdamW { id, .. } => *id,
                    })
                    .collect();
                assert_eq!(ids_seen, vec![0, 1, 2, 3, 4, 5]);
                step += 1;
            }
        }
        assert_eq!(step, 60);
    }
}
