use nnet::networks::block::Sequential;
use nnet::networks::layer::{AffineLayer, BatchNorm, Dropout, Layer, ReLU, Softmax};
use nnet::losses::CrossEntropyLoss;
use nnet::params::initializer::{HeInitializer, Initializer, XavierInitializer, ZeroInitializer};
use nnet::params::param::IdSource;
use nnet::params::regularizer::{L1L2, Penalty, Regularizer};

fn he() -> Initializer {
    Initializer::He(HeInitializer)
}

fn zero() -> Initializer {
    Initializer::Zero(ZeroInitializer)
}

#[test]
fn test_softmax_and_loss() {
    let mut softmax = Softmax::new();
    let loss = CrossEntropyLoss::new();
    let input = vec![2, 3];
    assert!(softmax.can_forward(&input));
    let output = softmax.forward(&input);
    assert_eq!(output, vec![2, 3]);
    let target = vec![2, 3];
    assert!(loss.can_compare(&output, &target));
    let grad = loss.backward(&output, &target);
    assert_eq!(grad, vec![2, 3]);
    assert!(softmax.can_backward(&grad));
    let grad = softmax.backward(&grad);
    assert_eq!(grad, vec![2, 3]);
}

#[test]
fn affine_maps_batch_to_output_width() {
    let mut ids = IdSource::new();
    let mut layer = AffineLayer::new(4, 3, &he(), &zero(), None, &mut ids);
    for rows in [0usize, 1, 5, 2048] {
        let input = vec![rows, 4];
        assert!(layer.can_forward(&input));
        assert_eq!(layer.output_shape(&input), vec![rows, 3]);
        let output = layer.forward(&input);
        assert_eq!(output, vec![rows, 3]);
        assert_eq!(layer.cached(), Some(vec![rows, 4]));
        assert!(layer.can_backward(&output));
        assert_eq!(layer.backward(&output), vec![rows, 4]);
    }
}

#[test]
fn affine_refuses_wrong_shapes() {
    let mut ids = IdSource::new();
    let mut layer = AffineLayer::new(4, 3, &he(), &zero(), None, &mut ids);
    assert!(!layer.can_forward(&vec![5, 3]));
    assert!(!layer.can_forward(&vec![4]));
    assert!(!layer.can_forward(&vec![2, 4, 1]));
    assert!(!layer.can_forward(&vec![]));
    assert!(!layer.can_backward(&vec![5, 3]));
    layer.forward(&vec![5, 4]);
    assert!(layer.can_backward(&vec![5, 3]));
    assert!(!layer.can_backward(&vec![4, 3]));
    assert!(!layer.can_backward(&vec![5, 4]));
    assert!(!layer.can_backward(&vec![5]));
}

#[test]
fn affine_params_are_weight_then_bias() {
    let mut ids = IdSource::new();
    ids.fresh();
    ids.fresh();
    let layer = AffineLayer::new(4, 3, &he(), &zero(), None, &mut ids);
    let params = layer.params();
    assert_eq!(params.len(), 2);
    assert_eq!(params[0].id, 2);
    assert_eq!(params[0].shape, vec![4, 3]);
    assert_eq!(params[1].id, 3);
    assert_eq!(params[1].shape, vec![3]);
    assert_eq!(ids.count(), 4);
}

#[test]
fn affine_lists_its_penalties_in_order() {
    let mut ids = IdSource::new();
    let plain = AffineLayer::new(4, 3, &he(), &zero(), None, &mut ids);
    assert_eq!(plain.weight_penalties(), vec![]);
    let reg = Regularizer::Composite(L1L2::new(11, 22));
    let layer = AffineLayer::new(4, 3, &he(), &zero(), Some(reg), &mut ids);
    assert_eq!(
        layer.weight_penalties(),
        vec![Penalty::L1 { lambda: 11 }, Penalty::L2 { lambda: 22 }]
    );
}

#[test]
fn affine_training_flag_follows_set_training() {
    let mut ids = IdSource::new();
    let mut layer = AffineLayer::new(4, 3, &he(), &zero(), None, &mut ids);
    assert!(layer.is_training());
    layer.set_training(false);
    assert!(!layer.is_training());
    layer.set_training(true);
    assert!(layer.is_training());
}

#[test]
fn relu_keeps_the_shape_and_needs_a_forward_pass() {
    let mut layer = ReLU::new();
    assert_eq!(layer.cached(), None);
    assert!(!layer.can_backward(&vec![3, 5]));
    assert!(!layer.can_forward(&vec![3]));
    assert!(layer.can_forward(&vec![3, 5]));
    assert_eq!(layer.forward(&vec![3, 5]), vec![3, 5]);
    assert_eq!(layer.cached(), Some(vec![3, 5]));
    assert!(layer.can_backward(&vec![3, 5]));
    assert!(!layer.can_backward(&vec![5, 3]));
    assert_eq!(layer.backward(&vec![3, 5]), vec![3, 5]);
    assert_eq!(layer.params().len(), 0);
}

#[test]
fn relu_uses_only_the_last_forward_pass() {
    let mut layer = ReLU::new();
    layer.forward(&vec![3, 5]);
    layer.forward(&vec![2, 7]);
    assert!(!layer.can_backward(&vec![3, 5]));
    assert!(layer.can_backward(&vec![2, 7]));
}

#[test]
fn softmax_needs_a_forward_pass_before_backward() {
    let mut layer = Softmax::new();
    assert!(!layer.can_backward(&vec![0, 0]));
    assert!(!layer.can_backward(&vec![2, 3]));
    layer.forward(&vec![1, 3]);
    assert_eq!(layer.cached(), Some(vec![1, 3]));
    assert!(layer.can_backward(&vec![1, 3]));
    assert!(!layer.can_backward(&vec![2, 3]));
    layer.set_training(false);
    assert!(layer.can_backward(&vec![1, 3]));
}

#[test]
fn batch_norm_needs_rows_of_its_width() {
    let mut ids = IdSource::new();
    let mut layer = BatchNorm::new(6, &he(), &zero(), &mut ids);
    assert!(!layer.can_forward(&vec![0, 6]));
    assert!(!layer.can_forward(&vec![4, 5]));
    assert!(!layer.can_forward(&vec![6]));
    assert!(layer.can_forward(&vec![1, 6]));
    assert!(layer.can_forward(&vec![4, 6]));
    assert_eq!(layer.forward(&vec![4, 6]), vec![4, 6]);
    assert_eq!(layer.cached(), Some(vec![4, 6]));
    assert!(layer.can_backward(&vec![4, 6]));
    assert!(!layer.can_backward(&vec![3, 6]));
    assert_eq!(layer.backward(&vec![4, 6]), vec![4, 6]);
    let params = layer.params();
    assert_eq!(params.len(), 2);
    assert_eq!((params[0].id, params[1].id), (0, 1));
    assert_eq!(params[0].shape, vec![6]);
    assert_eq!(params[1].shape, vec![6]);
}

#[test]
fn dropout_in_training_keeps_its_mask() {
    let mut layer = Dropout::new(0);
    assert_eq!(layer.rate(), 0);
    assert!(layer.is_training());
    assert!(!layer.can_forward(&vec![4]));
    assert!(!layer.can_backward(&vec![2, 3]));
    assert_eq!(layer.forward(&vec![2, 3]), vec![2, 3]);
    assert_eq!(layer.cached(), Some(vec![2, 3]));
    assert!(layer.can_backward(&vec![2, 3]));
    assert_eq!(layer.backward(&vec![2, 3]), vec![2, 3]);
}

#[test]
fn dropout_in_inference_passes_everything_and_keeps_nothing() {
    let mut layer = Dropout::new(0x3fe0_0000_0000_0000);
    assert_eq!(layer.rate(), 0x3fe0_0000_0000_0000);
    layer.set_training(false);
    assert!(!layer.is_training());
    for shape in [vec![], vec![7], vec![2, 3], vec![2, 3, 4]] {
        assert!(layer.can_forward(&shape));
        assert_eq!(layer.forward(&shape), shape);
        assert_eq!(layer.cached(), None);
    }
    assert!(!layer.can_backward(&vec![2, 3]));
    layer.set_training(true);
    layer.forward(&vec![2, 3]);
    layer.set_training(false);
    layer.forward(&vec![5, 5]);
    assert_eq!(layer.cached(), Some(vec![2, 3]));
    assert!(layer.can_backward(&vec![2, 3]));
}

fn small_net(ids: &mut IdSource) -> Sequential {
    Sequential::new(vec![
        Layer::Affine(AffineLayer::new(4, 8, &he(), &zero(), None, ids)),
        Layer::BatchNorm(BatchNorm::new(8, &he(), &zero(), ids)),
        Layer::ReLU(ReLU::new()),
        Layer::Dropout(Dropout::new(0)),
        Layer::Affine(AffineLayer::new(8, 3, &Initializer::Xavier(XavierInitializer), &zero(), None, ids)),
        Layer::Softmax(Softmax::new()),
    ])
}

#[test]
fn sequential_runs_forward_in_order_and_backward_in_reverse() {
    let mut ids = IdSource::new();
    let mut net = small_net(&mut ids);
    assert_eq!(net.len(), 6);
    assert!(net.can_forward(&vec![5, 4]));
    assert!(!net.can_forward(&vec![5, 8]));
    assert!(!net.can_forward(&vec![0, 4]));
    assert_eq!(net.output_shape(&vec![5, 4]), vec![5, 3]);
    assert!(!net.can_backward(&vec![5, 3]));
    assert_eq!(net.forward(&vec![5, 4]), vec![5, 3]);
    assert!(net.can_backward(&vec![5, 3]));
    assert!(!net.can_backward(&vec![5, 4]));
    assert!(!net.can_backward(&vec![4, 3]));
    assert_eq!(net.backward(&vec![5, 3]), vec![5, 4]);
}

#[test]
fn sequential_lists_params_in_child_order() {
    let mut ids = IdSource::new();
    let net = small_net(&mut ids);
    let params = net.params();
    let ids_seen: Vec<usize> = params.iter().map(|p| p.id).collect();
    assert_eq!(ids_seen, vec![0, 1, 2, 3, 4, 5]);
    let shapes: Vec<Vec<usize>> = params.iter().map(|p| p.shape.clone()).collect();
    assert_eq!(
        shapes,
        vec![vec![4, 8], vec![8], vec![8], vec![8], vec![8, 3], vec![3]]
    );
}

#[test]
fn sequential_params_keep_identity_through_passes() {
    let mut ids = IdSource::new();
    let mut net = small_net(&mut ids);
    let before: Vec<usize> = net.params().iter().map(|p| p.id).collect();
    net.forward(&vec![5, 4]);
    net.backward(&vec![5, 3]);
    net.set_training(false);
    let after: Vec<usize> = net.params().iter().map(|p| p.id).collect();
    assert_eq!(before, after);
}

#[test]
fn sequential_tells_every_child_whether_it_trains() {
    let mut ids = IdSource::new();
    let mut net = small_net(&mut ids);
    assert!(net.remembers());
    net.set_training(false);
    assert!(!net.remembers());
    assert_eq!(net.forward(&vec![5, 4]), vec![5, 3]);
    assert!(!net.can_backward(&vec![5, 3]));
    net.set_training(true);
    assert!(net.remembers());
    net.forward(&vec![5, 4]);
    assert!(net.can_backward(&vec![5, 3]));
}

#[test]
fn sequential_can_hold_a_sequential() {
    let mut ids = IdSource::new();
    let inner = Sequential::new(vec![
        Layer::Affine(AffineLayer::new(4, 2, &he(), &zero(), None, &mut ids)),
        Layer::ReLU(ReLU::new()),
    ]);
    let mut outer = Layer::Sequential(Sequential::new(vec![
        Layer::Sequential(inner),
        Layer::Dropout(Dropout::new(0)),
        Layer::Affine(AffineLayer::new(2, 9, &he(), &zero(), None, &mut ids)),
    ]));
    assert!(outer.can_forward(&vec![3, 4]));
    assert_eq!(outer.forward(&vec![3, 4]), vec![3, 9]);
    assert_eq!(outer.backward(&vec![3, 9]), vec![3, 4]);
    let ids_seen: Vec<usize> = outer.params().iter().map(|p| p.id).collect();
    assert_eq!(ids_seen, vec![0, 1, 2, 3]);
    outer.set_training(false);
    assert!(!outer.remembers());
}

#[test]
fn empty_sequential_is_the_identity() {
    let mut net = Sequential::new(vec![]);
    assert_eq!(net.len(), 0);
    assert!(net.can_forward(&vec![1, 2, 3]));
    assert_eq!(net.forward(&vec![1, 2, 3]), vec![1, 2, 3]);
    assert!(net.can_backward(&vec![9]));
    assert_eq!(net.backward(&vec![9]), vec![9]);
    assert_eq!(net.params().len(), 0);
    assert!(net.remembers());
}
