use nnet::accuracies::{Accuracy, Hits, OnehotArgmaxAccuracy};
use nnet::losses::{CrossEntropyLoss, LossFunction};
use nnet::params::initializer::{Fill, HeInitializer, Initializer, XavierInitializer, ZeroInitializer};
use nnet::params::param::{IdSource, LearnableParameter};
use nnet::params::regularizer::{CompositeRegularizer, Penalty, Regularizer, L1, L1L2, L2};
use nnet::shape::{copy_shape, is_matrix_of, is_vector_of, matrix, same_shape, vector};

#[test]
fn shapes_are_built_and_compared() {
    assert_eq!(matrix(2, 3), vec![2, 3]);
    assert_eq!(vector(7), vec![7]);
    assert_eq!(copy_shape(&vec![1, 2, 3]), vec![1, 2, 3]);
    assert!(same_shape(&vec![], &vec![]));
    assert!(same_shape(&vec![4, 5], &vec![4, 5]));
    assert!(!same_shape(&vec![4, 5], &vec![5, 4]));
    assert!(!same_shape(&vec![4, 5], &vec![4]));
    assert!(is_matrix_of(&vec![4, 5], 4, 5));
    assert!(!is_matrix_of(&vec![4, 5], 5, 4));
    assert!(!is_matrix_of(&vec![4, 5, 1], 4, 5));
    assert!(is_vector_of(&vec![4], 4));
    assert!(!is_vector_of(&vec![4, 1], 4));
    assert!(!is_vector_of(&vec![3], 4));
}

#[test]
fn identities_count_up_from_zero() {
    let mut ids = IdSource::new();
    assert_eq!(ids.count(), 0);
    assert_eq!(ids.fresh(), 0);
    assert_eq!(ids.fresh(), 1);
    assert_eq!(ids.fresh(), 2);
    assert_eq!(ids.count(), 3);
    assert!(ids.can_issue(usize::MAX - 3));
    assert!(!ids.can_issue(usize::MAX - 2));
}

#[test]
fn a_parameter_takes_the_next_identity_and_the_shape() {
    let mut ids = IdSource::new();
    let zero = Initializer::Zero(ZeroInitializer);
    let a = LearnableParameter::new(&vec![3, 4], &zero, &mut ids);
    let b = LearnableParameter::new(&vec![], &zero, &mut ids);
    assert_eq!((a.id, a.shape.clone()), (0, vec![3, 4]));
    assert_eq!((b.id, b.shape.clone()), (1, vec![]));
    let twin = a.duplicate();
    assert_eq!((twin.id, twin.shape), (0, vec![3, 4]));
}

#[test]
fn initializers_say_how_to_fill() {
    assert_eq!(ZeroInitializer.fill(&vec![]), Fill::Zeros);
    assert_eq!(XavierInitializer.fill(&vec![784, 128]), Fill::Xavier { fan_in: 784 });
    assert_eq!(HeInitializer.fill(&vec![64, 10]), Fill::He { fan_in: 64 });
    assert_eq!(Initializer::He(HeInitializer).fill(&vec![5]), Fill::He { fan_in: 5 });
    assert_eq!(Initializer::Zero(ZeroInitializer).fill(&vec![0]), Fill::Zeros);
}

#[test]
fn initializers_need_a_first_axis_for_the_spread() {
    let zero = Initializer::Zero(ZeroInitializer);
    let xavier = Initializer::Xavier(XavierInitializer);
    let he = Initializer::He(HeInitializer);
    assert!(zero.can_initialize(&vec![]));
    assert!(zero.can_initialize(&vec![0, 3]));
    for init in [xavier, he] {
        assert!(!init.can_initialize(&vec![]));
        assert!(!init.can_initialize(&vec![0, 3]));
        assert!(init.can_initialize(&vec![3, 0]));
        assert!(init.can_initialize(&vec![1]));
    }
}

#[test]
fn each_initializer_makes_the_parameter() {
    let mut ids = IdSource::new();
    let a = ZeroInitializer.initialize(&vec![2], &mut ids);
    let b = XavierInitializer.initialize(&vec![2, 5], &mut ids);
    let c = HeInitializer.initialize(&vec![9, 1], &mut ids);
    assert_eq!((a.id, b.id, c.id), (0, 1, 2));
    assert_eq!((a.shape, b.shape, c.shape), (vec![2], vec![2, 5], vec![9, 1]));
}

#[test]
fn regularizers_list_their_penalties() {
    assert_eq!(L1::new(5).apply(), vec![Penalty::L1 { lambda: 5 }]);
    assert_eq!(L2::new(6).apply(), vec![Penalty::L2 { lambda: 6 }]);
    assert_eq!(L2::new(0.01f64.to_bits()).lambda, 0.01f64.to_bits());
    assert_eq!(
        L1L2::new(1, 2).apply(),
        vec![Penalty::L1 { lambda: 1 }, Penalty::L2 { lambda: 2 }]
    );
    assert_eq!(CompositeRegularizer::new(vec![]).apply(), vec![]);
}

#[test]
fn a_composite_chains_its_members_in_order() {
    let nested = Regularizer::Composite(CompositeRegularizer::new(vec![
        Regularizer::L2(L2::new(1)),
        Regularizer::Composite(L1L2::new(2, 3)),
        Regularizer::Composite(CompositeRegularizer::new(vec![])),
        Regularizer::L1(L1::new(4)),
    ]));
    assert_eq!(
        nested.apply(),
        vec![
            Penalty::L2 { lambda: 1 },
            Penalty::L1 { lambda: 2 },
            Penalty::L2 { lambda: 3 },
            Penalty::L1 { lambda: 4 },
        ]
    );
}

#[test]
fn cross_entropy_compares_equal_shapes() {
    let loss = CrossEntropyLoss::new();
    assert!(loss.can_compare(&vec![2, 3], &vec![2, 3]));
    assert!(loss.can_compare(&vec![0, 3], &vec![0, 3]));
    assert!(!loss.can_compare(&vec![2, 3], &vec![3, 2]));
    assert!(!loss.can_compare(&vec![6], &vec![6]));
    assert!(!loss.can_compare(&vec![2, 3, 1], &vec![2, 3, 1]));
    assert_eq!(loss.forward(&vec![2, 3], &vec![2, 3]), 2);
    assert_eq!(loss.forward(&vec![0, 3], &vec![0, 3]), 0);
    assert_eq!(loss.backward(&vec![2, 3], &vec![2, 3]), vec![2, 3]);
    let any = LossFunction::CrossEntropy(CrossEntropyLoss::new());
    assert!(any.can_compare(&vec![4, 10], &vec![4, 10]));
    assert_eq!(any.forward(&vec![4, 10], &vec![4, 10]), 4);
    assert_eq!(any.backward(&vec![4, 10], &vec![4, 10]), vec![4, 10]);
}

#[test]
fn accuracy_counts_matching_rows() {
    let metric = OnehotArgmaxAccuracy::new();
    assert_eq!(
        metric.accuracy(&vec![1, 0, 2, 2], &vec![1, 1, 2, 0]),
        Hits { correct: 2, total: 4 }
    );
    assert_eq!(metric.accuracy(&vec![], &vec![]), Hits { correct: 0, total: 0 });
    assert_eq!(metric.accuracy(&vec![3, 3, 3], &vec![3]), Hits { correct: 1, total: 3 });
    assert_eq!(metric.accuracy(&vec![3], &vec![3, 3, 3]), Hits { correct: 1, total: 1 });
    let any = Accuracy::OnehotArgmax(OnehotArgmaxAccuracy::new());
    assert_eq!(any.accuracy(&vec![5, 6], &vec![5, 6]), Hits { correct: 2, total: 2 });
}
