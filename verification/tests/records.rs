use autodiff::graph::{BuildError, MultiGraph, Op};
use autodiff::network::{buffer_widths, LayerKind, Layerable, ReLU, Sigmoid};
use autodiff::ops::{AddOp, CosOp, MulOp, OpTrait, PowOp, ScaleOp, SinOp};

#[test]
fn records_name_their_operator_and_operands() {
    let mut graph = MultiGraph::new();
    let x = graph.input(String::from("x"));
    let y = graph.input(String::from("y"));
    let scale = ScaleOp { factor: 2.0f64.to_bits(), input_id: x };
    assert_eq!(scale.op(), Op::Scale(2.0f64.to_bits()));
    assert_eq!(scale.input_ids(), vec![x]);
    assert_eq!(scale.arity(), 1);
    let sin = SinOp { input_id: y };
    assert_eq!((sin.op(), sin.input_ids(), sin.arity()), (Op::Sin, vec![y], 1));
    let cos = CosOp { input_id: x };
    assert_eq!((cos.op(), cos.input_ids(), cos.arity()), (Op::Cos, vec![x], 1));
    let pow = PowOp { exp: -3, input_id: y };
    assert_eq!((pow.op(), pow.input_ids(), pow.arity()), (Op::Pow(-3), vec![y], 1));
    let add = AddOp { input_ids: [x, y] };
    assert_eq!((add.op(), add.input_ids(), add.arity()), (Op::Add, vec![x, y], 2));
    let mul = MulOp { input_ids: [y, x] };
    assert_eq!((mul.op(), mul.input_ids(), mul.arity()), (Op::Mul, vec![y, x], 2));
}

#[test]
fn appending_a_record_adds_one_node() {
    let mut graph = MultiGraph::new();
    let x = graph.input(String::from("x"));
    let s = graph.append(&SinOp { input_id: x }).unwrap();
    let p = graph.append(&MulOp { input_ids: [x, s] }).unwrap();
    assert_eq!((s.index(), p.index()), (1, 2));
    assert_eq!(graph.len(), 3);
    assert_eq!(graph.num_inputs(), 1);
}

#[test]
fn appending_a_record_that_points_ahead_is_rejected() {
    let mut big = MultiGraph::new();
    big.input(String::from("a"));
    let ahead = big.input(String::from("b"));
    let mut graph = MultiGraph::new();
    let x = graph.input(String::from("x"));
    assert_eq!(graph.append(&AddOp { input_ids: [x, ahead] }), Err(BuildError::ForwardReference));
    assert_eq!(graph.append(&CosOp { input_id: ahead }), Err(BuildError::ForwardReference));
    assert_eq!(graph.len(), 1);
}

#[test]
fn arity_rule_per_operator() {
    for op in [Op::Sin, Op::Cos, Op::Pow(7), Op::Scale(1)] {
        assert!(!op.accepts_arity(0));
        assert!(op.accepts_arity(1));
        assert!(!op.accepts_arity(2));
    }
    for op in [Op::Add, Op::Mul] {
        assert!(!op.accepts_arity(0));
        assert!(!op.accepts_arity(1));
        assert!(op.accepts_arity(2));
        assert!(op.accepts_arity(5));
    }
}

#[test]
fn activation_layers_describe_themselves() {
    let relu = ReLU::<8>::init();
    assert_eq!(relu.input(), 8);
    assert_eq!(relu.kind(), LayerKind::ReLU { width: 8 });
    let sigmoid = Sigmoid::<3>::init();
    assert_eq!(sigmoid.input(), 3);
    assert_eq!(sigmoid.kind(), LayerKind::Sigmoid { width: 3 });
}

#[test]
fn only_dense_layers_change_the_width() {
    assert_eq!(LayerKind::Dense { output: 5 }.output_width(9), 5);
    assert_eq!(LayerKind::ReLU { width: 9 }.output_width(9), 9);
    assert_eq!(LayerKind::Sigmoid { width: 9 }.output_width(9), 9);
    let conv = LayerKind::Conv { out_channels: 4, kernel: 3, stride: 1, padding: 0 };
    assert_eq!(conv.output_width(9), 9);
}

#[test]
fn buffer_widths_of_a_stack() {
    let layers = vec![
        LayerKind::Dense { output: 16 },
        LayerKind::ReLU { width: 16 },
        LayerKind::Dense { output: 32 },
        LayerKind::Sigmoid { width: 32 },
        LayerKind::Dense { output: 2 },
    ];
    assert_eq!(buffer_widths(4, &layers), (2, 32));
    assert_eq!(buffer_widths(64, &layers), (2, 64));
    assert_eq!(buffer_widths(7, &vec![]), (7, 7));
}
