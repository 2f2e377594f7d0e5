use autodiff::eval::{Evaluation, UsageError};
use autodiff::graph::{BuildError, MultiGraph, NodeId, Op};
use autodiff::tape::Instr;

fn power(x: f64, n: i64) -> f64 {
    match i32::try_from(n) {
        Ok(e) => x.powi(e),
        Err(_) => x.powf(n as f64),
    }
}

fn run(evaluation: &Evaluation) -> Vec<(f64, Vec<f64>)> {
    let tape = evaluation.tape();
    let mut slots: Vec<f64> = Vec::new();
    for s in 0..tape.len() {
        let v = match tape.instr(s) {
            Instr::Lit(bits) => f64::from_bits(bits),
            Instr::Int(n) => n as f64,
            Instr::Neg(a) => -slots[a],
            Instr::Sin(a) => slots[a].sin(),
            Instr::Cos(a) => slots[a].cos(),
            Instr::Powi(a, n) => power(slots[a], n),
            Instr::Add(a, b) => slots[a] + slots[b],
            Instr::Mul(a, b) => slots[a] * slots[b],
        };
        slots.push(v);
    }
    let mut pairs = Vec::new();
    for o in 0..evaluation.num_outputs() {
        let value = slots[evaluation.value_slot(o)];
        let gradient = evaluation.gradient_slots(o).iter().map(|&s| slots[s]).collect();
        pairs.push((value, gradient));
    }
    pairs
}

fn evaluate(graph: &MultiGraph, inputs: &[f64]) -> Vec<(f64, Vec<f64>)> {
    let bits: Vec<u64> = inputs.iter().map(|x| x.to_bits()).collect();
    run(&graph.compute(&bits).unwrap())
}

fn close(a: f64, b: f64) -> bool {
    (a - b).abs() < 1e-9
}

fn unary_chain(ops: &[Op]) -> MultiGraph {
    let mut graph = MultiGraph::new();
    let mut last = graph.input(String::from("x"));
    for op in ops {
        last = graph.operation(*op, vec![last]).unwrap();
    }
    graph.output(last).unwrap();
    graph
}

fn apply_chain(ops: &[Op], x: f64) -> f64 {
    let mut v = x;
    for op in ops {
        v = match *op {
            Op::Scale(k) => v * f64::from_bits(k),
            Op::Sin => v.sin(),
            Op::Cos => v.cos(),
            Op::Pow(n) => v.powi(n),
            Op::Add | Op::Mul => unreachable!(),
        };
    }
    v
}

#[test]
fn sin_then_cos_at_one() {
    let graph = unary_chain(&[Op::Sin, Op::Cos]);
    let pairs = evaluate(&graph, &[1.0]);
    assert_eq!(pairs.len(), 1);
    assert!(close(pairs[0].0, 1.0f64.sin().cos()));
    assert!((pairs[0].0 - 0.666367).abs() < 1e-6);
    assert_eq!(pairs[0].1.len(), 1);
    assert!(close(pairs[0].1[0], -(1.0f64.sin().sin()) * 1.0f64.cos()));
    assert!((pairs[0].1[0] - (-0.402862)).abs() < 1e-6);
}

#[test]
fn square_plus_sine_of_two_inputs() {
    let mut graph = MultiGraph::new();
    let x = graph.input(String::from("x"));
    let y = graph.input(String::from("y"));
    let x_sq = graph.operation(Op::Pow(2), vec![x]).unwrap();
    let y_sin = graph.operation(Op::Sin, vec![y]).unwrap();
    let result = graph.operation(Op::Add, vec![x_sq, y_sin]).unwrap();
    graph.output(result).unwrap();
    let pairs = evaluate(&graph, &[2.0, std::f64::consts::FRAC_PI_2]);
    assert_eq!(pairs.len(), 1);
    assert!(close(pairs[0].0, 5.0));
    assert_eq!(pairs[0].1.len(), 2);
    assert!(close(pairs[0].1[0], 4.0));
    assert!(close(pairs[0].1[1], 0.0));
}

#[test]
fn product_of_a_node_with_itself() {
    let mut graph = MultiGraph::new();
    let a = graph.input(String::from("a"));
    let sq = graph.operation(Op::Mul, vec![a, a]).unwrap();
    graph.output(sq).unwrap();
    let pairs = evaluate(&graph, &[3.0]);
    assert_eq!(pairs, vec![(9.0, vec![6.0])]);
}

#[test]
fn wrong_input_count_is_refused_and_leaves_no_trace() {
    let mut graph = MultiGraph::new();
    let x = graph.input(String::from("x"));
    let y = graph.input(String::from("y"));
    let p = graph.operation(Op::Mul, vec![x, y]).unwrap();
    graph.output(p).unwrap();
    let before = evaluate(&graph, &[2.0, 5.0]);
    let short = graph.compute(&[2.0f64.to_bits()]);
    assert!(matches!(short, Err(UsageError::InputCount { expected: 2, found: 1 })));
    let long = graph.compute(&[0, 0, 0]);
    assert!(matches!(long, Err(UsageError::InputCount { expected: 2, found: 3 })));
    let none = graph.compute(&[]);
    assert!(matches!(none, Err(UsageError::InputCount { expected: 2, found: 0 })));
    let after = evaluate(&graph, &[2.0, 5.0]);
    assert_eq!(before, vec![(10.0, vec![5.0, 2.0])]);
    assert_eq!(before, after);
}

#[test]
fn unary_chains_match_central_differences() {
    let chains: Vec<Vec<Op>> = vec![
        vec![Op::Sin],
        vec![Op::Cos],
        vec![Op::Pow(3)],
        vec![Op::Scale(2.5f64.to_bits())],
        vec![Op::Sin, Op::Cos],
        vec![Op::Pow(2), Op::Sin, Op::Scale((-0.5f64).to_bits())],
        vec![Op::Scale(3.0f64.to_bits()), Op::Cos, Op::Pow(2), Op::Sin],
    ];
    let h = 1e-5;
    for ops in &chains {
        let graph = unary_chain(ops);
        for x in [0.0, 1.0, -1.0, std::f64::consts::FRAC_PI_4] {
            let pairs = evaluate(&graph, &[x]);
            let numeric = (apply_chain(ops, x + h) - apply_chain(ops, x - h)) / (2.0 * h);
            assert_eq!(pairs[0].0, apply_chain(ops, x));
            assert!((pairs[0].1[0] - numeric).abs() < 1e-6);
        }
    }
}

#[test]
fn sum_and_product_of_three_operands() {
    let mut graph = MultiGraph::new();
    let x = graph.input(String::from("x"));
    let y = graph.input(String::from("y"));
    let z = graph.input(String::from("z"));
    let sum = graph.operation(Op::Add, vec![x, y, z]).unwrap();
    let product = graph.operation(Op::Mul, vec![x, y, z]).unwrap();
    graph.output(sum).unwrap();
    graph.output(product).unwrap();
    let pairs = evaluate(&graph, &[2.0, 3.0, 5.0]);
    assert_eq!(pairs[0], (10.0, vec![1.0, 1.0, 1.0]));
    assert_eq!(pairs[1], (30.0, vec![15.0, 10.0, 6.0]));
}

#[test]
fn product_rule_keeps_cross_terms() {
    // f(x, y) = (x + y) * (x * y); df/dx = xy + (x + y) y, df/dy = xy + (x + y) x.
    let mut graph = MultiGraph::new();
    let x = graph.input(String::from("x"));
    let y = graph.input(String::from("y"));
    let s = graph.operation(Op::Add, vec![x, y]).unwrap();
    let p = graph.operation(Op::Mul, vec![x, y]).unwrap();
    let f = graph.operation(Op::Mul, vec![s, p]).unwrap();
    graph.output(f).unwrap();
    let pairs = evaluate(&graph, &[2.0, 3.0]);
    assert_eq!(pairs, vec![(30.0, vec![21.0, 16.0])]);
}

#[test]
fn power_rule_values() {
    let graph = unary_chain(&[Op::Pow(3)]);
    assert_eq!(evaluate(&graph, &[2.0]), vec![(8.0, vec![12.0])]);
    let graph = unary_chain(&[Op::Pow(-1)]);
    assert_eq!(evaluate(&graph, &[2.0]), vec![(0.5, vec![-0.25])]);
    let graph = unary_chain(&[Op::Pow(0)]);
    let at_zero = evaluate(&graph, &[0.0]);
    assert_eq!(at_zero[0].0, 1.0);
    assert!(at_zero[0].1[0].is_nan());
}

#[test]
fn scale_rule_values() {
    let graph = unary_chain(&[Op::Scale(4.0f64.to_bits())]);
    assert_eq!(evaluate(&graph, &[1.5]), vec![(6.0, vec![4.0])]);
}

#[test]
fn evaluating_twice_gives_identical_bits() {
    let graph = unary_chain(&[Op::Sin, Op::Pow(3), Op::Cos]);
    let first = evaluate(&graph, &[0.7]);
    let second = evaluate(&graph, &[0.7]);
    assert_eq!(first[0].0.to_bits(), second[0].0.to_bits());
    assert_eq!(first[0].1[0].to_bits(), second[0].1[0].to_bits());
}

#[test]
fn outputs_come_in_declaration_order() {
    let mut forward = MultiGraph::new();
    let x = forward.input(String::from("x"));
    let s = forward.operation(Op::Sin, vec![x]).unwrap();
    let c = forward.operation(Op::Cos, vec![x]).unwrap();
    forward.output(s).unwrap();
    forward.output(c).unwrap();
    let mut backward = MultiGraph::new();
    let x = backward.input(String::from("x"));
    let s = backward.operation(Op::Sin, vec![x]).unwrap();
    let c = backward.operation(Op::Cos, vec![x]).unwrap();
    backward.output(c).unwrap();
    backward.output(s).unwrap();
    let a = evaluate(&forward, &[0.3]);
    let b = evaluate(&backward, &[0.3]);
    assert_eq!(a.len(), 2);
    assert_eq!(a[0], b[1]);
    assert_eq!(a[1], b[0]);
    assert_eq!(a[0], (0.3f64.sin(), vec![0.3f64.cos()]));
    assert_eq!(a[1], (0.3f64.cos(), vec![-(0.3f64.sin())]));
}

#[test]
fn graph_without_outputs_reports_nothing() {
    let mut graph = MultiGraph::new();
    let x = graph.input(String::from("x"));
    graph.operation(Op::Sin, vec![x]).unwrap();
    assert_eq!(evaluate(&graph, &[1.0]), vec![]);
    let empty = MultiGraph::new();
    assert_eq!(evaluate(&empty, &[]), vec![]);
}

#[test]
fn output_of_an_input_is_one_hot() {
    let mut graph = MultiGraph::new();
    let _x = graph.input(String::from("x"));
    let y = graph.input(String::from("y"));
    let _z = graph.input(String::from("z"));
    graph.output(y).unwrap();
    assert_eq!(evaluate(&graph, &[1.0, 2.0, 3.0]), vec![(2.0, vec![0.0, 1.0, 0.0])]);
}

#[test]
fn marker_of_a_marker_reports_the_same_pair() {
    let mut graph = MultiGraph::new();
    let x = graph.input(String::from("x"));
    let sq = graph.operation(Op::Pow(2), vec![x]).unwrap();
    let first = graph.output(sq).unwrap();
    graph.output(first).unwrap();
    let pairs = evaluate(&graph, &[3.0]);
    assert_eq!(pairs, vec![(9.0, vec![6.0]), (9.0, vec![6.0])]);
}

#[test]
fn marker_used_as_operand_reads_as_zero() {
    let mut graph = MultiGraph::new();
    let x = graph.input(String::from("x"));
    let marker = graph.output(x).unwrap();
    let sum = graph.operation(Op::Add, vec![x, marker]).unwrap();
    graph.output(sum).unwrap();
    let pairs = evaluate(&graph, &[3.0]);
    assert_eq!(pairs, vec![(3.0, vec![1.0]), (3.0, vec![1.0])]);
}

#[test]
fn duplicate_input_names_are_told_apart_by_position() {
    let mut graph = MultiGraph::new();
    let a = graph.input(String::from("x"));
    let b = graph.input(String::from("x"));
    let p = graph.operation(Op::Mul, vec![a, b]).unwrap();
    graph.output(p).unwrap();
    assert_eq!(evaluate(&graph, &[2.0, 7.0]), vec![(14.0, vec![7.0, 2.0])]);
}

#[test]
fn ids_are_positions() {
    let mut graph = MultiGraph::new();
    assert_eq!(graph.len(), 0);
    let x = graph.input(String::from("x"));
    let s = graph.operation(Op::Sin, vec![x]).unwrap();
    let o = graph.output(s).unwrap();
    assert_eq!((x.index(), s.index(), o.index()), (0, 1, 2));
    assert_eq!(graph.len(), 3);
    assert_eq!(graph.num_inputs(), 1);
    assert_ne!(o, s);
}

#[test]
fn wrong_arity_is_rejected() {
    let mut graph = MultiGraph::new();
    let x = graph.input(String::from("x"));
    let y = graph.input(String::from("y"));
    for op in [Op::Sin, Op::Cos, Op::Pow(2), Op::Scale(0)] {
        assert_eq!(graph.operation(op, vec![]), Err(BuildError::ArityMismatch));
        assert_eq!(graph.operation(op, vec![x, y]), Err(BuildError::ArityMismatch));
    }
    for op in [Op::Add, Op::Mul] {
        assert_eq!(graph.operation(op, vec![]), Err(BuildError::ArityMismatch));
        assert_eq!(graph.operation(op, vec![x]), Err(BuildError::ArityMismatch));
    }
    assert_eq!(graph.len(), 2);
}

fn foreign_id(position: usize) -> NodeId {
    let mut other = MultiGraph::new();
    let mut id = other.input(String::from("n"));
    for _ in 0..position {
        id = other.input(String::from("n"));
    }
    id
}

#[test]
fn forward_reference_is_rejected() {
    let mut graph = MultiGraph::new();
    let x = graph.input(String::from("x"));
    let ahead = foreign_id(1);
    assert_eq!(graph.operation(Op::Sin, vec![ahead]), Err(BuildError::ForwardReference));
    assert_eq!(graph.operation(Op::Add, vec![x, ahead]), Err(BuildError::ForwardReference));
    assert_eq!(graph.output(ahead), Err(BuildError::ForwardReference));
    assert_eq!(graph.operation(Op::Sin, vec![ahead, x]), Err(BuildError::ArityMismatch));
    assert_eq!(graph.len(), 1);
    assert_eq!(graph.operation(Op::Sin, vec![x]).map(|id| id.index()), Ok(1));
    assert_eq!(graph.operation(Op::Cos, vec![ahead]).map(|id| id.index()), Ok(2));
}

#[test]
fn tape_reads_only_earlier_slots() {
    let mut graph = MultiGraph::new();
    let x = graph.input(String::from("x"));
    let y = graph.input(String::from("y"));
    let p = graph.operation(Op::Mul, vec![x, y, x]).unwrap();
    let c = graph.operation(Op::Cos, vec![p]).unwrap();
    graph.output(c).unwrap();
    let evaluation = graph.compute(&[1.0f64.to_bits(), 2.0f64.to_bits()]).unwrap();
    let tape = evaluation.tape();
    for s in 0..tape.len() {
        match tape.instr(s) {
            Instr::Lit(_) | Instr::Int(_) => {}
            Instr::Neg(a) | Instr::Sin(a) | Instr::Cos(a) | Instr::Powi(a, _) => assert!(a < s),
            Instr::Add(a, b) | Instr::Mul(a, b) => assert!(a < s && b < s),
        }
    }
    assert_eq!(evaluation.num_outputs(), 1);
    assert_eq!(evaluation.gradient_slots(0).len(), 2);
    assert!(evaluation.value_slot(0) < tape.len());
}

#[test]
fn chain_graph_sin_then_cos_at_one() {
    let graph = autodiff::chain::CompGraph::new(vec![Op::Sin, Op::Cos]);
    let pairs = run(&graph.compute(1.0f64.to_bits()));
    assert_eq!(pairs.len(), 1);
    assert_eq!(pairs[0].0, 1.0f64.sin().cos());
    assert_eq!(pairs[0].1.len(), 1);
    assert!(close(pairs[0].1[0], -(1.0f64.sin().sin()) * 1.0f64.cos()));
}

#[test]
fn chain_graph_without_operators_is_the_identity() {
    let graph = autodiff::chain::CompGraph::new(vec![]);
    assert_eq!(run(&graph.compute(2.5f64.to_bits())), vec![(2.5, vec![1.0])]);
}

#[test]
fn chain_graph_multiplies_partials() {
    // d/dx (3 x)^2 = 18 x
    let graph = autodiff::chain::CompGraph::new(vec![Op::Scale(3.0f64.to_bits()), Op::Pow(2)]);
    assert_eq!(run(&graph.compute(2.0f64.to_bits())), vec![(36.0, vec![36.0])]);
}

#[test]
fn chain_graph_treats_sum_and_product_of_one_as_identity() {
    let graph = autodiff::chain::CompGraph::new(vec![Op::Add, Op::Mul]);
    assert_eq!(run(&graph.compute(7.0f64.to_bits())), vec![(7.0, vec![1.0])]);
}

#[test]
fn chain_graph_agrees_with_the_general_graph() {
    let ops = [Op::Pow(2), Op::Sin, Op::Scale(1.5f64.to_bits()), Op::Cos];
    let chain = autodiff::chain::CompGraph::new(ops.to_vec());
    let general = unary_chain(&ops);
    for x in [0.0, 1.0, -1.0, std::f64::consts::FRAC_PI_4] {
        let a = run(&chain.compute(x.to_bits()));
        let b = evaluate(&general, &[x]);
        assert_eq!(a[0].0, b[0].0);
        assert!(close(a[0].1[0], b[0].1[0]));
    }
}

#[test]
fn extreme_exponent_lowers_without_overflow() {
    let graph = unary_chain(&[Op::Pow(i32::MIN)]);
    let evaluation = graph.compute(&[2.0f64.to_bits()]).unwrap();
    let tape = evaluation.tape();
    let mut below = false;
    for s in 0..tape.len() {
        if tape.instr(s) == Instr::Powi(2, i32::MIN as i64 - 1) {
            below = true;
        }
    }
    assert!(below);
    let pairs = run(&evaluation);
    assert_eq!(pairs[0].0, 0.0);
}

#[test]
fn refused_evaluation_leaves_scratch_as_it_was() {
    let mut graph = MultiGraph::new();
    let x = graph.input(String::from("x"));
    let y = graph.input(String::from("y"));
    let p = graph.operation(Op::Mul, vec![x, y]).unwrap();
    graph.output(p).unwrap();
    let mut scratch = Evaluation::new();
    assert_eq!(scratch.num_outputs(), 0);
    assert_eq!(scratch.tape().len(), 0);
    let good = [2.0f64.to_bits(), 5.0f64.to_bits()];
    assert_eq!(graph.compute_into(&good, &mut scratch), Ok(()));
    let before = run(&scratch);
    let slots_before = scratch.tape().len();
    assert_eq!(
        graph.compute_into(&[1.0f64.to_bits()], &mut scratch),
        Err(UsageError::InputCount { expected: 2, found: 1 })
    );
    assert_eq!(scratch.tape().len(), slots_before);
    assert_eq!(run(&scratch), before);
    assert_eq!(graph.compute_into(&good, &mut scratch), Ok(()));
    assert_eq!(run(&scratch), vec![(10.0, vec![5.0, 2.0])]);
    assert_eq!(scratch.tape().len(), slots_before);
}

#[test]
fn scratch_is_overwritten_by_the_next_evaluation() {
    let first = unary_chain(&[Op::Sin, Op::Cos, Op::Pow(3)]);
    let mut second = MultiGraph::new();
    let a = second.input(String::from("a"));
    let b = second.input(String::from("b"));
    let s = second.operation(Op::Add, vec![a, b]).unwrap();
    second.output(s).unwrap();
    second.output(a).unwrap();
    let mut scratch = Evaluation::new();
    first.compute_into(&[0.5f64.to_bits()], &mut scratch).unwrap();
    assert_eq!(run(&scratch), evaluate(&first, &[0.5]));
    second.compute_into(&[1.0f64.to_bits(), 2.0f64.to_bits()], &mut scratch).unwrap();
    assert_eq!(run(&scratch), vec![(3.0, vec![1.0, 1.0]), (1.0, vec![1.0, 0.0])]);
    first.compute_into(&[0.25f64.to_bits()], &mut scratch).unwrap();
    assert_eq!(run(&scratch), evaluate(&first, &[0.25]));
}
