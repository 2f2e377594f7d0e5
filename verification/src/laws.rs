//! General facts about evaluation, proved from the definitions that the
//! evaluator's contract is stated in.

use vstd::prelude::*;
use crate::eval::{gradient_of, operand_tangents, operand_values, reported, tangent_of, value_of};
use crate::eval::{markers_upto, seen_tangent, seen_value, Evaluation};
use crate::graph::{all_below, input_count, inputs_before, lemma_inputs_before_bounds};
use crate::graph::lemma_inputs_before_prefix;
use crate::graph::{node_ok, valid, Node, NodeId, Op};
use crate::rules::{chain_sum, product_except, product_skipping, sum_upto};
use crate::tape::{Arithmetic, Expr, ONE, ZERO};

verus! {

/// Two evaluations of the same graph on the same inputs report the same
/// pairs, and running them under the same arithmetic yields the same bits:
/// what is reported is a function of the node list and the inputs alone.
pub proof fn lemma_compute_repeatable(
    nodes: Seq<Node>,
    inputs: Seq<u64>,
    first: Evaluation,
    second: Evaluation,
    arith: Arithmetic,
)
    requires
        first.wf(),
        second.wf(),
        first.pairs() == reported(nodes, inputs),
        second.pairs() == reported(nodes, inputs),
    ensures
        first.pairs() == second.pairs(),
        first.results(arith) == second.results(arith),
{
    first.lemma_results_are_pairs(arith);
    second.lemma_results_are_pairs(arith);
    assert(first.count() == first.pairs().len());
    assert(second.count() == second.pairs().len());
}

/// One pair is reported per output marker, and every gradient has one
/// component per declared input.
pub proof fn lemma_reported_shape(nodes: Seq<Node>, inputs: Seq<u64>, o: int)
    requires
        0 <= o < reported(nodes, inputs).len(),
    ensures
        reported(nodes, inputs).len() == markers_upto(nodes, nodes.len() as int).len(),
        reported(nodes, inputs)[o].1.len() == input_count(nodes),
{
    lemma_inputs_before_bounds(nodes, nodes.len() as int);
}

/// In a valid graph every operand exists before the operation that reads
/// it, so an operand that is not a marker is seen with its own value and
/// tangent: the zero that stands in for a missing node is never used.
pub proof fn lemma_operands_are_seen(
    nodes: Seq<Node>,
    inputs: Seq<u64>,
    i: int,
    op: Op,
    operands: Vec<NodeId>,
    k: int,
    c: int,
)
    requires
        valid(nodes),
        0 <= i < nodes.len(),
        nodes[i] == Node::Operation(op, operands),
        0 <= k < operands@.len(),
        !(nodes[operands@[k]@ as int] is Output),
    ensures
        operands@[k]@ < i,
        operand_values(nodes, inputs, i, operands@)[k] == value_of(
            nodes,
            inputs,
            operands@[k]@ as int,
        ),
        operand_tangents(nodes, inputs, i, operands@, c)[k] == tangent_of(
            nodes,
            inputs,
            operands@[k]@ as int,
            c,
        ),
{
    assert(node_ok(nodes[i], i));
}

/// The chain rule for an operator of one operand: the node's tangent is
/// zero plus the operand's tangent times the operator's partial.
pub proof fn lemma_unary_tangent(
    nodes: Seq<Node>,
    inputs: Seq<u64>,
    i: int,
    c: int,
    op: Op,
    operands: Vec<NodeId>,
)
    requires
        0 <= i < nodes.len(),
        nodes[i] == Node::Operation(op, operands),
        operands@.len() == 1,
    ensures
        value_of(nodes, inputs, i) == op.value(operand_values(nodes, inputs, i, operands@)),
        tangent_of(nodes, inputs, i, c) == Expr::Add(
            Box::new(Expr::Lit(ZERO)),
            Box::new(
                Expr::Mul(
                    Box::new(operand_tangents(nodes, inputs, i, operands@, c)[0]),
                    Box::new(op.partial(operand_values(nodes, inputs, i, operands@), 0)),
                ),
            ),
        ),
{
    reveal_with_fuel(chain_sum, 2);
}

/// The tangent of a sum of any number of operands is the chain-rule sum in
/// which every operand's tangent is weighted by one.
pub proof fn lemma_add_tangent(
    nodes: Seq<Node>,
    inputs: Seq<u64>,
    i: int,
    c: int,
    operands: Vec<NodeId>,
)
    requires
        0 <= i < nodes.len(),
        nodes[i] == Node::Operation(Op::Add, operands),
    ensures
        value_of(nodes, inputs, i) == sum_upto(
            operand_values(nodes, inputs, i, operands@),
            operands@.len() as int,
        ),
        tangent_of(nodes, inputs, i, c) == chain_sum(
            operand_tangents(nodes, inputs, i, operands@, c),
            Seq::new(operands@.len(), |k: int| Expr::Lit(ONE)),
            operands@.len() as int,
        ),
{
    let values = operand_values(nodes, inputs, i, operands@);
    assert(Op::Add.partials(values) =~= Seq::new(operands@.len(), |k: int| Expr::Lit(ONE)));
}

/// The tangent of a product of any number of operands is the chain-rule sum
/// in which every operand's tangent is weighted by the product of all the
/// other operands, position by position: an operand that occurs twice
/// contributes twice.
pub proof fn lemma_mul_tangent(
    nodes: Seq<Node>,
    inputs: Seq<u64>,
    i: int,
    c: int,
    operands: Vec<NodeId>,
)
    requires
        0 <= i < nodes.len(),
        nodes[i] == Node::Operation(Op::Mul, operands),
    ensures
        value_of(nodes, inputs, i) == product_except(
            operand_values(nodes, inputs, i, operands@),
            operands@.len() as int,
        ),
        tangent_of(nodes, inputs, i, c) == chain_sum(
            operand_tangents(nodes, inputs, i, operands@, c),
            Seq::new(
                operands@.len(),
                |k: int| product_except(operand_values(nodes, inputs, i, operands@), k),
            ),
            operands@.len() as int,
        ),
{
    let values = operand_values(nodes, inputs, i, operands@);
    assert(Op::Mul.partials(values) =~= Seq::new(
        operands@.len(),
        |k: int| product_except(values, k),
    ));
}

/// The chain-rule sum over two operands, written out: no cross term is
/// left out.
pub proof fn lemma_chain_sum_of_two(tangents: Seq<Expr>, partials: Seq<Expr>)
    ensures
        chain_sum(tangents, partials, 2) == Expr::Add(
            Box::new(
                Expr::Add(
                    Box::new(Expr::Lit(ZERO)),
                    Box::new(Expr::Mul(Box::new(tangents[0]), Box::new(partials[0]))),
                ),
            ),
            Box::new(Expr::Mul(Box::new(tangents[1]), Box::new(partials[1]))),
        ),
{
    reveal_with_fuel(chain_sum, 3);
}

/// For a product of two operands, the partial with respect to each is the
/// other one, and the value is their product.
pub proof fn lemma_product_of_two(xs: Seq<Expr>)
    requires
        xs.len() == 2,
    ensures
        product_except(xs, 0) == xs[1],
        product_except(xs, 1) == xs[0],
        product_except(xs, 2) == Expr::Mul(Box::new(xs[0]), Box::new(xs[1])),
{
    reveal_with_fuel(product_skipping, 3);
}

/// The node lists `a` and `b` are the same up to and including position `i`.
pub open spec fn agree_through(a: Seq<Node>, b: Seq<Node>, i: int) -> bool {
    &&& 0 <= i < a.len()
    &&& i < b.len()
    &&& forall|k: int| 0 <= k <= i ==> a[k] == b[k]
}

/// What an operation sees of its operands depends only on the nodes up to
/// the operation.
pub proof fn lemma_operand_values_local(
    a: Seq<Node>,
    b: Seq<Node>,
    inputs: Seq<u64>,
    i: int,
    operands: Seq<NodeId>,
)
    requires
        agree_through(a, b, i),
    ensures
        operand_values(a, inputs, i, operands) == operand_values(b, inputs, i, operands),
    decreases i, 0int,
{
    assert forall|k: int| 0 <= k < operands.len() implies seen_value(
        a,
        inputs,
        i,
        operands[k]@ as int,
    ) == seen_value(b, inputs, i, operands[k]@ as int) by {
        let j = operands[k]@ as int;
        if j < i {
            lemma_value_local(a, b, inputs, j);
        }
    }
    assert(operand_values(a, inputs, i, operands) =~= operand_values(b, inputs, i, operands));
}

/// A node's value depends only on the nodes up to and including it: later
/// appends never change it.
pub proof fn lemma_value_local(a: Seq<Node>, b: Seq<Node>, inputs: Seq<u64>, i: int)
    requires
        agree_through(a, b, i),
    ensures
        value_of(a, inputs, i) == value_of(b, inputs, i),
    decreases i, 1int,
{
    match a[i] {
        Node::Input(_) => {
            lemma_inputs_before_prefix(a, b, i);
        },
        Node::Operation(op, operands) => {
            lemma_operand_values_local(a, b, inputs, i, operands@);
        },
        Node::Output(source) => {
            if source@ < i {
                lemma_value_local(a, b, inputs, source@ as int);
            }
        },
    }
}

/// What an operation sees of its operands' tangents depends only on the
/// nodes up to the operation.
pub proof fn lemma_operand_tangents_local(
    a: Seq<Node>,
    b: Seq<Node>,
    inputs: Seq<u64>,
    i: int,
    operands: Seq<NodeId>,
    c: int,
)
    requires
        agree_through(a, b, i),
    ensures
        operand_tangents(a, inputs, i, operands, c) == operand_tangents(b, inputs, i, operands, c),
    decreases i, 0int,
{
    assert forall|k: int| 0 <= k < operands.len() implies seen_tangent(
        a,
        inputs,
        i,
        operands[k]@ as int,
        c,
    ) == seen_tangent(b, inputs, i, operands[k]@ as int, c) by {
        let j = operands[k]@ as int;
        if j < i {
            lemma_tangent_local(a, b, inputs, j, c);
        }
    }
    assert(operand_tangents(a, inputs, i, operands, c) =~= operand_tangents(
        b,
        inputs,
        i,
        operands,
        c,
    ));
}

/// A node's tangent depends only on the nodes up to and including it.
pub proof fn lemma_tangent_local(a: Seq<Node>, b: Seq<Node>, inputs: Seq<u64>, i: int, c: int)
    requires
        agree_through(a, b, i),
    ensures
        tangent_of(a, inputs, i, c) == tangent_of(b, inputs, i, c),
    decreases i, 1int,
{
    match a[i] {
        Node::Input(_) => {
            lemma_inputs_before_prefix(a, b, i);
        },
        Node::Operation(op, operands) => {
            lemma_operand_values_local(a, b, inputs, i, operands@);
            lemma_operand_tangents_local(a, b, inputs, i, operands@, c);
        },
        Node::Output(source) => {
            if source@ < i {
                lemma_tangent_local(a, b, inputs, source@ as int, c);
            }
        },
    }
}

/// `base` followed by one output marker for each of `sources`, in order.
pub open spec fn with_markers(base: Seq<Node>, sources: Seq<NodeId>) -> Seq<Node> {
    base + Seq::new(sources.len(), |o: int| Node::Output(sources[o]))
}

/// Appending markers declares no input.
pub proof fn lemma_markers_declare_no_input(base: Seq<Node>, sources: Seq<NodeId>, t: int)
    requires
        0 <= t <= sources.len(),
    ensures
        inputs_before(with_markers(base, sources), base.len() + t) == input_count(base),
    decreases t,
{
    let full = with_markers(base, sources);
    if t == 0 {
        lemma_inputs_before_prefix(full, base, base.len() as int);
    } else {
        lemma_markers_declare_no_input(base, sources, t - 1);
        assert(full[base.len() + t - 1] == Node::Output(sources[t - 1]));
    }
}

/// The markers among a prefix depend on that prefix only.
pub proof fn lemma_markers_local(a: Seq<Node>, b: Seq<Node>, upto: int)
    requires
        0 <= upto <= a.len(),
        upto <= b.len(),
        forall|k: int| 0 <= k < upto ==> a[k] == b[k],
    ensures
        markers_upto(a, upto) == markers_upto(b, upto),
    decreases upto,
{
    if upto > 0 {
        lemma_markers_local(a, b, upto - 1);
    }
}

/// Every marker position lies below the bound it was collected under.
pub proof fn lemma_markers_bounded(nodes: Seq<Node>, upto: int, o: int)
    requires
        0 <= o < markers_upto(nodes, upto).len(),
    ensures
        0 <= markers_upto(nodes, upto)[o] < upto,
    decreases upto,
{
    if upto > 0 {
        if o < markers_upto(nodes, upto - 1).len() {
            lemma_markers_bounded(nodes, upto - 1, o);
        }
    }
}

/// The markers of a list that ends in appended markers: those of the base,
/// then the appended ones in order.
pub proof fn lemma_markers_appended(base: Seq<Node>, sources: Seq<NodeId>, t: int)
    requires
        0 <= t <= sources.len(),
    ensures
        markers_upto(with_markers(base, sources), base.len() + t) == markers_upto(
            base,
            base.len() as int,
        ) + Seq::new(t as nat, |o: int| base.len() + o),
    decreases t,
{
    let full = with_markers(base, sources);
    let old_markers = markers_upto(base, base.len() as int);
    if t == 0 {
        lemma_markers_local(full, base, base.len() as int);
        assert(markers_upto(full, base.len() as int) =~= old_markers + Seq::new(
            0nat,
            |o: int| base.len() + o,
        ));
    } else {
        lemma_markers_appended(base, sources, t - 1);
        assert(full[base.len() + t - 1] == Node::Output(sources[t - 1]));
        assert(markers_upto(full, base.len() + t) =~= old_markers + Seq::new(
            t as nat,
            |o: int| base.len() + o,
        ));
    }
}

/// The pair that a node reports, taken from the list `nodes`.
pub open spec fn pair_of(nodes: Seq<Node>, inputs: Seq<u64>, i: int) -> (Expr, Seq<Expr>) {
    (value_of(nodes, inputs, i), gradient_of(nodes, inputs, i))
}

/// Outputs are reported in declaration order, and each marker reports what
/// its source is, whatever else is declared around it: appending markers for
/// `sources` appends exactly the pairs of those sources, in the same order.
/// Declaring the same outputs in another order therefore only reorders the
/// reported pairs.
pub proof fn lemma_outputs_follow_declaration(
    base: Seq<Node>,
    sources: Seq<NodeId>,
    inputs: Seq<u64>,
)
    requires
        all_below(sources, base.len() as int),
    ensures
        reported(with_markers(base, sources), inputs) == reported(base, inputs) + Seq::new(
            sources.len(),
            |o: int| pair_of(base, inputs, sources[o]@ as int),
        ),
{
    let full = with_markers(base, sources);
    let n = base.len() as int;
    let old_markers = markers_upto(base, n);
    let all_markers = markers_upto(full, full.len() as int);
    let expected = reported(base, inputs) + Seq::new(
        sources.len(),
        |o: int| pair_of(base, inputs, sources[o]@ as int),
    );
    lemma_markers_appended(base, sources, sources.len() as int);
    lemma_markers_declare_no_input(base, sources, sources.len() as int);
    lemma_inputs_before_bounds(base, n);
    assert forall|o: int| 0 <= o < all_markers.len() implies reported(full, inputs)[o]
        == expected[o] by {
        let m = all_markers[o];
        if o < old_markers.len() {
            lemma_markers_bounded(base, n, o);
            assert(m == old_markers[o]);
            lemma_value_local(full, base, inputs, m);
            assert forall|c: int| 0 <= c < input_count(base) implies tangent_of(full, inputs, m, c)
                == tangent_of(base, inputs, m, c) by {
                lemma_tangent_local(full, base, inputs, m, c);
            }
            assert(gradient_of(full, inputs, m) =~= gradient_of(base, inputs, m));
        } else {
            let t = o - old_markers.len();
            assert(m == n + t);
            let source = sources[t]@ as int;
            assert(full[m] == Node::Output(sources[t]));
            lemma_value_local(full, base, inputs, source);
            assert forall|c: int| 0 <= c < input_count(base) implies tangent_of(full, inputs, m, c)
                == tangent_of(base, inputs, source, c) by {
                lemma_tangent_local(full, base, inputs, source, c);
            }
            assert(gradient_of(full, inputs, m) =~= gradient_of(base, inputs, source));
        }
    }
    assert(reported(full, inputs) =~= expected);
}

/// Order invariance, pair by pair: when two graphs share a base and differ
/// only in the order in which they mark outputs, a marker reports the same
/// pair in both, at the place where each graph declares it.
pub proof fn lemma_output_order_invariant(
    base: Seq<Node>,
    inputs: Seq<u64>,
    one_order: Seq<NodeId>,
    other_order: Seq<NodeId>,
    o: int,
    p: int,
)
    requires
        all_below(one_order, base.len() as int),
        all_below(other_order, base.len() as int),
        0 <= o < one_order.len(),
        0 <= p < other_order.len(),
        one_order[o] == other_order[p],
    ensures
        reported(with_markers(base, one_order), inputs).len() == reported(base, inputs).len()
            + one_order.len(),
        reported(with_markers(base, other_order), inputs).len() == reported(base, inputs).len()
            + other_order.len(),
        reported(with_markers(base, one_order), inputs)[reported(base, inputs).len() + o]
            == reported(with_markers(base, other_order), inputs)[reported(base, inputs).len() + p],
{
    lemma_outputs_follow_declaration(base, one_order, inputs);
    lemma_outputs_follow_declaration(base, other_order, inputs);
}

} // verus!
