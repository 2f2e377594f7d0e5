//! The evaluator: what every node's value and tangent row are, and the
//! lowering of one evaluation to a tape.

use vstd::prelude::*;
use crate::graph::{all_below, input_count, inputs_before, node_ok, valid};
use crate::graph::{MultiGraph, Node, NodeId};
use crate::graph::{lemma_inputs_before_monotone, Op};
use crate::rules::{chain_sum, emit_chain, emit_partials, emit_value, grown, slots_below};
use crate::rules::terms_at;
use crate::tape::{denote, eval_term, lemma_run_computes_terms, run, well_formed};
use crate::tape::{Arithmetic, Expr, Instr, Tape, ONE, ZERO};

verus! {

/// Why an evaluation was refused.
#[derive(Clone, Copy, Debug, PartialEq, Eq)]
pub enum UsageError {
    /// The number of supplied values differs from the number of declared
    /// inputs.
    InputCount { expected: usize, found: usize },
}

/// The value of node `j` as an operation at position `i` sees it.
///
/// Output markers are filled in only after all operations, so a marker used
/// as an operand reads as zero, as does anything not before `i`.
pub open spec fn seen_value(nodes: Seq<Node>, inputs: Seq<u64>, i: int, j: int) -> Expr
    decreases i, 0int,
{
    if 0 <= j < i && j < nodes.len() && !(nodes[j] is Output) {
        value_of(nodes, inputs, j)
    } else {
        Expr::Lit(ZERO)
    }
}

/// The values of the operands of the operation at position `i`.
pub open spec fn operand_values(
    nodes: Seq<Node>,
    inputs: Seq<u64>,
    i: int,
    operands: Seq<NodeId>,
) -> Seq<Expr>
    decreases i, 1int,
{
    Seq::new(operands.len(), |k: int| seen_value(nodes, inputs, i, operands[k]@ as int))
}

/// The value of node `i` when the graph is evaluated on `inputs`.
///
/// The `p`-th declared input takes `inputs[p]`; an operation applies its
/// value rule to its operands' values; a marker takes its source's value.
pub open spec fn value_of(nodes: Seq<Node>, inputs: Seq<u64>, i: int) -> Expr
    decreases i, 2int,
{
    if 0 <= i < nodes.len() {
        match nodes[i] {
            Node::Input(_) => Expr::Lit(inputs[inputs_before(nodes, i)]),
            Node::Operation(op, operands) => op.value(operand_values(nodes, inputs, i, operands@)),
            Node::Output(source) => if source@ < i {
                value_of(nodes, inputs, source@ as int)
            } else {
                Expr::Lit(ZERO)
            },
        }
    } else {
        Expr::Lit(ZERO)
    }
}

/// The tangent, with respect to input `c`, of node `j` as an operation at
/// position `i` sees it. See [`seen_value`].
pub open spec fn seen_tangent(nodes: Seq<Node>, inputs: Seq<u64>, i: int, j: int, c: int) -> Expr
    decreases i, 0int,
{
    if 0 <= j < i && j < nodes.len() && !(nodes[j] is Output) {
        tangent_of(nodes, inputs, j, c)
    } else {
        Expr::Lit(ZERO)
    }
}

/// The tangents, with respect to input `c`, of the operands of the operation
/// at position `i`.
pub open spec fn operand_tangents(
    nodes: Seq<Node>,
    inputs: Seq<u64>,
    i: int,
    operands: Seq<NodeId>,
    c: int,
) -> Seq<Expr>
    decreases i, 1int,
{
    Seq::new(operands.len(), |k: int| seen_tangent(nodes, inputs, i, operands[k]@ as int, c))
}

/// The derivative of node `i` with respect to the `c`-th declared input.
///
/// An input's tangent row is one-hot at its own position; an operation's is
/// the chain-rule sum over its operands of `tangent * partial`; a marker
/// takes its source's.
pub open spec fn tangent_of(nodes: Seq<Node>, inputs: Seq<u64>, i: int, c: int) -> Expr
    decreases i, 2int,
{
    if 0 <= i < nodes.len() {
        match nodes[i] {
            Node::Input(_) => if inputs_before(nodes, i) == c {
                Expr::Lit(ONE)
            } else {
                Expr::Lit(ZERO)
            },
            Node::Operation(op, operands) => chain_sum(
                operand_tangents(nodes, inputs, i, operands@, c),
                op.partials(operand_values(nodes, inputs, i, operands@)),
                operands@.len() as int,
            ),
            Node::Output(source) => if source@ < i {
                tangent_of(nodes, inputs, source@ as int, c)
            } else {
                Expr::Lit(ZERO)
            },
        }
    } else {
        Expr::Lit(ZERO)
    }
}

/// The tangent row of node `i`: one derivative per declared input.
pub open spec fn gradient_of(nodes: Seq<Node>, inputs: Seq<u64>, i: int) -> Seq<Expr> {
    Seq::new(input_count(nodes) as nat, |c: int| tangent_of(nodes, inputs, i, c))
}

/// Positions of the output markers among the first `upto` nodes, ascending.
pub open spec fn markers_upto(nodes: Seq<Node>, upto: int) -> Seq<int>
    decreases upto,
{
    if upto <= 0 {
        Seq::empty()
    } else if nodes[upto - 1] is Output {
        markers_upto(nodes, upto - 1).push(upto - 1)
    } else {
        markers_upto(nodes, upto - 1)
    }
}

/// What an evaluation reports: for every output marker, in declaration
/// order, the marked value and its gradient.
pub open spec fn reported(nodes: Seq<Node>, inputs: Seq<u64>) -> Seq<(Expr, Seq<Expr>)> {
    let markers = markers_upto(nodes, nodes.len() as int);
    Seq::new(
        markers.len(),
        |o: int| (value_of(nodes, inputs, markers[o]), gradient_of(nodes, inputs, markers[o])),
    )
}

/// The slot tables of the first `upto` nodes hold, for each node, a slot
/// that computes its value and a row of slots that compute its tangents.
pub open spec fn lowered(
    tape: Seq<Instr>,
    values: Seq<usize>,
    rows: Seq<Vec<usize>>,
    nodes: Seq<Node>,
    inputs: Seq<u64>,
    upto: int,
) -> bool {
    &&& values.len() == upto
    &&& rows.len() == upto
    &&& forall|k: int|
        0 <= k < upto ==> (#[trigger] values[k]) < tape.len() && denote(tape, values[k] as int)
            == value_of(nodes, inputs, k)
    &&& forall|k: int| 0 <= k < upto ==> row_lowered(tape, (#[trigger] rows[k])@, nodes, inputs, k)
}

/// `row` holds one slot per declared input, each computing the tangent of
/// node `k` with respect to that input.
pub open spec fn row_lowered(
    tape: Seq<Instr>,
    row: Seq<usize>,
    nodes: Seq<Node>,
    inputs: Seq<u64>,
    k: int,
) -> bool {
    &&& row.len() == input_count(nodes)
    &&& forall|c: int|
        0 <= c < row.len() ==> (#[trigger] row[c]) < tape.len() && denote(tape, row[c] as int)
            == tangent_of(nodes, inputs, k, c)
}

/// Slot tables stay right when the tape grows.
pub proof fn lemma_lowered_grown(
    before: Seq<Instr>,
    after: Seq<Instr>,
    values: Seq<usize>,
    rows: Seq<Vec<usize>>,
    nodes: Seq<Node>,
    inputs: Seq<u64>,
    upto: int,
)
    requires
        lowered(before, values, rows, nodes, inputs, upto),
        grown(after, before),
    ensures
        lowered(after, values, rows, nodes, inputs, upto),
{
    assert forall|k: int| 0 <= k < upto implies row_lowered(
        after,
        (#[trigger] rows[k])@,
        nodes,
        inputs,
        k,
    ) by {
        assert(row_lowered(before, rows[k]@, nodes, inputs, k));
    }
}

/// Whether `node` is an output marker.
fn is_marker(node: &Node) -> (b: bool)
    ensures
        b == (*node is Output),
{
    match node {
        Node::Output(_) => true,
        _ => false,
    }
}

/// A row of `width` slots: `one` at position `hot`, `zero` elsewhere.
fn one_hot(width: usize, hot: usize, zero: usize, one: usize) -> (row: Vec<usize>)
    ensures
        row@.len() == width,
        forall|c: int| 0 <= c < width ==> #[trigger] row@[c] == if c == hot { one } else { zero },
{
    let mut row: Vec<usize> = Vec::new();
    let mut c: usize = 0;
    while c < width
        invariant
            c <= width,
            row@.len() == c,
            forall|d: int| 0 <= d < c ==> #[trigger] row@[d] == if d == hot { one } else { zero },
        decreases width - c,
    {
        row.push(if c == hot { one } else { zero });
        c += 1;
    }
    row
}

/// A copy of `row`.
fn copy_row(row: &Vec<usize>) -> (copy: Vec<usize>)
    ensures
        copy@ == row@,
{
    let mut copy: Vec<usize> = Vec::new();
    let mut c: usize = 0;
    while c < row.len()
        invariant
            c <= row.len(),
            copy@ == row@.take(c as int),
        decreases row.len() - c,
    {
        copy.push(row[c]);
        assert(row@.take(c as int).push(row@[c as int]) =~= row@.take(c + 1));
        c += 1;
    }
    assert(row@.take(row@.len() as int) =~= row@);
    copy
}

/// The value slots of the operands of the operation at position `i`.
fn gather_values(
    graph: &MultiGraph,
    operands: &Vec<NodeId>,
    values: &Vec<usize>,
    zero: usize,
    i: usize,
    Ghost(tape): Ghost<Seq<Instr>>,
    Ghost(rows): Ghost<Seq<Vec<usize>>>,
    Ghost(inputs): Ghost<Seq<u64>>,
) -> (xs: Vec<usize>)
    requires
        i <= graph@.len(),
        lowered(tape, values@, rows, graph@, inputs, i as int),
        all_below(operands@, i as int),
        zero < tape.len(),
        denote(tape, zero as int) == Expr::Lit(ZERO),
    ensures
        xs@.len() == operands@.len(),
        slots_below(xs@, tape.len() as int),
        terms_at(tape, xs@) == operand_values(graph@, inputs, i as int, operands@),
{
    let mut xs: Vec<usize> = Vec::new();
    let mut k: usize = 0;
    while k < operands.len()
        invariant
            k <= operands.len(),
            xs@.len() == k,
            i <= graph@.len(),
            lowered(tape, values@, rows, graph@, inputs, i as int),
            all_below(operands@, i as int),
            zero < tape.len(),
            denote(tape, zero as int) == Expr::Lit(ZERO),
            forall|j: int|
                0 <= j < k ==> (#[trigger] xs@[j]) < tape.len() && denote(tape, xs@[j] as int)
                    == seen_value(graph@, inputs, i as int, operands@[j]@ as int),
        decreases operands.len() - k,
    {
        let j = operands[k].index();
        assert(operands@[k as int]@ < i);
        let x = if is_marker(graph.node(j)) {
            zero
        } else {
            values[j]
        };
        xs.push(x);
        k += 1;
    }
    assert(terms_at(tape, xs@) =~= operand_values(graph@, inputs, i as int, operands@));
    xs
}

/// The tangent slots, in column `c`, of the operands of the operation at
/// position `i`.
fn gather_tangents(
    graph: &MultiGraph,
    operands: &Vec<NodeId>,
    rows: &Vec<Vec<usize>>,
    zero: usize,
    i: usize,
    c: usize,
    Ghost(tape): Ghost<Seq<Instr>>,
    Ghost(values): Ghost<Seq<usize>>,
    Ghost(inputs): Ghost<Seq<u64>>,
) -> (ts: Vec<usize>)
    requires
        i <= graph@.len(),
        c < input_count(graph@),
        lowered(tape, values, rows@, graph@, inputs, i as int),
        all_below(operands@, i as int),
        zero < tape.len(),
        denote(tape, zero as int) == Expr::Lit(ZERO),
    ensures
        ts@.len() == operands@.len(),
        slots_below(ts@, tape.len() as int),
        terms_at(tape, ts@) == operand_tangents(graph@, inputs, i as int, operands@, c as int),
{
    let mut ts: Vec<usize> = Vec::new();
    let mut k: usize = 0;
    while k < operands.len()
        invariant
            k <= operands.len(),
            ts@.len() == k,
            i <= graph@.len(),
            c < input_count(graph@),
            lowered(tape, values, rows@, graph@, inputs, i as int),
            all_below(operands@, i as int),
            zero < tape.len(),
            denote(tape, zero as int) == Expr::Lit(ZERO),
            forall|j: int|
                0 <= j < k ==> (#[trigger] ts@[j]) < tape.len() && denote(tape, ts@[j] as int)
                    == seen_tangent(graph@, inputs, i as int, operands@[j]@ as int, c as int),
        decreases operands.len() - k,
    {
        let j = operands[k].index();
        assert(operands@[k as int]@ < i);
        assert(row_lowered(tape, rows@[j as int]@, graph@, inputs, j as int));
        let t = if is_marker(graph.node(j)) {
            zero
        } else {
            rows[j][c]
        };
        ts.push(t);
        k += 1;
    }
    assert(terms_at(tape, ts@) =~= operand_tangents(
        graph@,
        inputs,
        i as int,
        operands@,
        c as int,
    ));
    ts
}


/// Lowers the operation at position `i`: appends its value rule and, for
/// every declared input, its chain-rule sum. Returns the value slot and the
/// tangent row.
fn lower_operation(
    tape: &mut Tape,
    graph: &MultiGraph,
    op: Op,
    operands: &Vec<NodeId>,
    values: &Vec<usize>,
    rows: &Vec<Vec<usize>>,
    zero: usize,
    i: usize,
    Ghost(inputs): Ghost<Seq<u64>>,
) -> (lowering: (usize, Vec<usize>))
    requires
        graph.wf(),
        i < graph@.len(),
        graph@[i as int] == Node::Operation(op, *operands),
        well_formed(old(tape)@),
        lowered(old(tape)@, values@, rows@, graph@, inputs, i as int),
        zero < old(tape)@.len(),
        denote(old(tape)@, zero as int) == Expr::Lit(ZERO),
    ensures
        grown(final(tape)@, old(tape)@),
        lowering.0 < final(tape)@.len(),
        denote(final(tape)@, lowering.0 as int) == value_of(graph@, inputs, i as int),
        row_lowered(final(tape)@, lowering.1@, graph@, inputs, i as int),
{
    let ghost start = tape@;
    let ghost nodes = graph@;
    proof {
        graph.lemma_wf_valid();
        assert(node_ok(nodes[i as int], i as int));
    }
    let width = graph.num_inputs();
    let xs = gather_values(graph, operands, values, zero, i, Ghost(start), Ghost(rows@), Ghost(inputs));
    let ghost vals = operand_values(nodes, inputs, i as int, operands@);
    let v = emit_value(tape, op, &xs);
    let ghost mid = tape@;
    let ps = emit_partials(tape, op, &xs);
    proof {
        assert(terms_at(mid, xs@) =~= vals);
        lemma_lowered_grown(start, tape@, values@, rows@, nodes, inputs, i as int);
    }
    let mut row: Vec<usize> = Vec::new();
    let mut c: usize = 0;
    while c < width
        invariant
            c <= width,
            width == input_count(nodes),
            nodes == graph@,
            i < nodes.len(),
            nodes[i as int] == Node::Operation(op, *operands),
            all_below(operands@, i as int),
            vals == operand_values(nodes, inputs, i as int, operands@),
            row@.len() == c,
            well_formed(tape@),
            grown(tape@, start),
            lowered(tape@, values@, rows@, nodes, inputs, i as int),
            zero < tape@.len(),
            denote(tape@, zero as int) == Expr::Lit(ZERO),
            v < tape@.len(),
            denote(tape@, v as int) == op.value(vals),
            ps@.len() == operands@.len(),
            slots_below(ps@, tape@.len() as int),
            terms_at(tape@, ps@) == op.partials(vals),
            forall|d: int|
                0 <= d < c ==> (#[trigger] row@[d]) < tape@.len() && denote(tape@, row@[d] as int)
                    == tangent_of(nodes, inputs, i as int, d),
        decreases width - c,
    {
        let ghost before = tape@;
        let ts = gather_tangents(
            graph,
            operands,
            rows,
            zero,
            i,
            c,
            Ghost(before),
            Ghost(values@),
            Ghost(inputs),
        );
        let t = emit_chain(tape, &ts, &ps);
        proof {
            lemma_lowered_grown(before, tape@, values@, rows@, nodes, inputs, i as int);
            assert(terms_at(tape@, ps@) =~= terms_at(before, ps@));
        }
        row.push(t);
        c += 1;
    }
    (v, row)
}

/// One evaluation of a graph, lowered to a tape, with the slots that hold
/// what each output marker reports.
#[derive(Debug)]
pub struct Evaluation {
    tape: Tape,
    values: Vec<usize>,
    rows: Vec<Vec<usize>>,
    outputs: Vec<usize>,
}

impl Evaluation {
    /// The tape is well formed and every recorded slot lies on it.
    pub closed spec fn wf(&self) -> bool {
        &&& well_formed(self.tape@)
        &&& self.values@.len() == self.rows@.len()
        &&& forall|k: int|
            0 <= k < self.values@.len() ==> (#[trigger] self.values@[k]) < self.tape@.len()
        &&& forall|k: int|
            0 <= k < self.rows@.len() ==> slots_below(
                (#[trigger] self.rows@[k])@,
                self.tape@.len() as int,
            )
        &&& forall|o: int|
            0 <= o < self.outputs@.len() ==> (#[trigger] self.outputs@[o]) < self.values@.len()
    }

    /// The instructions of the tape.
    pub closed spec fn program(&self) -> Seq<Instr> {
        self.tape@
    }

    /// The slot that holds the value reported by the `o`-th output marker.
    pub closed spec fn value_slot_of(&self, o: int) -> usize {
        self.values@[self.outputs@[o] as int]
    }

    /// The slots that hold the gradient reported by the `o`-th output marker.
    pub closed spec fn gradient_slots_of(&self, o: int) -> Seq<usize> {
        self.rows@[self.outputs@[o] as int]@
    }

    /// Number of reported pairs.
    pub closed spec fn count(&self) -> nat {
        self.outputs@.len()
    }

    /// The reported pairs as terms: for every output marker, in declaration
    /// order, the value and the gradient.
    pub open spec fn pairs(&self) -> Seq<(Expr, Seq<Expr>)> {
        Seq::new(
            self.count(),
            |o: int|
                (
                    denote(self.program(), self.value_slot_of(o) as int),
                    terms_at(self.program(), self.gradient_slots_of(o)),
                ),
        )
    }

    /// The scalars that a term pair stands for under `arith`.
    pub open spec fn scalars_of(pair: (Expr, Seq<Expr>), arith: Arithmetic) -> (u64, Seq<u64>) {
        (eval_term(pair.0, arith), Seq::new(pair.1.len(), |c: int| eval_term(pair.1[c], arith)))
    }

    /// What one pass over the tape under `arith` leaves in the slots of each
    /// output marker: the bit patterns of the value and of the gradient.
    pub open spec fn results(&self, arith: Arithmetic) -> Seq<(u64, Seq<u64>)> {
        let slots = run(self.program(), arith, self.program().len() as int);
        Seq::new(
            self.count(),
            |o: int|
                (
                    slots[self.value_slot_of(o) as int],
                    Seq::new(
                        self.gradient_slots_of(o).len(),
                        |c: int| slots[self.gradient_slots_of(o)[c] as int],
                    ),
                ),
        )
    }

    /// Running the tape yields, for every output marker, the scalars that
    /// the reported terms stand for.
    pub proof fn lemma_results_are_pairs(&self, arith: Arithmetic)
        requires
            self.wf(),
        ensures
            self.results(arith) == Seq::new(
                self.count(),
                |o: int| Self::scalars_of(self.pairs()[o], arith),
            ),
    {
        lemma_run_computes_terms(self.program(), arith, self.program().len() as int);
        let slots = run(self.program(), arith, self.program().len() as int);
        assert forall|o: int| 0 <= o < self.count() implies self.results(arith)[o]
            == Self::scalars_of(self.pairs()[o], arith) by {
            let m = self.outputs@[o] as int;
            assert(self.values@[m] < self.tape@.len());
            assert(slots_below(self.rows@[m]@, self.tape@.len() as int));
            assert(self.results(arith)[o].1 =~= Self::scalars_of(self.pairs()[o], arith).1);
        }
        assert(self.results(arith) =~= Seq::new(
            self.count(),
            |o: int| Self::scalars_of(self.pairs()[o], arith),
        ));
    }

    /// An evaluation that reports nothing, to be filled by
    /// [`MultiGraph::compute_into`].
    pub fn new() -> (evaluation: Evaluation)
        ensures
            evaluation.wf(),
            evaluation.count() == 0,
    {
        Evaluation { tape: Tape::new(), values: Vec::new(), rows: Vec::new(), outputs: Vec::new() }
    }

    /// An evaluation that reports the single pair held in `value` and
    /// `tangent`.
    pub(crate) fn single(tape: Tape, value: usize, tangent: usize) -> (evaluation: Evaluation)
        requires
            well_formed(tape@),
            value < tape@.len(),
            tangent < tape@.len(),
        ensures
            evaluation.wf(),
            evaluation.program() == tape@,
            evaluation.pairs() == seq![
                (denote(tape@, value as int), seq![denote(tape@, tangent as int)]),
            ],
    {
        let mut values: Vec<usize> = Vec::new();
        values.push(value);
        let mut row: Vec<usize> = Vec::new();
        row.push(tangent);
        let mut rows: Vec<Vec<usize>> = Vec::new();
        rows.push(row);
        let mut outputs: Vec<usize> = Vec::new();
        outputs.push(0);
        let evaluation = Evaluation { tape, values, rows, outputs };
        proof {
            assert(terms_at(evaluation.tape@, evaluation.rows@[0]@) =~= seq![
                denote(tape@, tangent as int),
            ]);
            assert(evaluation.pairs() =~= seq![
                (denote(tape@, value as int), seq![denote(tape@, tangent as int)]),
            ]);
        }
        evaluation
    }

    /// The tape to run.
    pub fn tape(&self) -> (tape: &Tape)
        ensures
            tape@ == self.program(),
    {
        &self.tape
    }

    /// Number of reported pairs.
    pub fn num_outputs(&self) -> (n: usize)
        ensures
            n == self.count(),
    {
        self.outputs.len()
    }

    /// The slot that holds the value reported by the `o`-th output marker.
    pub fn value_slot(&self, o: usize) -> (slot: usize)
        requires
            self.wf(),
            o < self.count(),
        ensures
            slot == self.value_slot_of(o as int),
            slot < self.program().len(),
    {
        self.values[self.outputs[o]]
    }

    /// The slots that hold the gradient reported by the `o`-th output
    /// marker, one per declared input.
    pub fn gradient_slots(&self, o: usize) -> (slots: &Vec<usize>)
        requires
            self.wf(),
            o < self.count(),
        ensures
            slots@ == self.gradient_slots_of(o as int),
            slots_below(slots@, self.program().len() as int),
    {
        &self.rows[self.outputs[o]]
    }
}


impl MultiGraph {
    /// Evaluates the graph on `inputs`, the bit patterns of one double per
    /// declared input, in declaration order, reusing the storage of
    /// `scratch`.
    ///
    /// Refused, before any work and leaving `scratch` untouched, exactly
    /// when the number of supplied values differs from the number of
    /// declared inputs. Otherwise whatever `scratch` held is overwritten, and
    /// it then reports, for every output marker in declaration order, the
    /// value of the marked node and its derivative with respect to every
    /// input.
    pub fn compute_into(&self, inputs: &[u64], scratch: &mut Evaluation) -> (r: Result<
        (),
        UsageError,
    >)
        requires
            self.wf(),
        ensures
            match r {
                Ok(()) => {
                    &&& inputs@.len() == input_count(self@)
                    &&& final(scratch).wf()
                    &&& final(scratch).pairs() == reported(self@, inputs@)
                },
                Err(e) => {
                    &&& inputs@.len() != input_count(self@)
                    &&& e == (UsageError::InputCount {
                        expected: input_count(self@) as usize,
                        found: inputs@.len() as usize,
                    })
                    &&& *final(scratch) == *old(scratch)
                },
            },
    {
        let width = self.num_inputs();
        if inputs.len() != width {
            return Err(UsageError::InputCount { expected: width, found: inputs.len() });
        }
        let ghost nodes = self@;
        let n = self.len();
        scratch.tape.clear();
        scratch.values.clear();
        scratch.rows.clear();
        scratch.outputs.clear();
        let zero = scratch.tape.push(Instr::Lit(ZERO));
        let one = scratch.tape.push(Instr::Lit(ONE));
        let mut seen: usize = 0;
        let mut i: usize = 0;
        proof {
            self.lemma_wf_valid();
        }
        while i < n
            invariant
                i <= n,
                n == nodes.len(),
                nodes == self@,
                self.wf(),
                valid(nodes),
                width == input_count(nodes),
                inputs@.len() == width,
                well_formed(scratch.tape@),
                zero < scratch.tape@.len(),
                one < scratch.tape@.len(),
                denote(scratch.tape@, zero as int) == Expr::Lit(ZERO),
                denote(scratch.tape@, one as int) == Expr::Lit(ONE),
                lowered(scratch.tape@, scratch.values@, scratch.rows@, nodes, inputs@, i as int),
                seen == inputs_before(nodes, i as int),
                scratch.outputs@.len() == markers_upto(nodes, i as int).len(),
                forall|o: int|
                    0 <= o < scratch.outputs@.len() ==> (#[trigger] scratch.outputs@[o]) < i
                        && scratch.outputs@[o] == markers_upto(nodes, i as int)[o],
            decreases n - i,
        {
            let ghost before = scratch.tape@;
            assert(node_ok(nodes[i as int], i as int));
            proof {
                lemma_inputs_before_monotone(nodes, i + 1, n as int);
            }
            match self.node(i) {
                Node::Input(_) => {
                    let v = scratch.tape.push(Instr::Lit(inputs[seen]));
                    let row = one_hot(width, seen, zero, one);
                    proof {
                        lemma_lowered_grown(
                            before,
                            scratch.tape@,
                            scratch.values@,
                            scratch.rows@,
                            nodes,
                            inputs@,
                            i as int,
                        );
                        assert(row_lowered(scratch.tape@, row@, nodes, inputs@, i as int));
                    }
                    scratch.values.push(v);
                    scratch.rows.push(row);
                    seen = seen + 1;
                },
                Node::Operation(op, operands) => {
                    let (v, row) = lower_operation(
                        &mut scratch.tape,
                        self,
                        *op,
                        operands,
                        &scratch.values,
                        &scratch.rows,
                        zero,
                        i,
                        Ghost(inputs@),
                    );
                    proof {
                        lemma_lowered_grown(
                            before,
                            scratch.tape@,
                            scratch.values@,
                            scratch.rows@,
                            nodes,
                            inputs@,
                            i as int,
                        );
                    }
                    scratch.values.push(v);
                    scratch.rows.push(row);
                },
                Node::Output(source) => {
                    let s = source.index();
                    assert(row_lowered(
                        scratch.tape@,
                        scratch.rows@[s as int]@,
                        nodes,
                        inputs@,
                        s as int,
                    ));
                    let v = scratch.values[s];
                    let row = copy_row(&scratch.rows[s]);
                    assert(row_lowered(scratch.tape@, row@, nodes, inputs@, i as int));
                    scratch.values.push(v);
                    scratch.rows.push(row);
                    scratch.outputs.push(i);
                },
            }
            i += 1;
        }
        proof {
            let markers = markers_upto(nodes, n as int);
            assert forall|o: int| 0 <= o < markers.len() implies scratch.pairs()[o] == reported(
                nodes,
                inputs@,
            )[o] by {
                let m = scratch.outputs@[o] as int;
                assert(m == markers[o]);
                assert(row_lowered(scratch.tape@, scratch.rows@[m]@, nodes, inputs@, m));
                assert(terms_at(scratch.tape@, scratch.rows@[m]@) =~= gradient_of(
                    nodes,
                    inputs@,
                    m,
                ));
            }
            assert(scratch.pairs() =~= reported(nodes, inputs@));
            assert forall|k: int| 0 <= k < scratch.rows@.len() implies slots_below(
                (#[trigger] scratch.rows@[k])@,
                scratch.tape@.len() as int,
            ) by {
                assert(row_lowered(scratch.tape@, scratch.rows@[k]@, nodes, inputs@, k));
            }
        }
        Ok(())
    }

    /// Evaluates the graph on `inputs`, the bit patterns of one double per
    /// declared input, in declaration order.
    ///
    /// Refused, before any work, exactly when the number of supplied values
    /// differs from the number of declared inputs. Otherwise the result
    /// reports, for every output marker in declaration order, the value of
    /// the marked node and its derivative with respect to every input.
    pub fn compute(&self, inputs: &[u64]) -> (r: Result<Evaluation, UsageError>)
        requires
            self.wf(),
        ensures
            match r {
                Ok(evaluation) => {
                    &&& inputs@.len() == input_count(self@)
                    &&& evaluation.wf()
                    &&& evaluation.pairs() == reported(self@, inputs@)
                },
                Err(e) => {
                    &&& inputs@.len() != input_count(self@)
                    &&& e == (UsageError::InputCount {
                        expected: input_count(self@) as usize,
                        found: inputs@.len() as usize,
                    })
                },
            },
    {
        let mut evaluation = Evaluation::new();
        match self.compute_into(inputs, &mut evaluation) {
            Ok(()) => Ok(evaluation),
            Err(e) => Err(e),
        }
    }
}

} // verus!
