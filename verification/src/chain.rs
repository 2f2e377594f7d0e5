//! The single-input graph: one input fed through a chain of operators.

use vstd::prelude::*;
use crate::eval::Evaluation;
use crate::graph::Op;
use crate::rules::{emit_partial, emit_value, terms_at};
use crate::tape::{denote, well_formed, Expr, Instr, Tape, ONE};

verus! {

/// The value after the first `upto` operators of the chain, each applied to
/// the value before it as its only operand.
pub open spec fn chain_value(ops: Seq<Op>, input: u64, upto: int) -> Expr
    decreases upto,
{
    if upto <= 0 {
        Expr::Lit(input)
    } else {
        ops[upto - 1].value(seq![chain_value(ops, input, upto - 1)])
    }
}

/// The derivative, with respect to the input, of the value after the first
/// `upto` operators: the derivative so far times the operator's partial.
pub open spec fn chain_tangent(ops: Seq<Op>, input: u64, upto: int) -> Expr
    decreases upto,
{
    if upto <= 0 {
        Expr::Lit(ONE)
    } else {
        Expr::Mul(
            Box::new(chain_tangent(ops, input, upto - 1)),
            Box::new(ops[upto - 1].partial(seq![chain_value(ops, input, upto - 1)], 0)),
        )
    }
}

/// A chain of operators applied to a single input.
#[derive(Clone, Debug)]
pub struct CompGraph {
    ops: Vec<Op>,
}

impl View for CompGraph {
    type V = Seq<Op>;

    closed spec fn view(&self) -> Seq<Op> {
        self.ops@
    }
}

impl CompGraph {
    /// The chain that applies `ops` in order.
    pub fn new(ops: Vec<Op>) -> (graph: CompGraph)
        ensures
            graph@ == ops@,
    {
        CompGraph { ops }
    }

    /// Evaluates the chain on the double with bit pattern `input`. The one
    /// reported pair is the final value and its derivative with respect to
    /// the input.
    pub fn compute(&self, input: u64) -> (evaluation: Evaluation)
        ensures
            evaluation.wf(),
            evaluation.pairs() == seq![
                (
                    chain_value(self@, input, self@.len() as int),
                    seq![chain_tangent(self@, input, self@.len() as int)],
                ),
            ],
    {
        let mut tape = Tape::new();
        let mut value = tape.push(Instr::Lit(input));
        let mut tangent = tape.push(Instr::Lit(ONE));
        let mut k: usize = 0;
        while k < self.ops.len()
            invariant
                k <= self.ops@.len(),
                well_formed(tape@),
                value < tape@.len(),
                tangent < tape@.len(),
                denote(tape@, value as int) == chain_value(self@, input, k as int),
                denote(tape@, tangent as int) == chain_tangent(self@, input, k as int),
            decreases self.ops.len() - k,
        {
            let op = self.ops[k];
            let ghost before = tape@;
            let mut xs: Vec<usize> = Vec::new();
            xs.push(value);
            assert(terms_at(before, xs@) =~= seq![chain_value(self@, input, k as int)]);
            let partial = emit_partial(&mut tape, op, &xs, 0);
            let ghost mid = tape@;
            assert(terms_at(mid, xs@) =~= terms_at(before, xs@));
            let next = emit_value(&mut tape, op, &xs);
            tangent = tape.push(Instr::Mul(tangent, partial));
            value = next;
            k += 1;
        }
        Evaluation::single(tape, value, tangent)
    }
}

} // verus!
