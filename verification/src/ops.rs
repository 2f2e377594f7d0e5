//! Operation records whose arity is fixed by their type: appending one to a
//! graph can fail only on a reference to a node that does not exist.

use vstd::prelude::*;
use crate::graph::{all_below, BuildError, MultiGraph, Node, NodeId, Op};

verus! {

/// An operation together with its operands, of an arity fixed by the type.
pub trait OpTrait {
    /// The operator.
    spec fn spec_op(&self) -> Op;

    /// The operands, in order.
    spec fn spec_input_ids(&self) -> Seq<NodeId>;

    /// Number of operands of every record of this type.
    fn arity(&self) -> (n: usize)
        ensures
            n == self.spec_input_ids().len(),
            self.spec_op().admits(n as int),
    ;

    /// The operator.
    fn op(&self) -> (op: Op)
        ensures
            op == self.spec_op(),
    ;

    /// The operands, in order.
    fn input_ids(&self) -> (ids: Vec<NodeId>)
        ensures
            ids@ == self.spec_input_ids(),
    ;
}

/// Multiplication of one node by a constant factor, given by its bit pattern.
#[derive(Debug)]
pub struct ScaleOp {
    pub factor: u64,
    pub input_id: NodeId,
}

/// Sine of one node.
#[derive(Debug)]
pub struct SinOp {
    pub input_id: NodeId,
}

/// Cosine of one node.
#[derive(Debug)]
pub struct CosOp {
    pub input_id: NodeId,
}

/// One node raised to a constant integer power.
#[derive(Debug)]
pub struct PowOp {
    pub exp: i32,
    pub input_id: NodeId,
}

/// Sum of two nodes.
#[derive(Debug)]
pub struct AddOp {
    pub input_ids: [NodeId; 2],
}

/// Product of two nodes.
#[derive(Debug)]
pub struct MulOp {
    pub input_ids: [NodeId; 2],
}

/// The one-element operand list.
fn single(id: NodeId) -> (ids: Vec<NodeId>)
    ensures
        ids@ == seq![id],
{
    let mut ids: Vec<NodeId> = Vec::new();
    ids.push(id);
    assert(ids@ =~= seq![id]);
    ids
}

/// The two-element operand list.
fn pair(input_ids: &[NodeId; 2]) -> (ids: Vec<NodeId>)
    ensures
        ids@ == input_ids@,
{
    let mut ids: Vec<NodeId> = Vec::new();
    ids.push(input_ids[0]);
    ids.push(input_ids[1]);
    assert(ids@ =~= input_ids@);
    ids
}

impl OpTrait for ScaleOp {
    open spec fn spec_op(&self) -> Op {
        Op::Scale(self.factor)
    }

    open spec fn spec_input_ids(&self) -> Seq<NodeId> {
        seq![self.input_id]
    }

    fn arity(&self) -> (n: usize) {
        1
    }

    fn op(&self) -> (op: Op) {
        Op::Scale(self.factor)
    }

    fn input_ids(&self) -> (ids: Vec<NodeId>) {
        single(self.input_id)
    }
}

impl OpTrait for SinOp {
    open spec fn spec_op(&self) -> Op {
        Op::Sin
    }

    open spec fn spec_input_ids(&self) -> Seq<NodeId> {
        seq![self.input_id]
    }

    fn arity(&self) -> (n: usize) {
        1
    }

    fn op(&self) -> (op: Op) {
        Op::Sin
    }

    fn input_ids(&self) -> (ids: Vec<NodeId>) {
        single(self.input_id)
    }
}

impl OpTrait for CosOp {
    open spec fn spec_op(&self) -> Op {
        Op::Cos
    }

    open spec fn spec_input_ids(&self) -> Seq<NodeId> {
        seq![self.input_id]
    }

    fn arity(&self) -> (n: usize) {
        1
    }

    fn op(&self) -> (op: Op) {
        Op::Cos
    }

    fn input_ids(&self) -> (ids: Vec<NodeId>) {
        single(self.input_id)
    }
}

impl OpTrait for PowOp {
    open spec fn spec_op(&self) -> Op {
        Op::Pow(self.exp)
    }

    open spec fn spec_input_ids(&self) -> Seq<NodeId> {
        seq![self.input_id]
    }

    fn arity(&self) -> (n: usize) {
        1
    }

    fn op(&self) -> (op: Op) {
        Op::Pow(self.exp)
    }

    fn input_ids(&self) -> (ids: Vec<NodeId>) {
        single(self.input_id)
    }
}

impl OpTrait for AddOp {
    open spec fn spec_op(&self) -> Op {
        Op::Add
    }

    open spec fn spec_input_ids(&self) -> Seq<NodeId> {
        self.input_ids@
    }

    fn arity(&self) -> (n: usize) {
        2
    }

    fn op(&self) -> (op: Op) {
        Op::Add
    }

    fn input_ids(&self) -> (ids: Vec<NodeId>) {
        pair(&self.input_ids)
    }
}

impl OpTrait for MulOp {
    open spec fn spec_op(&self) -> Op {
        Op::Mul
    }

    open spec fn spec_input_ids(&self) -> Seq<NodeId> {
        self.input_ids@
    }

    fn arity(&self) -> (n: usize) {
        2
    }

    fn op(&self) -> (op: Op) {
        Op::Mul
    }

    fn input_ids(&self) -> (ids: Vec<NodeId>) {
        pair(&self.input_ids)
    }
}

impl MultiGraph {
    /// Appends the operation that `record` describes. The arity is right by
    /// construction, so the only possible rejection is a reference to a node
    /// that does not exist, which leaves the graph as it was.
    pub fn append<T: OpTrait>(&mut self, record: &T) -> (r: Result<NodeId, BuildError>)
        requires
            old(self).wf(),
        ensures
            final(self).wf(),
            match r {
                Ok(id) => {
                    &&& all_below(record.spec_input_ids(), old(self)@.len() as int)
                    &&& id@ == old(self)@.len()
                    &&& final(self)@.len() == old(self)@.len() + 1
                    &&& final(self)@.take(old(self)@.len() as int) == old(self)@
                    &&& match final(self)@.last() {
                        Node::Operation(op, operands) => op == record.spec_op() && operands@
                            == record.spec_input_ids(),
                        _ => false,
                    }
                },
                Err(e) => {
                    &&& e == BuildError::ForwardReference
                    &&& !all_below(record.spec_input_ids(), old(self)@.len() as int)
                    &&& final(self)@ == old(self)@
                },
            },
    {
        let ghost before = self@;
        let arity = record.arity();
        assert(record.spec_op().admits(arity as int));
        let ids = record.input_ids();
        let r = self.operation(record.op(), ids);
        proof {
            if r is Ok {
                assert(self@.take(before.len() as int) =~= before);
            }
        }
        r
    }
}

} // verus!
