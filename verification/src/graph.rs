//! The graph builder: an append-only list of inputs, operations and output
//! markers in which every reference points backwards.

use vstd::prelude::*;

verus! {

/// Handle of a node: its position in the node list of the graph that issued it.
#[derive(Clone, Copy, Debug, PartialEq, Eq, Hash)]
pub struct NodeId(usize);

impl View for NodeId {
    type V = nat;

    closed spec fn view(&self) -> nat {
        self.0 as nat
    }
}

impl NodeId {
    /// The position this handle names.
    pub fn index(&self) -> (i: usize)
        ensures
            i == self@,
    {
        self.0
    }
}

/// The closed set of scalar operators.
#[derive(Clone, Copy, Debug, PartialEq)]
pub enum Op {
    /// Multiplication by a constant factor, given by its bit pattern.
    Scale(u64),
    /// Sine.
    Sin,
    /// Cosine.
    Cos,
    /// Raising to a constant integer power.
    Pow(i32),
    /// Sum of two or more operands.
    Add,
    /// Product of two or more operands.
    Mul,
}

impl Op {
    /// Whether the operator takes `n` operands: exactly one for the unary
    /// operators, at least two for `Add` and `Mul`.
    pub open spec fn admits(self, n: int) -> bool {
        match self {
            Op::Add => n >= 2,
            Op::Mul => n >= 2,
            _ => n == 1,
        }
    }

    /// Decides [`Op::admits`].
    pub fn accepts_arity(&self, n: usize) -> (ok: bool)
        ensures
            ok == self.admits(n as int),
    {
        match self {
            Op::Add => n >= 2,
            Op::Mul => n >= 2,
            _ => n == 1,
        }
    }
}

/// A node of the graph.
#[derive(Clone, Debug)]
pub enum Node {
    /// A leaf whose value is supplied at evaluation time, by declaration
    /// order. The name is metadata only.
    Input(String),
    /// An operator applied to earlier nodes.
    Operation(Op, Vec<NodeId>),
    /// A marker: the node it names is reported to the caller.
    Output(NodeId),
}

/// Why a construction call was rejected.
#[derive(Clone, Copy, Debug, PartialEq, Eq)]
pub enum BuildError {
    /// The number of operands does not fit the operator.
    ArityMismatch,
    /// A referenced node does not exist yet.
    ForwardReference,
}

/// Every handle in `ids` names a position below `bound`.
pub open spec fn all_below(ids: Seq<NodeId>, bound: int) -> bool {
    forall|k: int| 0 <= k < ids.len() ==> (#[trigger] ids[k])@ < bound
}

/// `node` may stand at position `id`: it refers only to earlier positions,
/// and an operation has as many operands as its operator takes.
pub open spec fn node_ok(node: Node, id: int) -> bool {
    match node {
        Node::Input(_) => true,
        Node::Operation(op, operands) => op.admits(operands@.len() as int) && all_below(
            operands@,
            id,
        ),
        Node::Output(source) => source@ < id,
    }
}

/// Every node of the list may stand where it stands.
pub open spec fn valid(nodes: Seq<Node>) -> bool {
    forall|i: int| 0 <= i < nodes.len() ==> node_ok(#[trigger] nodes[i], i)
}

/// Number of `Input` nodes among the first `upto` nodes.
pub open spec fn inputs_before(nodes: Seq<Node>, upto: int) -> int
    decreases upto,
{
    if upto <= 0 {
        0
    } else {
        inputs_before(nodes, upto - 1) + if nodes[upto - 1] is Input {
            1int
        } else {
            0int
        }
    }
}

/// Number of `Input` nodes in the whole list.
pub open spec fn input_count(nodes: Seq<Node>) -> int {
    inputs_before(nodes, nodes.len() as int)
}

/// The count of inputs among a prefix is bounded by the prefix's length.
pub proof fn lemma_inputs_before_bounds(nodes: Seq<Node>, upto: int)
    requires
        0 <= upto,
    ensures
        0 <= inputs_before(nodes, upto) <= upto,
    decreases upto,
{
    if upto > 0 {
        lemma_inputs_before_bounds(nodes, upto - 1);
    }
}

/// A longer prefix holds at least as many inputs.
pub proof fn lemma_inputs_before_monotone(nodes: Seq<Node>, a: int, b: int)
    requires
        0 <= a <= b,
    ensures
        inputs_before(nodes, a) <= inputs_before(nodes, b),
    decreases b - a,
{
    if a < b {
        lemma_inputs_before_monotone(nodes, a, b - 1);
    }
}

/// The count of inputs among a prefix depends on that prefix only.
pub proof fn lemma_inputs_before_prefix(a: Seq<Node>, b: Seq<Node>, upto: int)
    requires
        0 <= upto <= a.len(),
        upto <= b.len(),
        forall|i: int| 0 <= i < upto ==> a[i] == b[i],
    ensures
        inputs_before(a, upto) == inputs_before(b, upto),
    decreases upto,
{
    if upto > 0 {
        lemma_inputs_before_prefix(a, b, upto - 1);
    }
}

/// A computation graph under construction or ready for evaluation.
#[derive(Debug)]
pub struct MultiGraph {
    nodes: Vec<Node>,
    inputs: usize,
}

impl View for MultiGraph {
    type V = Seq<Node>;

    closed spec fn view(&self) -> Seq<Node> {
        self.nodes@
    }
}

/// Whether every handle in `ids` names a position below `bound`.
fn refers_below(ids: &Vec<NodeId>, bound: usize) -> (ok: bool)
    ensures
        ok == all_below(ids@, bound as int),
{
    let mut k: usize = 0;
    while k < ids.len()
        invariant
            k <= ids.len(),
            forall|j: int| 0 <= j < k ==> (#[trigger] ids@[j])@ < bound,
        decreases ids.len() - k,
    {
        if ids[k].index() >= bound {
            return false;
        }
        k += 1;
    }
    true
}

impl MultiGraph {
    /// The graph's invariant: the node list is valid and the running count of
    /// inputs is right.
    pub closed spec fn wf(&self) -> bool {
        &&& valid(self.nodes@)
        &&& self.inputs == input_count(self.nodes@)
    }

    /// Number of declared inputs.
    pub open spec fn spec_num_inputs(&self) -> int {
        input_count(self@)
    }

    /// The empty graph.
    pub fn new() -> (graph: MultiGraph)
        ensures
            graph.wf(),
            graph@ == Seq::<Node>::empty(),
    {
        MultiGraph { nodes: Vec::new(), inputs: 0 }
    }

    /// Number of nodes.
    pub fn len(&self) -> (n: usize)
        ensures
            n == self@.len(),
    {
        self.nodes.len()
    }

    /// Number of declared inputs.
    pub fn num_inputs(&self) -> (m: usize)
        requires
            self.wf(),
        ensures
            m == input_count(self@),
    {
        self.inputs
    }

    /// The node at position `i`.
    pub fn node(&self, i: usize) -> (node: &Node)
        requires
            i < self@.len(),
        ensures
            *node == self@[i as int],
    {
        &self.nodes[i]
    }

    /// A valid graph lists only nodes that may stand where they stand.
    pub proof fn lemma_wf_valid(&self)
        requires
            self.wf(),
        ensures
            valid(self@),
    {
    }

    /// Declares an input. Its value is the next unclaimed element of the
    /// vector supplied at evaluation time.
    pub fn input(&mut self, name: String) -> (id: NodeId)
        requires
            old(self).wf(),
        ensures
            final(self).wf(),
            id@ == old(self)@.len(),
            final(self)@ == old(self)@.push(Node::Input(name)),
            input_count(final(self)@) == input_count(old(self)@) + 1,
    {
        let id = NodeId(self.nodes.len());
        proof {
            lemma_inputs_before_bounds(self.nodes@, self.nodes@.len() as int);
            lemma_inputs_before_prefix(
                self.nodes@,
                self.nodes@.push(Node::Input(name)),
                self.nodes@.len() as int,
            );
        }
        self.nodes.push(Node::Input(name));
        let grown = self.nodes.len();
        assert(self.inputs < grown);
        self.inputs = self.inputs + 1;
        id
    }

    /// Appends an operation on earlier nodes.
    ///
    /// Rejected, leaving the graph as it was, when the number of operands
    /// does not fit the operator, or else when an operand does not exist yet.
    pub fn operation(&mut self, op: Op, operands: Vec<NodeId>) -> (r: Result<NodeId, BuildError>)
        requires
            old(self).wf(),
        ensures
            final(self).wf(),
            match r {
                Ok(id) => {
                    &&& op.admits(operands@.len() as int)
                    &&& all_below(operands@, old(self)@.len() as int)
                    &&& id@ == old(self)@.len()
                    &&& final(self)@ == old(self)@.push(Node::Operation(op, operands))
                },
                Err(BuildError::ArityMismatch) => {
                    &&& !op.admits(operands@.len() as int)
                    &&& final(self)@ == old(self)@
                },
                Err(BuildError::ForwardReference) => {
                    &&& op.admits(operands@.len() as int)
                    &&& !all_below(operands@, old(self)@.len() as int)
                    &&& final(self)@ == old(self)@
                },
            },
            input_count(final(self)@) == input_count(old(self)@),
    {
        if !op.accepts_arity(operands.len()) {
            return Err(BuildError::ArityMismatch);
        }
        if !refers_below(&operands, self.nodes.len()) {
            return Err(BuildError::ForwardReference);
        }
        let id = NodeId(self.nodes.len());
        proof {
            lemma_inputs_before_prefix(
                self.nodes@,
                self.nodes@.push(Node::Operation(op, operands)),
                self.nodes@.len() as int,
            );
        }
        self.nodes.push(Node::Operation(op, operands));
        Ok(id)
    }

    /// Marks an existing node as an output. The marker is a node of its own.
    ///
    /// Rejected, leaving the graph as it was, when `node` does not exist.
    pub fn output(&mut self, node: NodeId) -> (r: Result<NodeId, BuildError>)
        requires
            old(self).wf(),
        ensures
            final(self).wf(),
            match r {
                Ok(id) => {
                    &&& node@ < old(self)@.len()
                    &&& id@ == old(self)@.len()
                    &&& final(self)@ == old(self)@.push(Node::Output(node))
                },
                Err(e) => {
                    &&& e == BuildError::ForwardReference
                    &&& node@ >= old(self)@.len()
                    &&& final(self)@ == old(self)@
                },
            },
            input_count(final(self)@) == input_count(old(self)@),
    {
        if node.index() >= self.nodes.len() {
            return Err(BuildError::ForwardReference);
        }
        let id = NodeId(self.nodes.len());
        proof {
            lemma_inputs_before_prefix(
                self.nodes@,
                self.nodes@.push(Node::Output(node)),
                self.nodes@.len() as int,
            );
        }
        self.nodes.push(Node::Output(node));
        Ok(id)
    }
}

} // verus!
