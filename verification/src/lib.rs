//! Forward-mode automatic differentiation over a small scalar computation graph.
//!
//! A [`graph::MultiGraph`] records inputs, operations and output markers in an
//! append-only node list. Evaluating it yields, for every output marker, the
//! value of the marked node and its gradient with respect to every declared
//! input.
//!
//! Scalars are IEEE-754 doubles, carried here by their bit patterns. The engine
//! itself performs no rounding arithmetic: it lowers an evaluation to a
//! [`tape::Tape`], a straight-line sequence of primitive scalar instructions,
//! and states exactly which term every slot of that tape stands for. Running a
//! tape is a single loop over its instructions.

pub mod chain;
pub mod eval;
pub mod graph;
pub mod laws;
pub mod network;
pub mod ops;
pub mod rules;
pub mod tape;

