//! Layer descriptors of a feed-forward network and the widths of the
//! buffers that a stack of layers works in.

use vstd::prelude::*;

verus! {

/// What a layer is, with the sizes that describe it.
#[derive(Clone, Copy, Debug, PartialEq, Eq)]
pub enum LayerKind {
    /// Fully connected, producing `output` values.
    Dense { output: usize },
    /// Rectifier over `width` values.
    ReLU { width: usize },
    /// Logistic function over `width` values.
    Sigmoid { width: usize },
    /// Convolution.
    Conv { out_channels: usize, kernel: usize, stride: usize, padding: usize },
}

/// A layer that can say how many values it takes and what it is.
pub trait Layerable {
    /// Number of values the layer takes.
    fn input(&self) -> usize;

    /// What the layer is.
    fn kind(&self) -> LayerKind;
}

/// A layer that needs no parameters to come into being.
pub trait LayerInit: Sized {
    /// The layer in its initial state.
    fn init() -> Self;
}

/// Rectifier over `N` values.
#[derive(Debug)]
pub struct ReLU<const N: usize>;

/// Logistic function over `N` values.
#[derive(Debug)]
pub struct Sigmoid<const N: usize>;

impl<const N: usize> ReLU<N> {
    /// The rectifier layer.
    pub fn init() -> (layer: Self)
        ensures
            layer == ReLU::<N>,
    {
        ReLU
    }
}

impl<const N: usize> Sigmoid<N> {
    /// The logistic layer.
    pub fn init() -> (layer: Self)
        ensures
            layer == Sigmoid::<N>,
    {
        Sigmoid
    }
}

impl<const N: usize> LayerInit for ReLU<N> {
    fn init() -> (layer: Self) {
        ReLU
    }
}

impl<const N: usize> LayerInit for Sigmoid<N> {
    fn init() -> (layer: Self) {
        Sigmoid
    }
}

impl<const N: usize> Layerable for ReLU<N> {
    fn input(&self) -> (n: usize)
        ensures
            n == N,
    {
        N
    }

    fn kind(&self) -> (kind: LayerKind)
        ensures
            kind == (LayerKind::ReLU { width: N }),
    {
        LayerKind::ReLU { width: N }
    }
}

impl<const N: usize> Layerable for Sigmoid<N> {
    fn input(&self) -> (n: usize)
        ensures
            n == N,
    {
        N
    }

    fn kind(&self) -> (kind: LayerKind)
        ensures
            kind == (LayerKind::Sigmoid { width: N }),
    {
        LayerKind::Sigmoid { width: N }
    }
}

impl LayerKind {
    /// Number of values the layer hands on when it is given `input` values:
    /// a dense layer sets the width, every other layer keeps it.
    pub open spec fn width_after(self, input: int) -> int {
        match self {
            LayerKind::Dense { output } => output as int,
            _ => input,
        }
    }

    /// Computes [`LayerKind::width_after`].
    pub fn output_width(&self, input: usize) -> (width: usize)
        ensures
            width == self.width_after(input as int),
    {
        match self {
            LayerKind::Dense { output } => *output,
            _ => input,
        }
    }
}

/// The width of the data after the first `upto` layers of a stack fed with
/// `input` values.
pub open spec fn width_upto(layers: Seq<LayerKind>, input: int, upto: int) -> int
    decreases upto,
{
    if upto <= 0 {
        input
    } else {
        layers[upto - 1].width_after(width_upto(layers, input, upto - 1))
    }
}

/// The greatest width the data has at any point up to the first `upto`
/// layers, the input included.
pub open spec fn widest_upto(layers: Seq<LayerKind>, input: int, upto: int) -> int
    decreases upto,
{
    if upto <= 0 {
        input
    } else {
        let before = widest_upto(layers, input, upto - 1);
        let here = width_upto(layers, input, upto);
        if here > before {
            here
        } else {
            before
        }
    }
}

/// The output width of a stack of layers fed with `input` values, and the
/// width of the widest buffer it needs.
pub fn buffer_widths(input: usize, layers: &Vec<LayerKind>) -> (widths: (usize, usize))
    ensures
        widths.0 == width_upto(layers@, input as int, layers@.len() as int),
        widths.1 == widest_upto(layers@, input as int, layers@.len() as int),
{
    let mut current: usize = input;
    let mut widest: usize = input;
    let mut k: usize = 0;
    while k < layers.len()
        invariant
            k <= layers.len(),
            current == width_upto(layers@, input as int, k as int),
            widest == widest_upto(layers@, input as int, k as int),
        decreases layers.len() - k,
    {
        current = layers[k].output_width(current);
        if current > widest {
            widest = current;
        }
        k += 1;
    }
    (current, widest)
}

} // verus!
