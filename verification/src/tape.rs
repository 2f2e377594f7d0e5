//! Terms over scalar primitives, and tapes that compute them.

use vstd::prelude::*;

verus! {

/// Bit pattern of the double `0.0`.
pub const ZERO: u64 = 0;

/// Bit pattern of the double `1.0`.
pub const ONE: u64 = 0x3FF0_0000_0000_0000;

/// A term over the scalar primitives: what a computed scalar *is*, as a tree.
///
/// Two slots that stand for equal terms hold the same scalar under any
/// deterministic interpretation of the primitives.
pub enum Expr {
    /// The double with the given bit pattern.
    Lit(u64),
    /// The given integer, converted to a double.
    Int(i32),
    /// Negation.
    Neg(Box<Expr>),
    /// Sine.
    Sin(Box<Expr>),
    /// Cosine.
    Cos(Box<Expr>),
    /// Integer power.
    Powi(Box<Expr>, i64),
    /// Sum of two terms, left operand first.
    Add(Box<Expr>, Box<Expr>),
    /// Product of two terms, left operand first.
    Mul(Box<Expr>, Box<Expr>),
}

/// One primitive instruction of a tape. Operands name earlier slots.
#[derive(Clone, Copy, Debug, PartialEq, Eq)]
pub enum Instr {
    /// Load the double with the given bit pattern.
    Lit(u64),
    /// Load the given integer as a double.
    Int(i32),
    /// Negate a slot.
    Neg(usize),
    /// Sine of a slot.
    Sin(usize),
    /// Cosine of a slot.
    Cos(usize),
    /// A slot raised to an integer power.
    Powi(usize, i64),
    /// Sum of two slots.
    Add(usize, usize),
    /// Product of two slots.
    Mul(usize, usize),
}

impl Instr {
    /// Every slot this instruction reads lies strictly below `bound`.
    pub open spec fn reads_below(self, bound: int) -> bool {
        match self {
            Instr::Lit(_) => true,
            Instr::Int(_) => true,
            Instr::Neg(a) => a < bound,
            Instr::Sin(a) => a < bound,
            Instr::Cos(a) => a < bound,
            Instr::Powi(a, _) => a < bound,
            Instr::Add(a, b) => a < bound && b < bound,
            Instr::Mul(a, b) => a < bound && b < bound,
        }
    }
}

/// Every instruction reads only slots before its own.
pub open spec fn well_formed(instrs: Seq<Instr>) -> bool {
    forall|s: int| 0 <= s < instrs.len() ==> (#[trigger] instrs[s]).reads_below(s)
}

/// The term that slot `slot` of `instrs` computes.
pub open spec fn denote(instrs: Seq<Instr>, slot: int) -> Expr
    decreases slot,
{
    if 0 <= slot < instrs.len() && instrs[slot].reads_below(slot) {
        match instrs[slot] {
            Instr::Lit(b) => Expr::Lit(b),
            Instr::Int(n) => Expr::Int(n),
            Instr::Neg(a) => Expr::Neg(Box::new(denote(instrs, a as int))),
            Instr::Sin(a) => Expr::Sin(Box::new(denote(instrs, a as int))),
            Instr::Cos(a) => Expr::Cos(Box::new(denote(instrs, a as int))),
            Instr::Powi(a, n) => Expr::Powi(Box::new(denote(instrs, a as int)), n),
            Instr::Add(a, b) => Expr::Add(
                Box::new(denote(instrs, a as int)),
                Box::new(denote(instrs, b as int)),
            ),
            Instr::Mul(a, b) => Expr::Mul(
                Box::new(denote(instrs, a as int)),
                Box::new(denote(instrs, b as int)),
            ),
        }
    } else {
        Expr::Lit(ZERO)
    }
}

/// The term that `instr` computes when its operands are slots of `instrs`.
pub open spec fn result_of(instr: Instr, instrs: Seq<Instr>) -> Expr {
    match instr {
        Instr::Lit(b) => Expr::Lit(b),
        Instr::Int(n) => Expr::Int(n),
        Instr::Neg(a) => Expr::Neg(Box::new(denote(instrs, a as int))),
        Instr::Sin(a) => Expr::Sin(Box::new(denote(instrs, a as int))),
        Instr::Cos(a) => Expr::Cos(Box::new(denote(instrs, a as int))),
        Instr::Powi(a, n) => Expr::Powi(Box::new(denote(instrs, a as int)), n),
        Instr::Add(a, b) => Expr::Add(
            Box::new(denote(instrs, a as int)),
            Box::new(denote(instrs, b as int)),
        ),
        Instr::Mul(a, b) => Expr::Mul(
            Box::new(denote(instrs, a as int)),
            Box::new(denote(instrs, b as int)),
        ),
    }
}

/// `longer` starts with all of `shorter`.
pub open spec fn extends(longer: Seq<Instr>, shorter: Seq<Instr>) -> bool {
    &&& shorter.len() <= longer.len()
    &&& forall|s: int| 0 <= s < shorter.len() ==> longer[s] == shorter[s]
}

/// Appending instructions never changes what an existing slot computes.
pub proof fn lemma_denote_stable(shorter: Seq<Instr>, longer: Seq<Instr>, slot: int)
    requires
        extends(longer, shorter),
        0 <= slot < shorter.len(),
    ensures
        denote(longer, slot) == denote(shorter, slot),
    decreases slot,
{
    if shorter[slot].reads_below(slot) {
        match shorter[slot] {
            Instr::Lit(_) => {},
            Instr::Int(_) => {},
            Instr::Neg(a) => lemma_denote_stable(shorter, longer, a as int),
            Instr::Sin(a) => lemma_denote_stable(shorter, longer, a as int),
            Instr::Cos(a) => lemma_denote_stable(shorter, longer, a as int),
            Instr::Powi(a, _) => lemma_denote_stable(shorter, longer, a as int),
            Instr::Add(a, b) => {
                lemma_denote_stable(shorter, longer, a as int);
                lemma_denote_stable(shorter, longer, b as int);
            },
            Instr::Mul(a, b) => {
                lemma_denote_stable(shorter, longer, a as int);
                lemma_denote_stable(shorter, longer, b as int);
            },
        }
    }
}

/// A deterministic arithmetic on doubles, each given by its bit pattern: one
/// function per primitive.
pub struct Arithmetic {
    pub from_int: spec_fn(i32) -> u64,
    pub neg: spec_fn(u64) -> u64,
    pub sin: spec_fn(u64) -> u64,
    pub cos: spec_fn(u64) -> u64,
    pub powi: spec_fn(u64, i64) -> u64,
    pub add: spec_fn(u64, u64) -> u64,
    pub mul: spec_fn(u64, u64) -> u64,
}

/// The scalar that a term stands for under a given arithmetic.
pub open spec fn eval_term(e: Expr, arith: Arithmetic) -> u64
    decreases e,
{
    match e {
        Expr::Lit(b) => b,
        Expr::Int(n) => (arith.from_int)(n),
        Expr::Neg(x) => (arith.neg)(eval_term(*x, arith)),
        Expr::Sin(x) => (arith.sin)(eval_term(*x, arith)),
        Expr::Cos(x) => (arith.cos)(eval_term(*x, arith)),
        Expr::Powi(x, n) => (arith.powi)(eval_term(*x, arith), n),
        Expr::Add(x, y) => (arith.add)(eval_term(*x, arith), eval_term(*y, arith)),
        Expr::Mul(x, y) => (arith.mul)(eval_term(*x, arith), eval_term(*y, arith)),
    }
}

/// What one instruction computes from the slots filled so far.
pub open spec fn step(instr: Instr, slots: Seq<u64>, arith: Arithmetic) -> u64 {
    match instr {
        Instr::Lit(b) => b,
        Instr::Int(n) => (arith.from_int)(n),
        Instr::Neg(a) => (arith.neg)(slots[a as int]),
        Instr::Sin(a) => (arith.sin)(slots[a as int]),
        Instr::Cos(a) => (arith.cos)(slots[a as int]),
        Instr::Powi(a, n) => (arith.powi)(slots[a as int], n),
        Instr::Add(a, b) => (arith.add)(slots[a as int], slots[b as int]),
        Instr::Mul(a, b) => (arith.mul)(slots[a as int], slots[b as int]),
    }
}

/// The slots after running the first `upto` instructions in order.
pub open spec fn run(instrs: Seq<Instr>, arith: Arithmetic, upto: int) -> Seq<u64>
    decreases upto,
{
    if upto <= 0 {
        Seq::empty()
    } else {
        let slots = run(instrs, arith, upto - 1);
        slots.push(step(instrs[upto - 1], slots, arith))
    }
}

/// One pass over a well-formed tape, first instruction to last, leaves in
/// every slot the scalar that the slot's term stands for.
pub proof fn lemma_run_computes_terms(instrs: Seq<Instr>, arith: Arithmetic, upto: int)
    requires
        well_formed(instrs),
        0 <= upto <= instrs.len(),
    ensures
        run(instrs, arith, upto).len() == upto,
        forall|s: int|
            0 <= s < upto ==> #[trigger] run(instrs, arith, upto)[s] == eval_term(
                denote(instrs, s),
                arith,
            ),
    decreases upto,
{
    if upto > 0 {
        lemma_run_computes_terms(instrs, arith, upto - 1);
        let slots = run(instrs, arith, upto - 1);
        let last = upto - 1;
        assert(instrs[last].reads_below(last));
        assert(step(instrs[last], slots, arith) == eval_term(denote(instrs, last), arith));
        assert forall|s: int| 0 <= s < upto implies #[trigger] run(instrs, arith, upto)[s]
            == eval_term(denote(instrs, s), arith) by {
            if s < last {
                assert(run(instrs, arith, upto)[s] == slots[s]);
            }
        }
    }
}

/// A straight-line program over scalar slots, grown by appending.
#[derive(Debug)]
pub struct Tape {
    instrs: Vec<Instr>,
}

impl View for Tape {
    type V = Seq<Instr>;

    closed spec fn view(&self) -> Seq<Instr> {
        self.instrs@
    }
}

impl Tape {
    /// The empty tape.
    pub fn new() -> (tape: Tape)
        ensures
            tape@ == Seq::<Instr>::empty(),
    {
        Tape { instrs: Vec::new() }
    }

    /// Empties the tape, keeping its storage.
    pub fn clear(&mut self)
        ensures
            final(self)@ == Seq::<Instr>::empty(),
    {
        self.instrs.clear();
    }

    /// Number of slots.
    pub fn len(&self) -> (n: usize)
        ensures
            n == self@.len(),
    {
        self.instrs.len()
    }

    /// The instruction that fills slot `slot`.
    pub fn instr(&self, slot: usize) -> (instr: Instr)
        requires
            slot < self@.len(),
        ensures
            instr == self@[slot as int],
    {
        self.instrs[slot]
    }

    /// Appends `instr` and returns the slot it fills. Earlier slots keep
    /// their meaning; the new slot means what `instr` says of its operands.
    pub fn push(&mut self, instr: Instr) -> (slot: usize)
        requires
            well_formed(old(self)@),
            instr.reads_below(old(self)@.len() as int),
        ensures
            final(self)@ == old(self)@.push(instr),
            slot == old(self)@.len(),
            well_formed(final(self)@),
            extends(final(self)@, old(self)@),
            denote(final(self)@, slot as int) == result_of(instr, old(self)@),
            forall|s: int|
                0 <= s < old(self)@.len() ==> #[trigger] denote(final(self)@, s) == denote(
                    old(self)@,
                    s,
                ),
    {
        let slot = self.instrs.len();
        self.instrs.push(instr);
        proof {
            assert forall|s: int| 0 <= s < old(self)@.len() implies #[trigger] denote(self@, s)
                == denote(old(self)@, s) by {
                lemma_denote_stable(old(self)@, self@, s);
            }
            assert(self@[slot as int] == instr);
            assert(denote(self@, slot as int) == result_of(instr, self@));
        }
        slot
    }
}

} // verus!
