//! Each operator's value rule and partial-derivative rule, as terms and as
//! the tape instructions that compute them.

use vstd::prelude::*;
use crate::graph::Op;
use crate::tape::{denote, extends, well_formed, Expr, Instr, Tape, ONE, ZERO};

verus! {

/// The terms that the slots `xs` of `instrs` compute, in order.
pub open spec fn terms_at(instrs: Seq<Instr>, xs: Seq<usize>) -> Seq<Expr> {
    Seq::new(xs.len(), |k: int| denote(instrs, xs[k] as int))
}

/// `x0 + x1 + ... ` over the first `upto` terms, associated to the left.
/// The empty sum is zero.
pub open spec fn sum_upto(xs: Seq<Expr>, upto: int) -> Expr
    decreases upto,
{
    if upto <= 0 {
        Expr::Lit(ZERO)
    } else if upto == 1 {
        xs[0]
    } else {
        Expr::Add(Box::new(sum_upto(xs, upto - 1)), Box::new(xs[upto - 1]))
    }
}

/// The product, associated to the left, of those among the first `upto`
/// terms whose position is not `skip`; `None` when there is no such term.
pub open spec fn product_skipping(xs: Seq<Expr>, skip: int, upto: int) -> Option<Expr>
    decreases upto,
{
    if upto <= 0 {
        None
    } else if upto - 1 == skip {
        product_skipping(xs, skip, upto - 1)
    } else {
        match product_skipping(xs, skip, upto - 1) {
            None => Some(xs[upto - 1]),
            Some(p) => Some(Expr::Mul(Box::new(p), Box::new(xs[upto - 1]))),
        }
    }
}

/// The product of all terms but the one at `skip`. The empty product is one.
pub open spec fn product_except(xs: Seq<Expr>, skip: int) -> Expr {
    match product_skipping(xs, skip, xs.len() as int) {
        None => Expr::Lit(ONE),
        Some(p) => p,
    }
}

/// The product of all terms.
pub open spec fn product_of(xs: Seq<Expr>) -> Expr {
    product_except(xs, xs.len() as int)
}

/// The chain rule over the first `upto` operands: starting from zero, add
/// `tangent * partial` for each operand in turn.
pub open spec fn chain_sum(tangents: Seq<Expr>, partials: Seq<Expr>, upto: int) -> Expr
    decreases upto,
{
    if upto <= 0 {
        Expr::Lit(ZERO)
    } else {
        Expr::Add(
            Box::new(chain_sum(tangents, partials, upto - 1)),
            Box::new(Expr::Mul(Box::new(tangents[upto - 1]), Box::new(partials[upto - 1]))),
        )
    }
}

impl Op {
    /// The operator's value on the operand values `xs`.
    pub open spec fn value(self, xs: Seq<Expr>) -> Expr {
        match self {
            Op::Scale(k) => Expr::Mul(Box::new(xs[0]), Box::new(Expr::Lit(k))),
            Op::Sin => Expr::Sin(Box::new(xs[0])),
            Op::Cos => Expr::Cos(Box::new(xs[0])),
            Op::Pow(n) => Expr::Powi(Box::new(xs[0]), n as i64),
            Op::Add => sum_upto(xs, xs.len() as int),
            Op::Mul => product_of(xs),
        }
    }

    /// The operator's partial derivative with respect to operand `i`, on the
    /// operand values `xs`.
    pub open spec fn partial(self, xs: Seq<Expr>, i: int) -> Expr {
        match self {
            Op::Scale(k) => Expr::Lit(k),
            Op::Sin => Expr::Cos(Box::new(xs[0])),
            Op::Cos => Expr::Neg(Box::new(Expr::Sin(Box::new(xs[0])))),
            Op::Pow(n) => Expr::Mul(
                Box::new(Expr::Int(n)),
                Box::new(Expr::Powi(Box::new(xs[0]), (n - 1) as i64)),
            ),
            Op::Add => Expr::Lit(ONE),
            Op::Mul => product_except(xs, i),
        }
    }

    /// The partial derivatives with respect to each of the operands.
    pub open spec fn partials(self, xs: Seq<Expr>) -> Seq<Expr> {
        Seq::new(xs.len(), |i: int| self.partial(xs, i))
    }
}

/// `after` is a well-formed tape that starts with `before` and in which
/// every slot of `before` computes what it computed there.
pub open spec fn grown(after: Seq<Instr>, before: Seq<Instr>) -> bool {
    &&& well_formed(after)
    &&& extends(after, before)
    &&& forall|s: int| 0 <= s < before.len() ==> #[trigger] denote(after, s) == denote(before, s)
}

/// All of `xs` are slots of a tape of length `len`.
pub open spec fn slots_below(xs: Seq<usize>, len: int) -> bool {
    forall|k: int| 0 <= k < xs.len() ==> #[trigger] xs[k] < len
}

/// Appends the sum of the slots `xs`.
pub fn emit_sum(tape: &mut Tape, xs: &Vec<usize>) -> (slot: usize)
    requires
        well_formed(old(tape)@),
        slots_below(xs@, old(tape)@.len() as int),
    ensures
        grown(final(tape)@, old(tape)@),
        slot < final(tape)@.len(),
        denote(final(tape)@, slot as int) == sum_upto(
            terms_at(old(tape)@, xs@),
            xs@.len() as int,
        ),
{
    let ghost start = tape@;
    let ghost terms = terms_at(start, xs@);
    if xs.len() == 0 {
        return tape.push(Instr::Lit(ZERO));
    }
    let mut acc: usize = xs[0];
    let mut k: usize = 1;
    while k < xs.len()
        invariant
            1 <= k <= xs.len(),
            grown(tape@, start),
            well_formed(start),
            slots_below(xs@, start.len() as int),
            terms == terms_at(start, xs@),
            acc < tape@.len(),
            denote(tape@, acc as int) == sum_upto(terms, k as int),
        decreases xs.len() - k,
    {
        let x = xs[k];
        assert(denote(tape@, x as int) == terms[k as int]);
        acc = tape.push(Instr::Add(acc, x));
        k += 1;
    }
    acc
}

/// Appends the product of the slots `xs`, leaving out position `skip`.
pub fn emit_product(tape: &mut Tape, xs: &Vec<usize>, skip: usize) -> (slot: usize)
    requires
        well_formed(old(tape)@),
        slots_below(xs@, old(tape)@.len() as int),
    ensures
        grown(final(tape)@, old(tape)@),
        slot < final(tape)@.len(),
        denote(final(tape)@, slot as int) == product_except(
            terms_at(old(tape)@, xs@),
            skip as int,
        ),
{
    let ghost start = tape@;
    let ghost terms = terms_at(start, xs@);
    let mut acc: Option<usize> = None;
    let mut k: usize = 0;
    while k < xs.len()
        invariant
            k <= xs.len(),
            grown(tape@, start),
            well_formed(start),
            slots_below(xs@, start.len() as int),
            terms == terms_at(start, xs@),
            match acc {
                None => product_skipping(terms, skip as int, k as int) is None,
                Some(a) => a < tape@.len() && product_skipping(terms, skip as int, k as int)
                    == Some(denote(tape@, a as int)),
            },
        decreases xs.len() - k,
    {
        if k != skip {
            let x = xs[k];
            assert(denote(tape@, x as int) == terms[k as int]);
            acc =
            match acc {
                None => Some(x),
                Some(a) => Some(tape.push(Instr::Mul(a, x))),
            };
        }
        k += 1;
    }
    match acc {
        Some(a) => a,
        None => tape.push(Instr::Lit(ONE)),
    }
}

/// Appends the chain-rule sum of the tangent slots `ts` against the partial
/// slots `ps`.
pub fn emit_chain(tape: &mut Tape, ts: &Vec<usize>, ps: &Vec<usize>) -> (slot: usize)
    requires
        well_formed(old(tape)@),
        ts@.len() == ps@.len(),
        slots_below(ts@, old(tape)@.len() as int),
        slots_below(ps@, old(tape)@.len() as int),
    ensures
        grown(final(tape)@, old(tape)@),
        slot < final(tape)@.len(),
        denote(final(tape)@, slot as int) == chain_sum(
            terms_at(old(tape)@, ts@),
            terms_at(old(tape)@, ps@),
            ts@.len() as int,
        ),
{
    let ghost start = tape@;
    let ghost tangents = terms_at(start, ts@);
    let ghost partials = terms_at(start, ps@);
    let mut total: usize = tape.push(Instr::Lit(ZERO));
    let mut k: usize = 0;
    while k < ts.len()
        invariant
            k <= ts.len(),
            ts@.len() == ps@.len(),
            grown(tape@, start),
            well_formed(start),
            slots_below(ts@, start.len() as int),
            slots_below(ps@, start.len() as int),
            tangents == terms_at(start, ts@),
            partials == terms_at(start, ps@),
            total < tape@.len(),
            denote(tape@, total as int) == chain_sum(tangents, partials, k as int),
        decreases ts.len() - k,
    {
        let t = ts[k];
        let p = ps[k];
        assert(denote(tape@, t as int) == tangents[k as int]);
        assert(denote(tape@, p as int) == partials[k as int]);
        let product = tape.push(Instr::Mul(t, p));
        total = tape.push(Instr::Add(total, product));
        k += 1;
    }
    total
}

/// Appends, for every operand, the operator's partial derivative with
/// respect to it, and returns their slots in operand order.
pub fn emit_partials(tape: &mut Tape, op: Op, xs: &Vec<usize>) -> (ps: Vec<usize>)
    requires
        well_formed(old(tape)@),
        slots_below(xs@, old(tape)@.len() as int),
        xs@.len() >= 1,
    ensures
        grown(final(tape)@, old(tape)@),
        ps@.len() == xs@.len(),
        slots_below(ps@, final(tape)@.len() as int),
        terms_at(final(tape)@, ps@) == op.partials(terms_at(old(tape)@, xs@)),
{
    let ghost start = tape@;
    let ghost terms = terms_at(start, xs@);
    let mut ps: Vec<usize> = Vec::new();
    let mut k: usize = 0;
    while k < xs.len()
        invariant
            k <= xs.len(),
            xs@.len() >= 1,
            ps@.len() == k,
            grown(tape@, start),
            well_formed(start),
            slots_below(xs@, start.len() as int),
            terms == terms_at(start, xs@),
            forall|j: int|
                0 <= j < k ==> (#[trigger] ps@[j]) < tape@.len() && denote(tape@, ps@[j] as int)
                    == op.partial(terms, j),
        decreases xs.len() - k,
    {
        assert(terms_at(tape@, xs@) =~= terms);
        let p = emit_partial(tape, op, xs, k);
        ps.push(p);
        k += 1;
    }
    assert(terms_at(tape@, ps@) =~= op.partials(terms));
    ps
}

/// Appends the instructions of the operator's value rule on the operand
/// slots `xs`, and returns the slot that holds the value.
pub fn emit_value(tape: &mut Tape, op: Op, xs: &Vec<usize>) -> (slot: usize)
    requires
        well_formed(old(tape)@),
        slots_below(xs@, old(tape)@.len() as int),
        xs@.len() >= 1,
    ensures
        grown(final(tape)@, old(tape)@),
        slot < final(tape)@.len(),
        denote(final(tape)@, slot as int) == op.value(terms_at(old(tape)@, xs@)),
{
    let x = xs[0];
    assert(denote(tape@, x as int) == terms_at(tape@, xs@)[0]);
    match op {
        Op::Scale(k) => {
            let c = tape.push(Instr::Lit(k));
            tape.push(Instr::Mul(x, c))
        },
        Op::Sin => tape.push(Instr::Sin(x)),
        Op::Cos => tape.push(Instr::Cos(x)),
        Op::Pow(n) => tape.push(Instr::Powi(x, n as i64)),
        Op::Add => emit_sum(tape, xs),
        Op::Mul => emit_product(tape, xs, xs.len()),
    }
}

/// Appends the instructions of the operator's partial derivative with
/// respect to operand `i` on the operand slots `xs`, and returns the slot
/// that holds it.
pub fn emit_partial(tape: &mut Tape, op: Op, xs: &Vec<usize>, i: usize) -> (slot: usize)
    requires
        well_formed(old(tape)@),
        slots_below(xs@, old(tape)@.len() as int),
        xs@.len() >= 1,
    ensures
        grown(final(tape)@, old(tape)@),
        slot < final(tape)@.len(),
        denote(final(tape)@, slot as int) == op.partial(terms_at(old(tape)@, xs@), i as int),
{
    let x = xs[0];
    assert(denote(tape@, x as int) == terms_at(tape@, xs@)[0]);
    match op {
        Op::Scale(k) => tape.push(Instr::Lit(k)),
        Op::Sin => tape.push(Instr::Cos(x)),
        Op::Cos => {
            let s = tape.push(Instr::Sin(x));
            tape.push(Instr::Neg(s))
        },
        Op::Pow(n) => {
            let c = tape.push(Instr::Int(n));
            let p = tape.push(Instr::Powi(x, n as i64 - 1));
            tape.push(Instr::Mul(c, p))
        },
        Op::Add => tape.push(Instr::Lit(ONE)),
        Op::Mul => emit_product(tape, xs, i),
    }
}

} // verus!
