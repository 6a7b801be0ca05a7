//! The arithmetic unit.
//!
//! Operations that round are not evaluated by this crate. Each of them is
//! handed, as a [`Prim`], to a unit that the caller supplies: any
//! `Fn(Prim) -> Binary32` that accepts every primitive. Contracts then say
//! which primitives were applied to which operands. They do so with an
//! [`Expr`], the formula that was evaluated, and the relation [`yields`]
//! between a unit, a formula and a value. A unit need not answer the same
//! primitive twice alike; where it does, [`lemma_yields_eval`] turns the
//! relation into a value.
use vstd::prelude::*;
use crate::binary32::Binary32;

verus! {

/// The primitives with two operands.
#[derive(Clone, Copy, Debug, PartialEq, Eq)]
pub enum BinOp {
    /// `a + b`
    Add,
    /// `a - b`
    Sub,
    /// `a * b`
    Mul,
    /// `a / b`
    Div,
    /// `a` raised to the power `b`
    Powf,
    /// The angle of the point with ordinate `a` and abscissa `b`.
    Atan2,
}

/// The primitives with one operand.
#[derive(Clone, Copy, Debug, PartialEq, Eq)]
pub enum UnOp {
    /// Cosine of an angle in radians.
    Cos,
    /// Sine of an angle in radians.
    Sin,
}

/// One request to the unit: an operation and its operands, in order.
#[derive(Clone, Copy, Debug)]
pub enum Prim {
    Binary(BinOp, Binary32, Binary32),
    Unary(UnOp, Binary32),
}

/// A formula over single-precision values.
///
/// `Neg` is the exact sign flip of [`Binary32::neg`]; `Binary` and `Unary`
/// are evaluated by the unit.
pub enum Expr {
    Const(Binary32),
    Neg(Box<Expr>),
    Binary(BinOp, Box<Expr>, Box<Expr>),
    Unary(UnOp, Box<Expr>),
}

impl Expr {
    /// `-self`
    pub open spec fn neg(self) -> Expr {
        Expr::Neg(Box::new(self))
    }

    /// `self + rhs`
    pub open spec fn plus(self, rhs: Expr) -> Expr {
        Expr::Binary(BinOp::Add, Box::new(self), Box::new(rhs))
    }

    /// `self - rhs`
    pub open spec fn minus(self, rhs: Expr) -> Expr {
        Expr::Binary(BinOp::Sub, Box::new(self), Box::new(rhs))
    }

    /// `self * rhs`
    pub open spec fn times(self, rhs: Expr) -> Expr {
        Expr::Binary(BinOp::Mul, Box::new(self), Box::new(rhs))
    }

    /// `self / rhs`
    pub open spec fn over(self, rhs: Expr) -> Expr {
        Expr::Binary(BinOp::Div, Box::new(self), Box::new(rhs))
    }

    /// `self` raised to the power `exponent`
    pub open spec fn powf(self, exponent: Expr) -> Expr {
        Expr::Binary(BinOp::Powf, Box::new(self), Box::new(exponent))
    }

    /// The angle of the point with ordinate `self` and abscissa `x`.
    pub open spec fn atan2(self, x: Expr) -> Expr {
        Expr::Binary(BinOp::Atan2, Box::new(self), Box::new(x))
    }

    /// Cosine of `self`.
    pub open spec fn cos(self) -> Expr {
        Expr::Unary(UnOp::Cos, Box::new(self))
    }

    /// Sine of `self`.
    pub open spec fn sin(self) -> Expr {
        Expr::Unary(UnOp::Sin, Box::new(self))
    }
}

/// The formula that is the value `x`.
pub open spec fn val(x: Binary32) -> Expr {
    Expr::Const(x)
}

/// The formula that is the value with the encoding `bits`.
pub open spec fn lit(bits: u32) -> Expr {
    Expr::Const(Binary32 { bits })
}

/// The unit accepts every primitive.
pub open spec fn total<F: Fn(Prim) -> Binary32>(unit: &F) -> bool {
    forall|p: Prim| call_requires(unit, (p,))
}

/// `out` is a value that the unit may give for one primitive.
pub open spec fn gives<F: Fn(Prim) -> Binary32>(unit: &F, p: Prim, out: Binary32) -> bool {
    call_ensures(unit, (p,), out)
}

/// `out` is a value that evaluating the formula `e` on the unit may give:
/// the operands of each node are evaluated first, and the node's primitive
/// is then applied to what they gave.
pub open spec fn yields<F: Fn(Prim) -> Binary32>(unit: &F, e: Expr, out: Binary32) -> bool
    decreases e,
{
    match e {
        Expr::Const(c) => out == c,
        Expr::Neg(a) => exists|x: Binary32|
            #![trigger x.neg_spec()]
            yields(unit, *a, x) && out == x.neg_spec(),
        Expr::Binary(op, a, b) => exists|x: Binary32, y: Binary32|
            #![trigger gives(unit, Prim::Binary(op, x, y), out)]
            yields(unit, *a, x) && yields(unit, *b, y) && gives(unit, Prim::Binary(op, x, y), out),
        Expr::Unary(op, a) => exists|x: Binary32|
            #![trigger gives(unit, Prim::Unary(op, x), out)]
            yields(unit, *a, x) && gives(unit, Prim::Unary(op, x), out),
    }
}

/// The unit answers every primitive as `model` does.
pub open spec fn follows<F: Fn(Prim) -> Binary32>(
    unit: &F,
    model: spec_fn(Prim) -> Binary32,
) -> bool {
    forall|p: Prim, out: Binary32| #[trigger] gives(unit, p, out) ==> out == model(p)
}

/// The value of the formula `e` where each primitive is answered as `model`
/// answers it.
pub open spec fn eval(model: spec_fn(Prim) -> Binary32, e: Expr) -> Binary32
    decreases e,
{
    match e {
        Expr::Const(c) => c,
        Expr::Neg(a) => eval(model, *a).neg_spec(),
        Expr::Binary(op, a, b) => model(Prim::Binary(op, eval(model, *a), eval(model, *b))),
        Expr::Unary(op, a) => model(Prim::Unary(op, eval(model, *a))),
    }
}

/// Applies a two-operand primitive.
pub fn binary<F: Fn(Prim) -> Binary32>(op: BinOp, a: Binary32, b: Binary32, unit: &F) -> (out:
    Binary32)
    requires
        total(unit),
    ensures
        gives(unit, Prim::Binary(op, a, b), out),
{
    unit(Prim::Binary(op, a, b))
}

/// Applies a one-operand primitive.
pub fn unary<F: Fn(Prim) -> Binary32>(op: UnOp, a: Binary32, unit: &F) -> (out: Binary32)
    requires
        total(unit),
    ensures
        gives(unit, Prim::Unary(op, a), out),
{
    unit(Prim::Unary(op, a))
}

/// `a + b`, as the unit rounds it.
pub fn sum<F: Fn(Prim) -> Binary32>(a: Binary32, b: Binary32, unit: &F) -> (out: Binary32)
    requires
        total(unit),
    ensures
        gives(unit, Prim::Binary(BinOp::Add, a, b), out),
{
    binary(BinOp::Add, a, b, unit)
}

/// `a - b`, as the unit rounds it.
pub fn difference<F: Fn(Prim) -> Binary32>(a: Binary32, b: Binary32, unit: &F) -> (out: Binary32)
    requires
        total(unit),
    ensures
        gives(unit, Prim::Binary(BinOp::Sub, a, b), out),
{
    binary(BinOp::Sub, a, b, unit)
}

/// `a * b`, as the unit rounds it.
pub fn product<F: Fn(Prim) -> Binary32>(a: Binary32, b: Binary32, unit: &F) -> (out: Binary32)
    requires
        total(unit),
    ensures
        gives(unit, Prim::Binary(BinOp::Mul, a, b), out),
{
    binary(BinOp::Mul, a, b, unit)
}

/// `a / b`, as the unit rounds it.
pub fn quotient<F: Fn(Prim) -> Binary32>(a: Binary32, b: Binary32, unit: &F) -> (out: Binary32)
    requires
        total(unit),
    ensures
        gives(unit, Prim::Binary(BinOp::Div, a, b), out),
{
    binary(BinOp::Div, a, b, unit)
}

/// `a` raised to the power `b`, as the unit computes it.
pub fn power<F: Fn(Prim) -> Binary32>(a: Binary32, b: Binary32, unit: &F) -> (out: Binary32)
    requires
        total(unit),
    ensures
        gives(unit, Prim::Binary(BinOp::Powf, a, b), out),
{
    binary(BinOp::Powf, a, b, unit)
}

/// The angle of the point `(x, y)`, as the unit computes it.
pub fn angle<F: Fn(Prim) -> Binary32>(y: Binary32, x: Binary32, unit: &F) -> (out: Binary32)
    requires
        total(unit),
    ensures
        gives(unit, Prim::Binary(BinOp::Atan2, y, x), out),
{
    binary(BinOp::Atan2, y, x, unit)
}

/// The cosine of `a`, as the unit computes it.
pub fn cosine<F: Fn(Prim) -> Binary32>(a: Binary32, unit: &F) -> (out: Binary32)
    requires
        total(unit),
    ensures
        gives(unit, Prim::Unary(UnOp::Cos, a), out),
{
    unary(UnOp::Cos, a, unit)
}

/// The sine of `a`, as the unit computes it.
pub fn sine<F: Fn(Prim) -> Binary32>(a: Binary32, unit: &F) -> (out: Binary32)
    requires
        total(unit),
    ensures
        gives(unit, Prim::Unary(UnOp::Sin, a), out),
{
    unary(UnOp::Sin, a, unit)
}

/// On a unit that answers as `model` does, a formula yields one value
/// only: its value under `model`.
pub proof fn lemma_yields_eval<F: Fn(Prim) -> Binary32>(
    unit: &F,
    model: spec_fn(Prim) -> Binary32,
    e: Expr,
    out: Binary32,
)
    requires
        follows(unit, model),
        yields(unit, e, out),
    ensures
        out == eval(model, e),
    decreases e,
{
    match e {
        Expr::Const(_) => {},
        Expr::Neg(a) => {
            let x = choose|x: Binary32| yields(unit, *a, x) && out == #[trigger] x.neg_spec();
            lemma_yields_eval(unit, model, *a, x);
        },
        Expr::Binary(op, a, b) => {
            let (x, y) = choose|x: Binary32, y: Binary32|
                yields(unit, *a, x) && yields(unit, *b, y) && #[trigger] gives(
                    unit,
                    Prim::Binary(op, x, y),
                    out,
                );
            lemma_yields_eval(unit, model, *a, x);
            lemma_yields_eval(unit, model, *b, y);
        },
        Expr::Unary(op, a) => {
            let x = choose|x: Binary32|
                yields(unit, *a, x) && #[trigger] gives(unit, Prim::Unary(op, x), out);
            lemma_yields_eval(unit, model, *a, x);
        },
    }
}

/// What the unit gives for a primitive, on values that the operands yield,
/// is what the two-operand formula yields.
pub proof fn lemma_yields_binary<F: Fn(Prim) -> Binary32>(
    unit: &F,
    op: BinOp,
    a: Expr,
    b: Expr,
    x: Binary32,
    y: Binary32,
    out: Binary32,
)
    requires
        yields(unit, a, x),
        yields(unit, b, y),
        gives(unit, Prim::Binary(op, x, y), out),
    ensures
        yields(unit, Expr::Binary(op, Box::new(a), Box::new(b)), out),
{
}

/// What the unit gives for a primitive, on a value that the operand yields,
/// is what the one-operand formula yields.
pub proof fn lemma_yields_unary<F: Fn(Prim) -> Binary32>(
    unit: &F,
    op: UnOp,
    a: Expr,
    x: Binary32,
    out: Binary32,
)
    requires
        yields(unit, a, x),
        gives(unit, Prim::Unary(op, x), out),
    ensures
        yields(unit, Expr::Unary(op, Box::new(a)), out),
{
}

} // verus!
