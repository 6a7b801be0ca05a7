//! Real numbers, complex numbers and quaternions behind one type, with the
//! arithmetic that widens across them and a rotation.
//!
//! Values are single-precision and are carried as their IEEE-754 encodings
//! ([`binary32::Binary32`]). What can be decided on an encoding is decided
//! here and is exact: conjugation, equality, the NaN test, `set` by mask.
//! Every operation that rounds is handed to an arithmetic unit that the
//! caller passes in ([`unit`]); the contracts name the formula that was
//! evaluated on it. What the formulas come to in exact arithmetic, where
//! the laws of algebra hold, is the subject of [`exact`]. What they come
//! to on a unit that keeps the rules of IEEE-754 is the subject of
//! [`sign`], for the sign of a modulus, and of [`rounding`], for a complex
//! number divided by itself.
use vstd::prelude::*;
use crate::binary32::{Binary32, HALF, HALF_TURN, MINUS_ONE, NAN, PI, QUARTER_TURN, ZERO};
use crate::complex::{CExpr, CNum};
use crate::quaternion::{QExpr, QNum};
use crate::unit::{
    lemma_yields_binary, lit, power, product, quotient, sum, total, val, yields, BinOp, Expr, Prim,
};

pub mod binary32;
pub mod cassette;
pub mod complex;
pub mod exact;
pub mod quaternion;
pub mod rounding;
pub mod sign;
pub mod unit;

verus! {

/// A number of one of three kinds, each wider than the one before.
#[derive(Clone, Copy, Debug)]
pub enum Nums {
    Real(Binary32),
    Complex(CNum),
    Quaternion(QNum),
}

/// A number whose parts are formulas. Its methods are the formulas of the
/// operations of [`Nums`].
pub enum NExpr {
    Real(Expr),
    Complex(CExpr),
    Quaternion(QExpr),
}

/// The larger of two ranks.
pub open spec fn wider(a: nat, b: nat) -> nat {
    if a >= b {
        a
    } else {
        b
    }
}

/// The three coordinates of `v`, as they are.
pub open spec fn vals(v: (Binary32, Binary32, Binary32)) -> (Expr, Expr, Expr) {
    (val(v.0), val(v.1), val(v.2))
}

/// The Euclidean length of `o`: the sum of the squares, from left to right,
/// raised to the power one half.
pub open spec fn length(o: (Expr, Expr, Expr)) -> Expr {
    o.0.times(o.0).plus(o.1.times(o.1)).plus(o.2.times(o.2)).powf(lit(HALF))
}

/// `m` is a length that the unit may give for `o`.
pub open spec fn is_length<F: Fn(Prim) -> Binary32>(
    unit: &F,
    o: (Binary32, Binary32, Binary32),
    m: Binary32,
) -> bool {
    yields(unit, length(vals(o)), m)
}

/// The undefined axis: three canonical NaNs.
pub open spec fn undefined_axis() -> (Binary32, Binary32, Binary32) {
    (Binary32 { bits: NAN }, Binary32 { bits: NAN }, Binary32 { bits: NAN })
}

/// `axis` is `o` normalized with the length `m`: the undefined axis where
/// `m` equals zero, and else each coordinate divided by `m`.
pub open spec fn scaled_by<F: Fn(Prim) -> Binary32>(
    unit: &F,
    o: (Binary32, Binary32, Binary32),
    m: Binary32,
    axis: (Binary32, Binary32, Binary32),
) -> bool {
    if m.ieee_eq(Binary32 { bits: ZERO }) {
        axis == undefined_axis()
    } else {
        &&& yields(unit, val(o.0).over(val(m)), axis.0)
        &&& yields(unit, val(o.1).over(val(m)), axis.1)
        &&& yields(unit, val(o.2).over(val(m)), axis.2)
    }
}

/// `axis` is a normalization of `o` on the unit: for some length that the
/// unit may give for `o`, it is `o` normalized with that length.
pub open spec fn normalized<F: Fn(Prim) -> Binary32>(
    unit: &F,
    o: (Binary32, Binary32, Binary32),
    axis: (Binary32, Binary32, Binary32),
) -> bool {
    exists|m: Binary32| #[trigger] is_length(unit, o, m) && scaled_by(unit, o, m, axis)
}

impl NExpr {
    /// The parts of `n`, as they are.
    pub open spec fn of(n: Nums) -> NExpr {
        match n {
            Nums::Real(re) => NExpr::Real(val(re)),
            Nums::Complex(c) => NExpr::Complex(CExpr::of(c)),
            Nums::Quaternion(q) => NExpr::Quaternion(QExpr::of(q)),
        }
    }

    /// `out` is of the same kind, and each part yields the corresponding
    /// part of `out`.
    pub open spec fn yields<F: Fn(Prim) -> Binary32>(self, unit: &F, out: Nums) -> bool {
        match (self, out) {
            (NExpr::Real(e), Nums::Real(re)) => yields(unit, e, re),
            (NExpr::Complex(e), Nums::Complex(c)) => e.yields(unit, c),
            (NExpr::Quaternion(e), Nums::Quaternion(q)) => e.yields(unit, q),
            _ => false,
        }
    }

    /// 0 for a real number, 1 for a complex number, 2 for a quaternion.
    pub open spec fn rank(self) -> nat {
        match self {
            NExpr::Real(_) => 0,
            NExpr::Complex(_) => 1,
            NExpr::Quaternion(_) => 2,
        }
    }

    /// The sum, in the wider of the two kinds. The narrower operand is
    /// added to the leading parts of the wider one, whichever side it
    /// stands on.
    pub open spec fn plus(self, rhs: NExpr) -> NExpr {
        match (self, rhs) {
            (NExpr::Real(a), NExpr::Real(b)) => NExpr::Real(a.plus(b)),
            (NExpr::Real(re), NExpr::Complex(c)) => NExpr::Complex(c.add_r(re)),
            (NExpr::Real(re), NExpr::Quaternion(q)) => NExpr::Quaternion(q.add_r(re)),
            (NExpr::Complex(c), NExpr::Real(re)) => NExpr::Complex(c.add_r(re)),
            (NExpr::Complex(a), NExpr::Complex(b)) => NExpr::Complex(a.add_c(b)),
            (NExpr::Complex(c), NExpr::Quaternion(q)) => NExpr::Quaternion(q.add_c(c)),
            (NExpr::Quaternion(q), NExpr::Real(re)) => NExpr::Quaternion(q.add_r(re)),
            (NExpr::Quaternion(q), NExpr::Complex(c)) => NExpr::Quaternion(q.add_c(c)),
            (NExpr::Quaternion(a), NExpr::Quaternion(b)) => NExpr::Quaternion(a.add_q(b)),
        }
    }

    /// The product, in the wider of the two kinds. The narrower operand
    /// is widened and the operands keep their sides: a complex number times
    /// a quaternion has the complex number on the left, a quaternion times
    /// a complex number has it on the right.
    pub open spec fn times(self, rhs: NExpr) -> NExpr {
        match (self, rhs) {
            (NExpr::Real(a), NExpr::Real(b)) => NExpr::Real(a.times(b)),
            (NExpr::Real(re), NExpr::Complex(c)) => NExpr::Complex(c.mult_r(re)),
            (NExpr::Real(re), NExpr::Quaternion(q)) => NExpr::Quaternion(q.mult_r(re)),
            (NExpr::Complex(c), NExpr::Real(re)) => NExpr::Complex(c.mult_r(re)),
            (NExpr::Complex(a), NExpr::Complex(b)) => NExpr::Complex(a.mult_c(b)),
            (NExpr::Complex(c), NExpr::Quaternion(q)) => NExpr::Quaternion(q.mult_c_left(c)),
            (NExpr::Quaternion(q), NExpr::Real(re)) => NExpr::Quaternion(q.mult_r(re)),
            (NExpr::Quaternion(q), NExpr::Complex(c)) => NExpr::Quaternion(q.mult_c(c)),
            (NExpr::Quaternion(a), NExpr::Quaternion(b)) => NExpr::Quaternion(a.mult_q(b)),
        }
    }

    /// The number times the real number minus one.
    pub open spec fn neg(self) -> NExpr {
        self.times(NExpr::Real(lit(MINUS_ONE)))
    }

    /// The rotation by `ang` degrees about `axis`. A real number stays as
    /// it is. A complex number is raised to the power `ang / 90`. A
    /// quaternion `v` becomes `q · v · conj(q)`, where `q` is the rotation
    /// quaternion of `ang · π / 180` radians about `axis`.
    pub open spec fn rot(self, ang: Expr, axis: (Expr, Expr, Expr)) -> NExpr {
        match self {
            NExpr::Real(re) => NExpr::Real(re),
            NExpr::Complex(c) => NExpr::Complex(c.pow(ang.over(lit(QUARTER_TURN)))),
            NExpr::Quaternion(v) => {
                let q = QExpr::from_axis_angle(ang.times(lit(PI)).over(lit(HALF_TURN)), axis);
                NExpr::Quaternion(q.mult_q(v).mult_q(q.conj()))
            },
        }
    }

    /// A sum and a product are of the wider of the two kinds, and a
    /// rotation is of the kind of what is rotated.
    pub proof fn lemma_promotion(self, rhs: NExpr, ang: Expr, axis: (Expr, Expr, Expr))
        ensures
            self.plus(rhs).rank() == wider(self.rank(), rhs.rank()),
            self.times(rhs).rank() == wider(self.rank(), rhs.rank()),
            self.neg().rank() == self.rank(),
            self.rot(ang, axis).rank() == self.rank(),
    {
    }
}

impl Nums {
    /// 0 for a real number, 1 for a complex number, 2 for a quaternion.
    pub open spec fn rank(self) -> nat {
        match self {
            Nums::Real(_) => 0,
            Nums::Complex(_) => 1,
            Nums::Quaternion(_) => 2,
        }
    }

    /// The conjugate: a real number is its own, the other two kinds have
    /// theirs.
    pub open spec fn conj_spec(self) -> Nums {
        match self {
            Nums::Real(re) => Nums::Real(re),
            Nums::Complex(c) => Nums::Complex(c.conj_spec()),
            Nums::Quaternion(q) => Nums::Quaternion(q.conj_spec()),
        }
    }

    /// The number after `set(c, v)`: a real number is left as it is, the
    /// other two kinds are overwritten where the mask selects.
    pub open spec fn set_spec(self, c: u8, v: Binary32) -> Nums {
        match self {
            Nums::Real(re) => Nums::Real(re),
            Nums::Complex(cnum) => Nums::Complex(cnum.set_spec(c, v)),
            Nums::Quaternion(qnum) => Nums::Quaternion(qnum.set_spec(c, v)),
        }
    }

    /// Equality: the same kind and equal parts. Numbers of different kinds
    /// are never equal.
    pub open spec fn equals(self, other: Nums) -> bool {
        match (self, other) {
            (Nums::Real(a), Nums::Real(b)) => a.ieee_eq(b),
            (Nums::Complex(a), Nums::Complex(b)) => a.equals(b),
            (Nums::Quaternion(a), Nums::Quaternion(b)) => a.equals(b),
            _ => false,
        }
    }

    /// Whether `rot` turns the number about the given normalized axis: it
    /// does not turn a quaternion about an axis that starts with a NaN.
    pub open spec fn turns_about(self, axis: (Binary32, Binary32, Binary32)) -> bool {
        !(self is Quaternion && axis.0.is_nan_spec())
    }

    /// What `rot` returns for the normalized axis `axis`: nothing where
    /// the number is not turned about it, and else what the rotation
    /// yields.
    pub open spec fn rot_yields<F: Fn(Prim) -> Binary32>(
        self,
        unit: &F,
        ang: Binary32,
        axis: (Binary32, Binary32, Binary32),
        out: Option<Nums>,
    ) -> bool {
        if self.turns_about(axis) {
            out matches Some(n) && NExpr::of(self).rot(val(ang), vals(axis)).yields(unit, n)
        } else {
            out is None
        }
    }

    /// The conjugate. It is exact.
    pub fn conj(&self) -> (out: Nums)
        ensures
            out == self.conj_spec(),
    {
        match self {
            Nums::Real(re) => Nums::Real(*re),
            Nums::Complex(cnum) => Nums::Complex(cnum.conj()),
            Nums::Quaternion(qnum) => Nums::Quaternion(qnum.conj()),
        }
    }

    /// Normalizes the vector `o`: each coordinate divided by the length of
    /// `o`, or the undefined axis where that length equals zero.
    pub fn normalize<F: Fn(Prim) -> Binary32>(o: (Binary32, Binary32, Binary32), unit: &F) -> (axis:
        (Binary32, Binary32, Binary32))
        requires
            total(unit),
        ensures
            normalized(unit, o, axis),
    {
        let squares = sum(
            sum(product(o.0, o.0, unit), product(o.1, o.1, unit), unit),
            product(o.2, o.2, unit),
            unit,
        );
        let m = power(squares, Binary32::from_bits(HALF), unit);
        proof {
            reveal_with_fuel(yields, 5);
            assert(is_length(unit, o, m));
        }
        if m == Binary32::from_bits(ZERO) {
            let nan = Binary32::from_bits(NAN);
            return (nan, nan, nan);
        }
        let axis = (quotient(o.0, m, unit), quotient(o.1, m, unit), quotient(o.2, m, unit));
        proof {
            assert(scaled_by(unit, o, m, axis));
        }
        axis
    }

    /// Rotates the number by `ang` degrees about an axis that has been
    /// normalized already. Only a quaternion is turned about the axis.
    pub fn rot_about<F: Fn(Prim) -> Binary32>(
        &self,
        ang: Binary32,
        axis: (Binary32, Binary32, Binary32),
        unit: &F,
    ) -> (out: Nums)
        requires
            total(unit),
            self.turns_about(axis),
        ensures
            NExpr::of(*self).rot(val(ang), vals(axis)).yields(unit, out),
            out.rank() == self.rank(),
    {
        match self {
            Nums::Real(re) => Nums::Real(*re),
            Nums::Complex(cnum) => {
                let exponent = quotient(ang, Binary32::from_bits(QUARTER_TURN), unit);
                let out = cnum.pow(exponent, unit);
                proof {
                    let e = val(ang).over(lit(QUARTER_TURN));
                    lemma_yields_binary(
                        unit,
                        BinOp::Div,
                        val(ang),
                        lit(QUARTER_TURN),
                        ang,
                        Binary32 { bits: QUARTER_TURN },
                        exponent,
                    );
                    CExpr::lemma_pow(unit, CExpr::of(*cnum), e, *cnum, exponent, out);
                }
                Nums::Complex(out)
            },
            Nums::Quaternion(qnum) => {
                let radians = quotient(
                    product(ang, Binary32::from_bits(PI), unit),
                    Binary32::from_bits(HALF_TURN),
                    unit,
                );
                let q = QNum::make_from_a(radians, axis, unit);
                let turned = q.mult_q(qnum.clone(), unit);
                let back = q.conj();
                let out = turned.mult_q(back, unit);
                proof {
                    let e = val(ang).times(lit(PI)).over(lit(HALF_TURN));
                    let eq = QExpr::from_axis_angle(e, vals(axis));
                    let ev = QExpr::of(*qnum);
                    assert(yields(unit, e, radians)) by {
                        reveal_with_fuel(yields, 3);
                    }
                    QExpr::lemma_from_axis_angle(unit, e, radians, axis, q);
                    QExpr::lemma_mult_q(unit, eq, ev, q, *qnum, turned);
                    QExpr::lemma_conj(unit, eq, q);
                    QExpr::lemma_mult_q(unit, eq.mult_q(ev), eq.conj(), turned, back, out);
                }
                Nums::Quaternion(out)
            },
        }
    }

    /// Rotates the number by `ang` degrees about the axis `o`, which is
    /// normalized first. A quaternion cannot be turned about an axis whose
    /// normalization starts with a NaN, as that of the zero vector does:
    /// such a call is rejected with `None`.
    pub fn rot<F: Fn(Prim) -> Binary32>(
        &self,
        ang: Binary32,
        o: (Binary32, Binary32, Binary32),
        unit: &F,
    ) -> (out: Option<Nums>)
        requires
            total(unit),
        ensures
            exists|axis: (Binary32, Binary32, Binary32)| #[trigger]
                normalized(unit, o, axis) && self.rot_yields(unit, ang, axis, out),
            !(*self is Quaternion) ==> out is Some,
            out matches Some(n) ==> n.rank() == self.rank(),
    {
        let axis = Nums::normalize(o, unit);
        let rejected = match self {
            Nums::Quaternion(_) => axis.0.is_nan(),
            _ => false,
        };
        if rejected {
            None
        } else {
            Some(self.rot_about(ang, axis, unit))
        }
    }

    /// A copy in which every part that the mask `c` selects is `v`; a real
    /// number has no part to select.
    pub fn set(&self, c: u8, v: Binary32) -> (out: Nums)
        ensures
            out == self.set_spec(c, v),
    {
        match self {
            Nums::Real(re) => Nums::Real(*re),
            Nums::Complex(cnum) => Nums::Complex(cnum.set(c, v)),
            Nums::Quaternion(qnum) => Nums::Quaternion(qnum.set(c, v)),
        }
    }

    /// A copy of the number.
    pub fn clone(&self) -> (out: Nums)
        ensures
            out == *self,
    {
        match self {
            Nums::Real(re) => Nums::Real(*re),
            Nums::Complex(cnum) => Nums::Complex(cnum.clone()),
            Nums::Quaternion(qnum) => Nums::Quaternion(qnum.clone()),
        }
    }

    /// The sum of two numbers, in the wider of their kinds.
    pub fn add<F: Fn(Prim) -> Binary32>(self, rhs: Nums, unit: &F) -> (out: Nums)
        requires
            total(unit),
        ensures
            NExpr::of(self).plus(NExpr::of(rhs)).yields(unit, out),
            out.rank() == wider(self.rank(), rhs.rank()),
    {
        proof {
            reveal_with_fuel(yields, 2);
        }
        match self {
            Nums::Real(re) => {
                match rhs {
                    Nums::Real(re1) => Nums::Real(sum(re, re1, unit)),
                    Nums::Complex(cnum) => Nums::Complex(cnum.add_r(re, unit)),
                    Nums::Quaternion(qnum) => Nums::Quaternion(qnum.add_r(re, unit)),
                }
            },
            Nums::Complex(cnum) => {
                match rhs {
                    Nums::Real(re) => Nums::Complex(cnum.add_r(re, unit)),
                    Nums::Complex(cnum1) => Nums::Complex(cnum.add_c(cnum1, unit)),
                    Nums::Quaternion(qnum) => Nums::Quaternion(qnum.add_c(cnum.clone(), unit)),
                }
            },
            Nums::Quaternion(qnum) => {
                match rhs {
                    Nums::Real(re) => Nums::Quaternion(qnum.add_r(re, unit)),
                    Nums::Complex(cnum) => Nums::Quaternion(qnum.add_c(cnum, unit)),
                    Nums::Quaternion(qnum1) => Nums::Quaternion(qnum.add_q(qnum1, unit)),
                }
            },
        }
    }

    /// The product of two numbers, in the wider of their kinds.
    pub fn mul<F: Fn(Prim) -> Binary32>(self, rhs: Nums, unit: &F) -> (out: Nums)
        requires
            total(unit),
        ensures
            NExpr::of(self).times(NExpr::of(rhs)).yields(unit, out),
            out.rank() == wider(self.rank(), rhs.rank()),
    {
        proof {
            reveal_with_fuel(yields, 2);
        }
        match self {
            Nums::Real(re) => {
                match rhs {
                    Nums::Real(re1) => Nums::Real(product(re, re1, unit)),
                    Nums::Complex(cnum) => Nums::Complex(cnum.mult_r(re, unit)),
                    Nums::Quaternion(qnum) => Nums::Quaternion(qnum.mult_r(re, unit)),
                }
            },
            Nums::Complex(cnum) => {
                match rhs {
                    Nums::Real(re) => Nums::Complex(cnum.mult_r(re, unit)),
                    Nums::Complex(cnum1) => Nums::Complex(cnum.mult_c(cnum1, unit)),
                    Nums::Quaternion(qnum) => Nums::Quaternion(qnum.mult_c_left(cnum.clone(), unit)),
                }
            },
            Nums::Quaternion(qnum) => {
                match rhs {
                    Nums::Real(re) => Nums::Quaternion(qnum.mult_r(re, unit)),
                    Nums::Complex(cnum) => Nums::Quaternion(qnum.mult_c(cnum, unit)),
                    Nums::Quaternion(qnum1) => Nums::Quaternion(qnum.mult_q(qnum1, unit)),
                }
            },
        }
    }

    /// The number times the real number minus one.
    pub fn neg<F: Fn(Prim) -> Binary32>(self, unit: &F) -> (out: Nums)
        requires
            total(unit),
        ensures
            NExpr::of(self).neg().yields(unit, out),
            out.rank() == self.rank(),
    {
        self.mul(Nums::Real(Binary32::from_bits(MINUS_ONE)), unit)
    }

    /// Conjugating twice gives the number back, bit for bit.
    pub proof fn lemma_conj_involution(self)
        ensures
            self.conj_spec().conj_spec() == self,
    {
        match self {
            Nums::Real(_) => {},
            Nums::Complex(c) => c.lemma_conj_involution(),
            Nums::Quaternion(q) => q.lemma_conj_involution(),
        }
    }
}

impl PartialEq for Nums {
    /// The same kind and equal parts.
    fn eq(&self, other: &Self) -> (out: bool) {
        match self {
            Nums::Real(re) => {
                match other {
                    Nums::Real(re1) => re == re1,
                    _ => false,
                }
            },
            Nums::Complex(cnum) => {
                match other {
                    Nums::Complex(cnum1) => cnum == cnum1,
                    _ => false,
                }
            },
            Nums::Quaternion(qnum) => {
                match other {
                    Nums::Quaternion(qnum1) => qnum == qnum1,
                    _ => false,
                }
            },
        }
    }
}

impl vstd::std_specs::cmp::PartialEqSpecImpl for Nums {
    open spec fn obeys_eq_spec() -> bool {
        true
    }

    open spec fn eq_spec(&self, other: &Self) -> bool {
        self.equals(*other)
    }
}

} // verus!
