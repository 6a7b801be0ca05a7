//! Quaternions.
use vstd::prelude::*;
use crate::binary32::{Binary32, HALF, MINUS_ONE, ONE, TWO, ZERO};
use crate::cassette::{eq, is_set, lemma_union};
use crate::complex::{CExpr, CNum};
use crate::unit::{
    cosine, difference, lemma_yields_binary, lit, power, product, quotient, sine, sum, total, val,
    yields, BinOp, Expr, Prim,
};

verus! {

/// Mask flag of the real part, component 0.
pub const R: u8 = 1;

/// Mask flag of the coefficient of `î`, component 1.
pub const I: u8 = 2;

/// Mask flag of the coefficient of `ĵ`, component 2.
pub const J: u8 = 4;

/// Mask flag of the coefficient of `k̂`, component 3.
pub const K: u8 = 8;

/// A quaternion `r + i·î + j·ĵ + k·k̂` with single-precision parts.
#[derive(Clone, Copy, Debug)]
pub struct QNum {
    pub r: Binary32,
    pub i: Binary32,
    pub j: Binary32,
    pub k: Binary32,
}

/// A quaternion whose four parts are formulas. Its methods are the formulas
/// of the operations of [`QNum`].
pub struct QExpr {
    pub r: Expr,
    pub i: Expr,
    pub j: Expr,
    pub k: Expr,
}

impl QExpr {
    /// The parts of `q`, as they are.
    pub open spec fn of(q: QNum) -> QExpr {
        QExpr { r: val(q.r), i: val(q.i), j: val(q.j), k: val(q.k) }
    }

    /// Each part yields the corresponding part of `out`.
    pub open spec fn yields<F: Fn(Prim) -> Binary32>(self, unit: &F, out: QNum) -> bool {
        &&& yields(unit, self.r, out.r)
        &&& yields(unit, self.i, out.i)
        &&& yields(unit, self.j, out.j)
        &&& yields(unit, self.k, out.k)
    }

    /// The rotation quaternion of an angle in radians about an axis:
    /// `cos(ang/2)` and `sin(ang/2)` times each coordinate of the axis.
    pub open spec fn from_axis_angle(ang: Expr, axis: (Expr, Expr, Expr)) -> QExpr {
        QExpr {
            r: ang.over(lit(TWO)).cos(),
            i: ang.over(lit(TWO)).sin().times(axis.0),
            j: ang.over(lit(TWO)).sin().times(axis.1),
            k: ang.over(lit(TWO)).sin().times(axis.2),
        }
    }

    /// `(r, −i, −j, −k)`
    pub open spec fn conj(self) -> QExpr {
        QExpr { r: self.r, i: self.i.neg(), j: self.j.neg(), k: self.k.neg() }
    }

    /// The real part of `self · conj(self)`.
    pub open spec fn norm(self) -> Expr {
        self.mult_q(self.conj()).r
    }

    /// The norm raised to the power one half.
    pub open spec fn modl(self) -> Expr {
        self.norm().powf(lit(HALF))
    }

    /// `(r + v, i, j, k)`
    pub open spec fn add_r(self, v: Expr) -> QExpr {
        QExpr { r: self.r.plus(v), i: self.i, j: self.j, k: self.k }
    }

    /// `(r + v.r, i + v.i, j, k)`
    pub open spec fn add_c(self, v: CExpr) -> QExpr {
        QExpr { r: self.r.plus(v.r), i: self.i.plus(v.i), j: self.j, k: self.k }
    }

    /// The sum, part by part.
    pub open spec fn add_q(self, v: QExpr) -> QExpr {
        QExpr {
            r: self.r.plus(v.r),
            i: self.i.plus(v.i),
            j: self.j.plus(v.j),
            k: self.k.plus(v.k),
        }
    }

    /// `(r·v, i·v, j·v, k·v)`
    pub open spec fn mult_r(self, v: Expr) -> QExpr {
        QExpr { r: self.r.times(v), i: self.i.times(v), j: self.j.times(v), k: self.k.times(v) }
    }

    /// The product `self · v` with a complex number on the right, which
    /// stands for the quaternion `(v.r, v.i, 0, 0)`; the terms with its two
    /// zero parts are left out.
    pub open spec fn mult_c(self, v: CExpr) -> QExpr {
        QExpr {
            r: self.r.times(v.r).minus(self.i.times(v.i)),
            i: self.i.times(v.r).plus(self.r.times(v.i)),
            j: self.j.times(v.r).plus(self.k.times(v.i)),
            k: self.k.times(v.r).minus(self.j.times(v.i)),
        }
    }

    /// The product `v · self` with a complex number on the left, which
    /// stands for the quaternion `(v.r, v.i, 0, 0)`; the terms with its two
    /// zero parts are left out.
    pub open spec fn mult_c_left(self, v: CExpr) -> QExpr {
        QExpr {
            r: v.r.times(self.r).minus(v.i.times(self.i)),
            i: v.r.times(self.i).plus(v.i.times(self.r)),
            j: v.r.times(self.j).minus(v.i.times(self.k)),
            k: v.r.times(self.k).plus(v.i.times(self.j)),
        }
    }

    /// The Hamilton product `self · v`, each part summed from left to right:
    ///
    /// ```text
    /// r = r1·r2 − i1·i2 − j1·j2 − k1·k2
    /// i = r1·i2 + i1·r2 + j1·k2 − k1·j2
    /// j = r1·j2 − i1·k2 + j1·r2 + k1·i2
    /// k = r1·k2 + i1·j2 − j1·i2 + k1·r2
    /// ```
    pub open spec fn mult_q(self, v: QExpr) -> QExpr {
        QExpr {
            r: self.r.times(v.r).minus(self.i.times(v.i)).minus(self.j.times(v.j)).minus(
                self.k.times(v.k),
            ),
            i: self.r.times(v.i).plus(self.i.times(v.r)).plus(self.j.times(v.k)).minus(
                self.k.times(v.j),
            ),
            j: self.r.times(v.j).minus(self.i.times(v.k)).plus(self.j.times(v.r)).plus(
                self.k.times(v.i),
            ),
            k: self.r.times(v.k).plus(self.i.times(v.j)).minus(self.j.times(v.i)).plus(
                self.k.times(v.r),
            ),
        }
    }

    /// The conjugate scaled by one over the norm.
    pub open spec fn inv(self) -> QExpr {
        self.conj().mult_r(lit(ONE).over(self.norm()))
    }

    /// `self` scaled by minus one.
    pub open spec fn neg(self) -> QExpr {
        self.mult_r(lit(MINUS_ONE))
    }
}

impl QNum {
    /// The conjugate: the three imaginary parts with their signs flipped.
    pub open spec fn conj_spec(self) -> QNum {
        QNum { r: self.r, i: self.i.neg_spec(), j: self.j.neg_spec(), k: self.k.neg_spec() }
    }

    /// The quaternion after `set(c, v)`: `v` in the parts that the mask
    /// selects, the old part elsewhere.
    pub open spec fn set_spec(self, c: u8, v: Binary32) -> QNum {
        QNum {
            r: if is_set(c, 0) {
                v
            } else {
                self.r
            },
            i: if is_set(c, 1) {
                v
            } else {
                self.i
            },
            j: if is_set(c, 2) {
                v
            } else {
                self.j
            },
            k: if is_set(c, 3) {
                v
            } else {
                self.k
            },
        }
    }

    /// Equality of quaternions: IEEE equality of all four parts.
    pub open spec fn equals(self, other: QNum) -> bool {
        &&& self.r.ieee_eq(other.r)
        &&& self.i.ieee_eq(other.i)
        &&& self.j.ieee_eq(other.j)
        &&& self.k.ieee_eq(other.k)
    }

    /// The quaternion zero.
    pub fn make_zero() -> (out: QNum)
        ensures
            out == (QNum {
                r: Binary32 { bits: ZERO },
                i: Binary32 { bits: ZERO },
                j: Binary32 { bits: ZERO },
                k: Binary32 { bits: ZERO },
            }),
    {
        QNum {
            r: Binary32::from_bits(ZERO),
            i: Binary32::from_bits(ZERO),
            j: Binary32::from_bits(ZERO),
            k: Binary32::from_bits(ZERO),
        }
    }

    /// The quaternion with the four given parts.
    pub fn make_from_r(r: Binary32, i: Binary32, j: Binary32, k: Binary32) -> (out: QNum)
        ensures
            out == (QNum { r, i, j, k }),
    {
        QNum { r, i, j, k }
    }

    /// The quaternion of two complex numbers: `w1` gives `r` and `i`, `w2`
    /// gives `j` and `k`.
    pub fn make_from_c(w1: CNum, w2: CNum) -> (out: QNum)
        ensures
            out == (QNum { r: w1.r, i: w1.i, j: w2.r, k: w2.i }),
    {
        let (r, i) = w1.get();
        let (j, k) = w2.get();
        QNum { r, i, j, k }
    }

    /// The rotation quaternion of the angle `ang`, in radians, about the
    /// axis `vec`. The axis is taken as it is; it is not normalized here.
    pub fn make_from_a<F: Fn(Prim) -> Binary32>(
        ang: Binary32,
        vec: (Binary32, Binary32, Binary32),
        unit: &F,
    ) -> (out: QNum)
        requires
            total(unit),
        ensures
            QExpr::from_axis_angle(val(ang), (val(vec.0), val(vec.1), val(vec.2))).yields(
                unit,
                out,
            ),
    {
        proof {
            reveal_with_fuel(yields, 4);
        }
        let two = Binary32::from_bits(TWO);
        QNum {
            r: cosine(quotient(ang, two, unit), unit),
            i: product(sine(quotient(ang, two, unit), unit), vec.0, unit),
            j: product(sine(quotient(ang, two, unit), unit), vec.1, unit),
            k: product(sine(quotient(ang, two, unit), unit), vec.2, unit),
        }
    }

    /// A copy of the quaternion.
    pub fn clone(&self) -> (out: QNum)
        ensures
            out == *self,
    {
        QNum { r: self.r, i: self.i, j: self.j, k: self.k }
    }

    /// The four parts.
    pub fn get(&self) -> (out: (Binary32, Binary32, Binary32, Binary32))
        ensures
            out == (self.r, self.i, self.j, self.k),
    {
        (self.r, self.i, self.j, self.k)
    }

    /// The conjugate. It is exact.
    pub fn conj(&self) -> (out: QNum)
        ensures
            out == self.conj_spec(),
    {
        QNum { r: self.r, i: self.i.neg(), j: self.j.neg(), k: self.k.neg() }
    }

    /// The norm: the squared magnitude.
    pub fn norm<F: Fn(Prim) -> Binary32>(&self, unit: &F) -> (out: Binary32)
        requires
            total(unit),
        ensures
            yields(unit, QExpr::of(*self).norm(), out),
    {
        let conj = self.conj();
        let square = self.mult_q(conj, unit);
        proof {
            let e = QExpr::of(*self);
            QExpr::lemma_conj(unit, e, *self);
            QExpr::lemma_mult_q(unit, e, e.conj(), *self, conj, square);
        }
        square.r
    }

    /// The modulus: the magnitude.
    pub fn modl<F: Fn(Prim) -> Binary32>(&self, unit: &F) -> (out: Binary32)
        requires
            total(unit),
        ensures
            yields(unit, QExpr::of(*self).modl(), out),
    {
        let norm = self.norm(unit);
        let out = power(norm, Binary32::from_bits(HALF), unit);
        proof {
            lemma_yields_binary(
                unit,
                BinOp::Powf,
                QExpr::of(*self).norm(),
                lit(HALF),
                norm,
                Binary32 { bits: HALF },
                out,
            );
        }
        out
    }

    /// The sum with a real number: only the real part changes.
    pub fn add_r<F: Fn(Prim) -> Binary32>(&self, v: Binary32, unit: &F) -> (out: QNum)
        requires
            total(unit),
        ensures
            QExpr::of(*self).add_r(val(v)).yields(unit, out),
    {
        proof {
            reveal_with_fuel(yields, 2);
        }
        QNum { r: sum(self.r, v, unit), i: self.i, j: self.j, k: self.k }
    }

    /// The sum with a complex number: only `r` and `i` change.
    pub fn add_c<F: Fn(Prim) -> Binary32>(&self, v: CNum, unit: &F) -> (out: QNum)
        requires
            total(unit),
        ensures
            QExpr::of(*self).add_c(CExpr::of(v)).yields(unit, out),
    {
        proof {
            reveal_with_fuel(yields, 2);
        }
        let (r, i) = v.get();
        QNum { r: sum(self.r, r, unit), i: sum(self.i, i, unit), j: self.j, k: self.k }
    }

    /// The sum with a quaternion, part by part.
    pub fn add_q<F: Fn(Prim) -> Binary32>(&self, v: QNum, unit: &F) -> (out: QNum)
        requires
            total(unit),
        ensures
            QExpr::of(*self).add_q(QExpr::of(v)).yields(unit, out),
    {
        proof {
            reveal_with_fuel(yields, 2);
        }
        QNum {
            r: sum(self.r, v.r, unit),
            i: sum(self.i, v.i, unit),
            j: sum(self.j, v.j, unit),
            k: sum(self.k, v.k, unit),
        }
    }

    /// The product with a real number: all four parts are scaled.
    pub fn mult_r<F: Fn(Prim) -> Binary32>(&self, v: Binary32, unit: &F) -> (out: QNum)
        requires
            total(unit),
        ensures
            QExpr::of(*self).mult_r(val(v)).yields(unit, out),
    {
        proof {
            reveal_with_fuel(yields, 2);
        }
        QNum {
            r: product(self.r, v, unit),
            i: product(self.i, v, unit),
            j: product(self.j, v, unit),
            k: product(self.k, v, unit),
        }
    }

    /// The product `self · v` with a complex number on the right.
    pub fn mult_c<F: Fn(Prim) -> Binary32>(&self, v: CNum, unit: &F) -> (out: QNum)
        requires
            total(unit),
        ensures
            QExpr::of(*self).mult_c(CExpr::of(v)).yields(unit, out),
    {
        proof {
            reveal_with_fuel(yields, 3);
        }
        let (r, i) = v.get();
        let (r1, i1, j1, k1) = self.get();
        QNum {
            r: difference(product(r1, r, unit), product(i1, i, unit), unit),
            i: sum(product(i1, r, unit), product(r1, i, unit), unit),
            j: sum(product(j1, r, unit), product(k1, i, unit), unit),
            k: difference(product(k1, r, unit), product(j1, i, unit), unit),
        }
    }

    /// The product `v · self` with a complex number on the left. It is not
    /// the product with the complex number on the right: `î · ĵ` is `k̂`
    /// and `ĵ · î` is `−k̂`.
    pub fn mult_c_left<F: Fn(Prim) -> Binary32>(&self, v: CNum, unit: &F) -> (out: QNum)
        requires
            total(unit),
        ensures
            QExpr::of(*self).mult_c_left(CExpr::of(v)).yields(unit, out),
    {
        proof {
            reveal_with_fuel(yields, 3);
        }
        let (r, i) = v.get();
        let (r1, i1, j1, k1) = self.get();
        QNum {
            r: difference(product(r, r1, unit), product(i, i1, unit), unit),
            i: sum(product(r, i1, unit), product(i, r1, unit), unit),
            j: difference(product(r, j1, unit), product(i, k1, unit), unit),
            k: sum(product(r, k1, unit), product(i, j1, unit), unit),
        }
    }

    /// The Hamilton product `self · v`. It does not commute: `self` is the
    /// left operand.
    pub fn mult_q<F: Fn(Prim) -> Binary32>(&self, v: QNum, unit: &F) -> (out: QNum)
        requires
            total(unit),
        ensures
            QExpr::of(*self).mult_q(QExpr::of(v)).yields(unit, out),
    {
        proof {
            reveal_with_fuel(yields, 5);
        }
        let (x1, y1, u1, v1) = self.get();
        let (x2, y2, u2, v2) = v.get();
        let r = difference(
            difference(
                difference(product(x1, x2, unit), product(y1, y2, unit), unit),
                product(u1, u2, unit),
                unit,
            ),
            product(v1, v2, unit),
            unit,
        );
        let i = difference(
            sum(
                sum(product(x1, y2, unit), product(y1, x2, unit), unit),
                product(u1, v2, unit),
                unit,
            ),
            product(v1, u2, unit),
            unit,
        );
        let j = sum(
            sum(
                difference(product(x1, u2, unit), product(y1, v2, unit), unit),
                product(u1, x2, unit),
                unit,
            ),
            product(v1, y2, unit),
            unit,
        );
        let k = sum(
            difference(
                sum(product(x1, v2, unit), product(y1, u2, unit), unit),
                product(u1, y2, unit),
                unit,
            ),
            product(v1, x2, unit),
            unit,
        );
        QNum { r, i, j, k }
    }

    /// The inverse. Nothing guards a zero norm: the unit is asked to divide
    /// one by whatever the norm came to, and what it answers is carried on.
    pub fn inv<F: Fn(Prim) -> Binary32>(&self, unit: &F) -> (out: QNum)
        requires
            total(unit),
        ensures
            QExpr::of(*self).inv().yields(unit, out),
    {
        let conj = self.conj();
        let norm = self.norm(unit);
        let scale = quotient(Binary32::from_bits(ONE), norm, unit);
        let out = conj.mult_r(scale, unit);
        proof {
            let e = QExpr::of(*self);
            QExpr::lemma_conj(unit, e, *self);
            lemma_yields_binary(
                unit,
                BinOp::Div,
                lit(ONE),
                e.norm(),
                Binary32 { bits: ONE },
                norm,
                scale,
            );
            QExpr::lemma_mult_r(unit, e.conj(), lit(ONE).over(e.norm()), conj, scale, out);
        }
        out
    }

    /// A copy in which every part that the mask `c` selects is `v`.
    pub fn set(&self, c: u8, v: Binary32) -> (out: QNum)
        ensures
            out == self.set_spec(c, v),
    {
        let mut ret = self.clone();
        if eq(c, 0) {
            ret.r = v;
        }
        if eq(c, 1) {
            ret.i = v;
        }
        if eq(c, 2) {
            ret.j = v;
        }
        if eq(c, 3) {
            ret.k = v;
        }
        ret
    }

    /// The quaternion scaled by minus one.
    pub fn neg<F: Fn(Prim) -> Binary32>(self, unit: &F) -> (out: QNum)
        requires
            total(unit),
        ensures
            QExpr::of(self).neg().yields(unit, out),
    {
        self.mult_r(Binary32::from_bits(MINUS_ONE), unit)
    }

    /// Conjugating twice gives the quaternion back, bit for bit.
    pub proof fn lemma_conj_involution(self)
        ensures
            self.conj_spec().conj_spec() == self,
    {
        self.i.lemma_neg_involution();
        self.j.lemma_neg_involution();
        self.k.lemma_neg_involution();
    }

    /// Each of the flags `R`, `I`, `J`, `K` selects its own part alone, so
    /// `set` with one flag overwrites that part, with all four flags every
    /// part, and with the empty mask nothing.
    pub proof fn lemma_set_flags(self, v: Binary32)
        ensures
            self.set_spec(R, v) == (QNum { r: v, ..self }),
            self.set_spec(I, v) == (QNum { i: v, ..self }),
            self.set_spec(J, v) == (QNum { j: v, ..self }),
            self.set_spec(K, v) == (QNum { k: v, ..self }),
            self.set_spec(R | I | J | K, v) == (QNum { r: v, i: v, j: v, k: v }),
            self.set_spec(0, v) == self,
    {
        assert(is_set(1u8, 0) && !is_set(1u8, 1) && !is_set(1u8, 2) && !is_set(1u8, 3))
            by (bit_vector);
        assert(!is_set(2u8, 0) && is_set(2u8, 1) && !is_set(2u8, 2) && !is_set(2u8, 3))
            by (bit_vector);
        assert(!is_set(4u8, 0) && !is_set(4u8, 1) && is_set(4u8, 2) && !is_set(4u8, 3))
            by (bit_vector);
        assert(!is_set(8u8, 0) && !is_set(8u8, 1) && !is_set(8u8, 2) && is_set(8u8, 3))
            by (bit_vector);
        assert(is_set(1u8 | 2u8 | 4u8 | 8u8, 0) && is_set(1u8 | 2u8 | 4u8 | 8u8, 1) && is_set(
            1u8 | 2u8 | 4u8 | 8u8,
            2,
        ) && is_set(1u8 | 2u8 | 4u8 | 8u8, 3)) by (bit_vector);
        assert(!is_set(0u8, 0) && !is_set(0u8, 1) && !is_set(0u8, 2) && !is_set(0u8, 3))
            by (bit_vector);
    }

    /// One `set` with two masks combined by `|` does what two `set`s with
    /// the same value do, one mask after the other.
    pub proof fn lemma_set_union(self, a: u8, b: u8, v: Binary32)
        ensures
            self.set_spec(a | b, v) == self.set_spec(a, v).set_spec(b, v),
    {
        lemma_union(a, b, 0);
        lemma_union(a, b, 1);
        lemma_union(a, b, 2);
        lemma_union(a, b, 3);
    }
}

impl PartialEq for QNum {
    /// IEEE equality of all four parts.
    fn eq(&self, other: &Self) -> (out: bool) {
        self.r == other.r && self.i == other.i && self.j == other.j && self.k == other.k
    }
}

impl vstd::std_specs::cmp::PartialEqSpecImpl for QNum {
    open spec fn obeys_eq_spec() -> bool {
        true
    }

    open spec fn eq_spec(&self, other: &Self) -> bool {
        self.equals(*other)
    }
}

impl QExpr {
    /// The conjugate of a quaternion that a formula yields is what the
    /// conjugate of the formula yields.
    pub proof fn lemma_conj<F: Fn(Prim) -> Binary32>(unit: &F, ea: QExpr, a: QNum)
        requires
            ea.yields(unit, a),
        ensures
            ea.conj().yields(unit, a.conj_spec()),
    {
    }

    /// The rotation quaternion of an angle that a formula yields is what
    /// the rotation quaternion of the formula yields.
    pub proof fn lemma_from_axis_angle<F: Fn(Prim) -> Binary32>(
        unit: &F,
        ea: Expr,
        ang: Binary32,
        axis: (Binary32, Binary32, Binary32),
        out: QNum,
    )
        requires
            yields(unit, ea, ang),
            QExpr::from_axis_angle(val(ang), (val(axis.0), val(axis.1), val(axis.2))).yields(
                unit,
                out,
            ),
        ensures
            QExpr::from_axis_angle(ea, (val(axis.0), val(axis.1), val(axis.2))).yields(unit, out),
    {
        reveal_with_fuel(yields, 5);
    }

    /// A quaternion that a formula yields, scaled by a value that a formula
    /// yields, is what the scaled formula yields.
    pub proof fn lemma_mult_r<F: Fn(Prim) -> Binary32>(
        unit: &F,
        ea: QExpr,
        ev: Expr,
        a: QNum,
        v: Binary32,
        out: QNum,
    )
        requires
            ea.yields(unit, a),
            yields(unit, ev, v),
            QExpr::of(a).mult_r(val(v)).yields(unit, out),
        ensures
            ea.mult_r(ev).yields(unit, out),
    {
        reveal_with_fuel(yields, 3);
    }

    /// The product of two quaternions that formulas yield is what the
    /// product of the formulas yields.
    pub proof fn lemma_mult_q<F: Fn(Prim) -> Binary32>(
        unit: &F,
        ea: QExpr,
        eb: QExpr,
        a: QNum,
        b: QNum,
        out: QNum,
    )
        requires
            ea.yields(unit, a),
            eb.yields(unit, b),
            QExpr::of(a).mult_q(QExpr::of(b)).yields(unit, out),
        ensures
            ea.mult_q(eb).yields(unit, out),
    {
        reveal_with_fuel(yields, 6);
    }
}

} // verus!
