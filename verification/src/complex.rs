//! Complex numbers.
use vstd::prelude::*;
use crate::binary32::{Binary32, HALF, MINUS_ONE, ONE, ZERO};
use crate::cassette::{eq, is_set, lemma_union};
use crate::unit::{
    angle, cosine, difference, lemma_yields_binary, lemma_yields_unary, lit, power, product,
    quotient, sine, sum, total, val, yields, BinOp, Expr, Prim, UnOp,
};

verus! {

/// Mask flag of the real part, component 0.
pub const R: u8 = 1;

/// Mask flag of the imaginary part, component 1.
pub const I: u8 = 2;

/// A complex number `r + i·î` with single-precision parts.
#[derive(Clone, Copy, Debug)]
pub struct CNum {
    pub r: Binary32,
    pub i: Binary32,
}

/// A complex number whose two parts are formulas. Its methods are the
/// formulas of the operations of [`CNum`].
pub struct CExpr {
    pub r: Expr,
    pub i: Expr,
}

impl CExpr {
    /// The parts of `c`, as they are.
    pub open spec fn of(c: CNum) -> CExpr {
        CExpr { r: val(c.r), i: val(c.i) }
    }

    /// Each part yields the corresponding part of `out`.
    pub open spec fn yields<F: Fn(Prim) -> Binary32>(self, unit: &F, out: CNum) -> bool {
        yields(unit, self.r, out.r) && yields(unit, self.i, out.i)
    }

    /// `(r, −i)`
    pub open spec fn conj(self) -> CExpr {
        CExpr { r: self.r, i: self.i.neg() }
    }

    /// `(r + v, i)`
    pub open spec fn add_r(self, v: Expr) -> CExpr {
        CExpr { r: self.r.plus(v), i: self.i }
    }

    /// `(r1 + r2, i1 + i2)`
    pub open spec fn add_c(self, v: CExpr) -> CExpr {
        CExpr { r: self.r.plus(v.r), i: self.i.plus(v.i) }
    }

    /// `(r·v, i·v)`
    pub open spec fn mult_r(self, v: Expr) -> CExpr {
        CExpr { r: self.r.times(v), i: self.i.times(v) }
    }

    /// `(r1·r2 − i1·i2, r1·i2 + i1·r2)`
    pub open spec fn mult_c(self, v: CExpr) -> CExpr {
        CExpr {
            r: self.r.times(v.r).minus(self.i.times(v.i)),
            i: self.r.times(v.i).plus(self.i.times(v.r)),
        }
    }

    /// The real part of `self · conj(self)`, raised to the power one half.
    pub open spec fn modl(self) -> Expr {
        self.mult_c(self.conj()).r.powf(lit(HALF))
    }

    /// `self · conj(v)`, scaled by one over the real part of `v · conj(v)`.
    pub open spec fn div_c(self, v: CExpr) -> CExpr {
        self.mult_c(v.conj()).mult_r(lit(ONE).over(v.mult_c(v.conj()).r))
    }

    /// The polar form: the modulus to the power `v`, times the cosine and
    /// the sine of `v` times the angle of the point `(r, i)`.
    pub open spec fn pow(self, v: Expr) -> CExpr {
        CExpr {
            r: self.modl().powf(v).times(v.times(self.i.atan2(self.r)).cos()),
            i: self.modl().powf(v).times(v.times(self.i.atan2(self.r)).sin()),
        }
    }

    /// `self` scaled by minus one.
    pub open spec fn neg(self) -> CExpr {
        self.mult_r(lit(MINUS_ONE))
    }
}

impl CNum {
    /// The conjugate: the imaginary part with its sign flipped.
    pub open spec fn conj_spec(self) -> CNum {
        CNum { r: self.r, i: self.i.neg_spec() }
    }

    /// The number after `set(c, v)`: `v` in the parts that the mask
    /// selects, the old part elsewhere.
    pub open spec fn set_spec(self, c: u8, v: Binary32) -> CNum {
        CNum {
            r: if is_set(c, 0) {
                v
            } else {
                self.r
            },
            i: if is_set(c, 1) {
                v
            } else {
                self.i
            },
        }
    }

    /// Equality of complex numbers: IEEE equality of both parts.
    pub open spec fn equals(self, other: CNum) -> bool {
        self.r.ieee_eq(other.r) && self.i.ieee_eq(other.i)
    }

    /// The complex number zero.
    pub fn make_zero() -> (out: CNum)
        ensures
            out == (CNum { r: Binary32 { bits: ZERO }, i: Binary32 { bits: ZERO } }),
    {
        CNum { r: Binary32::from_bits(ZERO), i: Binary32::from_bits(ZERO) }
    }

    /// The complex number with real part `r` and imaginary part `i`.
    pub fn make(r: Binary32, i: Binary32) -> (out: CNum)
        ensures
            out == (CNum { r, i }),
    {
        CNum { r, i }
    }

    /// A copy of the number.
    pub fn clone(&self) -> (out: CNum)
        ensures
            out == *self,
    {
        CNum { r: self.r, i: self.i }
    }

    /// The real and the imaginary part.
    pub fn get(&self) -> (out: (Binary32, Binary32))
        ensures
            out == (self.r, self.i),
    {
        (self.r, self.i)
    }

    /// The conjugate. It is exact.
    pub fn conj(&self) -> (out: CNum)
        ensures
            out == self.conj_spec(),
    {
        CNum { r: self.r, i: self.i.neg() }
    }

    /// The modulus.
    pub fn modl<F: Fn(Prim) -> Binary32>(&self, unit: &F) -> (out: Binary32)
        requires
            total(unit),
        ensures
            yields(unit, CExpr::of(*self).modl(), out),
    {
        let conj = self.conj();
        let square = self.mult_c(conj, unit);
        let out = power(square.r, Binary32::from_bits(HALF), unit);
        proof {
            let e = CExpr::of(*self);
            CExpr::lemma_conj(unit, e, *self);
            CExpr::lemma_mult_c(unit, e, e.conj(), *self, conj, square);
            lemma_yields_binary(
                unit,
                BinOp::Powf,
                e.mult_c(e.conj()).r,
                lit(HALF),
                square.r,
                Binary32 { bits: HALF },
                out,
            );
        }
        out
    }

    /// The sum with a real number: only the real part changes.
    pub fn add_r<F: Fn(Prim) -> Binary32>(&self, v: Binary32, unit: &F) -> (out: CNum)
        requires
            total(unit),
        ensures
            CExpr::of(*self).add_r(val(v)).yields(unit, out),
    {
        proof {
            reveal_with_fuel(yields, 2);
        }
        CNum { r: sum(self.r, v, unit), i: self.i }
    }

    /// The sum with a complex number, part by part.
    pub fn add_c<F: Fn(Prim) -> Binary32>(&self, v: CNum, unit: &F) -> (out: CNum)
        requires
            total(unit),
        ensures
            CExpr::of(*self).add_c(CExpr::of(v)).yields(unit, out),
    {
        proof {
            reveal_with_fuel(yields, 2);
        }
        CNum { r: sum(self.r, v.r, unit), i: sum(self.i, v.i, unit) }
    }

    /// The product with a real number: both parts are scaled.
    pub fn mult_r<F: Fn(Prim) -> Binary32>(&self, v: Binary32, unit: &F) -> (out: CNum)
        requires
            total(unit),
        ensures
            CExpr::of(*self).mult_r(val(v)).yields(unit, out),
    {
        proof {
            reveal_with_fuel(yields, 2);
        }
        CNum { r: product(self.r, v, unit), i: product(self.i, v, unit) }
    }

    /// The product with a complex number.
    pub fn mult_c<F: Fn(Prim) -> Binary32>(&self, v: CNum, unit: &F) -> (out: CNum)
        requires
            total(unit),
        ensures
            CExpr::of(*self).mult_c(CExpr::of(v)).yields(unit, out),
    {
        proof {
            reveal_with_fuel(yields, 3);
        }
        let (r, i) = self.get();
        CNum {
            r: difference(product(r, v.r, unit), product(i, v.i, unit), unit),
            i: sum(product(r, v.i, unit), product(i, v.r, unit), unit),
        }
    }

    /// The quotient by a complex number. Nothing guards a zero divisor: the
    /// unit is asked to divide one by whatever `v · conj(v)` gave, and what
    /// it answers is carried on.
    pub fn div_c<F: Fn(Prim) -> Binary32>(&self, v: CNum, unit: &F) -> (out: CNum)
        requires
            total(unit),
        ensures
            CExpr::of(*self).div_c(CExpr::of(v)).yields(unit, out),
    {
        let conj = v.conj();
        let square = v.mult_c(conj, unit);
        let numerator = self.mult_c(conj, unit);
        let scale = quotient(Binary32::from_bits(ONE), square.r, unit);
        let out = numerator.mult_r(scale, unit);
        proof {
            let a = CExpr::of(*self);
            let b = CExpr::of(v);
            CExpr::lemma_conj(unit, b, v);
            CExpr::lemma_mult_c(unit, b, b.conj(), v, conj, square);
            CExpr::lemma_mult_c(unit, a, b.conj(), *self, conj, numerator);
            lemma_yields_binary(
                unit,
                BinOp::Div,
                lit(ONE),
                b.mult_c(b.conj()).r,
                Binary32 { bits: ONE },
                square.r,
                scale,
            );
            CExpr::lemma_mult_r(
                unit,
                a.mult_c(b.conj()),
                lit(ONE).over(b.mult_c(b.conj()).r),
                numerator,
                scale,
                out,
            );
        }
        out
    }

    /// The power with a real exponent, by the polar form. For an exponent
    /// below one this is the principal root.
    pub fn pow<F: Fn(Prim) -> Binary32>(&self, v: Binary32, unit: &F) -> (out: CNum)
        requires
            total(unit),
        ensures
            CExpr::of(*self).pow(val(v)).yields(unit, out),
    {
        let r_modulus = self.modl(unit);
        let r_scale = power(r_modulus, v, unit);
        let r_angle = angle(self.i, self.r, unit);
        let r_turned = product(v, r_angle, unit);
        let r_cos = cosine(r_turned, unit);
        let r = product(r_scale, r_cos, unit);
        let i_modulus = self.modl(unit);
        let i_scale = power(i_modulus, v, unit);
        let i_angle = angle(self.i, self.r, unit);
        let i_turned = product(v, i_angle, unit);
        let i_sin = sine(i_turned, unit);
        let i = product(i_scale, i_sin, unit);
        proof {
            let e = CExpr::of(*self);
            let scale = e.modl().powf(val(v));
            let turned = val(v).times(e.i.atan2(e.r));
            lemma_yields_binary(unit, BinOp::Powf, e.modl(), val(v), r_modulus, v, r_scale);
            lemma_yields_binary(unit, BinOp::Powf, e.modl(), val(v), i_modulus, v, i_scale);
            lemma_yields_binary(unit, BinOp::Atan2, e.i, e.r, self.i, self.r, r_angle);
            lemma_yields_binary(unit, BinOp::Atan2, e.i, e.r, self.i, self.r, i_angle);
            lemma_yields_binary(unit, BinOp::Mul, val(v), e.i.atan2(e.r), v, r_angle, r_turned);
            lemma_yields_binary(unit, BinOp::Mul, val(v), e.i.atan2(e.r), v, i_angle, i_turned);
            lemma_yields_unary(unit, UnOp::Cos, turned, r_turned, r_cos);
            lemma_yields_unary(unit, UnOp::Sin, turned, i_turned, i_sin);
            lemma_yields_binary(unit, BinOp::Mul, scale, turned.cos(), r_scale, r_cos, r);
            lemma_yields_binary(unit, BinOp::Mul, scale, turned.sin(), i_scale, i_sin, i);
        }
        CNum { r, i }
    }

    /// A copy in which every part that the mask `c` selects is `v`.
    pub fn set(&self, c: u8, v: Binary32) -> (out: CNum)
        ensures
            out == self.set_spec(c, v),
    {
        let mut ret = self.clone();
        if eq(c, 0) {
            ret.r = v;
        }
        if eq(c, 1) {
            ret.i = v;
        }
        ret
    }

    /// The number scaled by minus one.
    pub fn neg<F: Fn(Prim) -> Binary32>(self, unit: &F) -> (out: CNum)
        requires
            total(unit),
        ensures
            CExpr::of(self).neg().yields(unit, out),
    {
        self.mult_r(Binary32::from_bits(MINUS_ONE), unit)
    }

    /// Conjugating twice gives the number back, bit for bit.
    pub proof fn lemma_conj_involution(self)
        ensures
            self.conj_spec().conj_spec() == self,
    {
        self.i.lemma_neg_involution();
    }

    /// The flag `R` selects the real part alone and the flag `I` the
    /// imaginary part alone, so `set` with one flag overwrites that part,
    /// with both flags both parts, and with the empty mask nothing.
    pub proof fn lemma_set_flags(self, v: Binary32)
        ensures
            self.set_spec(R, v) == (CNum { r: v, i: self.i }),
            self.set_spec(I, v) == (CNum { r: self.r, i: v }),
            self.set_spec(R | I, v) == (CNum { r: v, i: v }),
            self.set_spec(0, v) == self,
    {
        assert(is_set(1u8, 0) && !is_set(1u8, 1)) by (bit_vector);
        assert(!is_set(2u8, 0) && is_set(2u8, 1)) by (bit_vector);
        assert(is_set(1u8 | 2u8, 0) && is_set(1u8 | 2u8, 1)) by (bit_vector);
        assert(!is_set(0u8, 0) && !is_set(0u8, 1)) by (bit_vector);
    }

    /// One `set` with two masks combined by `|` does what two `set`s with
    /// the same value do, one mask after the other.
    pub proof fn lemma_set_union(self, a: u8, b: u8, v: Binary32)
        ensures
            self.set_spec(a | b, v) == self.set_spec(a, v).set_spec(b, v),
    {
        lemma_union(a, b, 0);
        lemma_union(a, b, 1);
    }
}

impl PartialEq for CNum {
    /// IEEE equality of both parts.
    fn eq(&self, other: &Self) -> (out: bool) {
        self.r == other.r && self.i == other.i
    }
}

impl vstd::std_specs::cmp::PartialEqSpecImpl for CNum {
    open spec fn obeys_eq_spec() -> bool {
        true
    }

    open spec fn eq_spec(&self, other: &Self) -> bool {
        self.equals(*other)
    }
}

impl CExpr {
    /// The conjugate of a number that a formula yields is what the
    /// conjugate of the formula yields.
    pub proof fn lemma_conj<F: Fn(Prim) -> Binary32>(unit: &F, ea: CExpr, a: CNum)
        requires
            ea.yields(unit, a),
        ensures
            ea.conj().yields(unit, a.conj_spec()),
    {
    }

    /// A number that a formula yields, scaled by a value that a formula
    /// yields, is what the scaled formula yields.
    pub proof fn lemma_mult_r<F: Fn(Prim) -> Binary32>(
        unit: &F,
        ea: CExpr,
        ev: Expr,
        a: CNum,
        v: Binary32,
        out: CNum,
    )
        requires
            ea.yields(unit, a),
            yields(unit, ev, v),
            CExpr::of(a).mult_r(val(v)).yields(unit, out),
        ensures
            ea.mult_r(ev).yields(unit, out),
    {
        reveal_with_fuel(yields, 3);
    }

    /// The power of a number that a formula yields, with an exponent that a
    /// formula yields, is what the power of the formulas yields.
    pub proof fn lemma_pow<F: Fn(Prim) -> Binary32>(
        unit: &F,
        ea: CExpr,
        ev: Expr,
        a: CNum,
        v: Binary32,
        out: CNum,
    )
        requires
            ea.yields(unit, a),
            yields(unit, ev, v),
            CExpr::of(a).pow(val(v)).yields(unit, out),
        ensures
            ea.pow(ev).yields(unit, out),
    {
        reveal_with_fuel(yields, 8);
    }

    /// The product of two numbers that formulas yield is what the product
    /// of the formulas yields.
    pub proof fn lemma_mult_c<F: Fn(Prim) -> Binary32>(
        unit: &F,
        ea: CExpr,
        eb: CExpr,
        a: CNum,
        b: CNum,
        out: CNum,
    )
        requires
            ea.yields(unit, a),
            eb.yields(unit, b),
            CExpr::of(a).mult_c(CExpr::of(b)).yields(unit, out),
        ensures
            ea.mult_c(eb).yields(unit, out),
    {
        reveal_with_fuel(yields, 4);
    }
}

} // verus!
