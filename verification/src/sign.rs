//! The sign of a modulus.
//!
//! What a modulus comes to is what the arithmetic unit gives, and a unit
//! may give anything. A unit that keeps the rules of IEEE-754 for the sign
//! of a product and of a difference, and whose power with the exponent one
//! half keeps the sign of a base that is not negative, gives a modulus that
//! is never negative and never a NaN, for parts that are not NaN. A unit
//! that also keeps zeros gives the modulus zero for the number zero.
use vstd::prelude::*;
use crate::binary32::{Binary32, HALF};
use crate::complex::{CExpr, CNum};
use crate::quaternion::{QExpr, QNum};
use crate::unit::{gives, yields, BinOp, Prim};

verus! {

/// The product of `a` and `b` is defined: neither is a NaN, and they are
/// not a zero and an infinity.
pub open spec fn product_defined(a: Binary32, b: Binary32) -> bool {
    &&& !a.is_nan_spec()
    &&& !b.is_nan_spec()
    &&& !(a.is_zero_spec() && b.is_infinite_spec())
    &&& !(a.is_infinite_spec() && b.is_zero_spec())
}

/// The unit keeps the signs as IEEE-754 has them:
/// - a defined product is no NaN, and is negative where one factor is and
///   the other is not;
/// - what is not negative, less what is negative, is neither a NaN nor
///   negative;
/// - what is not negative, to the power one half, is neither a NaN nor
///   negative.
pub open spec fn keeps_signs<F: Fn(Prim) -> Binary32>(unit: &F) -> bool {
    &&& forall|a: Binary32, b: Binary32, out: Binary32|
        #[trigger] gives(unit, Prim::Binary(BinOp::Mul, a, b), out) && product_defined(a, b) ==> {
            &&& !out.is_nan_spec()
            &&& out.is_negative_spec() == (a.is_negative_spec() != b.is_negative_spec())
        }
    &&& forall|a: Binary32, b: Binary32, out: Binary32|
        #[trigger] gives(unit, Prim::Binary(BinOp::Sub, a, b), out) && !a.is_nan_spec()
            && !b.is_nan_spec() && !a.is_negative_spec() && b.is_negative_spec() ==> {
            &&& !out.is_nan_spec()
            &&& !out.is_negative_spec()
        }
    &&& forall|a: Binary32, out: Binary32|
        #[trigger] gives(unit, Prim::Binary(BinOp::Powf, a, Binary32 { bits: HALF }), out)
            && !a.is_nan_spec() && !a.is_negative_spec() ==> {
            &&& !out.is_nan_spec()
            &&& !out.is_negative_spec()
        }
}

/// The unit keeps zeros as IEEE-754 has them: a product of two zeros, a
/// difference of two zeros and a zero to the power one half are zeros.
pub open spec fn keeps_zeros<F: Fn(Prim) -> Binary32>(unit: &F) -> bool {
    &&& forall|a: Binary32, b: Binary32, out: Binary32|
        #[trigger] gives(unit, Prim::Binary(BinOp::Mul, a, b), out) && a.is_zero_spec()
            && b.is_zero_spec() ==> out.is_zero_spec()
    &&& forall|a: Binary32, b: Binary32, out: Binary32|
        #[trigger] gives(unit, Prim::Binary(BinOp::Sub, a, b), out) && a.is_zero_spec()
            && b.is_zero_spec() ==> out.is_zero_spec()
    &&& forall|a: Binary32, out: Binary32|
        #[trigger] gives(unit, Prim::Binary(BinOp::Powf, a, Binary32 { bits: HALF }), out)
            && a.is_zero_spec() ==> out.is_zero_spec()
}

/// `x` is not less than zero: it is no NaN, and it is a zero or has its
/// sign bit clear.
pub open spec fn not_below_zero(x: Binary32) -> bool {
    !x.is_nan_spec() && (x.is_zero_spec() || !x.is_negative_spec())
}

impl CNum {
    /// On a unit that keeps the signs, the modulus of a complex number
    /// whose parts are no NaNs is never negative and never a NaN.
    pub proof fn lemma_modl_not_negative<F: Fn(Prim) -> Binary32>(
        self,
        unit: &F,
        out: Binary32,
    )
        requires
            keeps_signs(unit),
            !self.r.is_nan_spec(),
            !self.i.is_nan_spec(),
            yields(unit, CExpr::of(self).modl(), out),
        ensures
            !out.is_nan_spec(),
            !out.is_negative_spec(),
            not_below_zero(out),
    {
        reveal_with_fuel(yields, 5);
        self.i.lemma_neg_keeps_magnitude();
    }

    /// On a unit that keeps zeros, the modulus of the complex number zero,
    /// of either sign in either part, is zero.
    pub proof fn lemma_modl_of_zero<F: Fn(Prim) -> Binary32>(self, unit: &F, out: Binary32)
        requires
            keeps_zeros(unit),
            self.r.is_zero_spec(),
            self.i.is_zero_spec(),
            yields(unit, CExpr::of(self).modl(), out),
        ensures
            out.is_zero_spec(),
    {
        reveal_with_fuel(yields, 5);
        self.i.lemma_neg_keeps_magnitude();
    }
}

impl QNum {
    /// On a unit that keeps the signs, the norm of a quaternion whose parts
    /// are no NaNs is never negative and never a NaN.
    pub proof fn lemma_norm_not_negative<F: Fn(Prim) -> Binary32>(
        self,
        unit: &F,
        out: Binary32,
    )
        requires
            keeps_signs(unit),
            !self.r.is_nan_spec(),
            !self.i.is_nan_spec(),
            !self.j.is_nan_spec(),
            !self.k.is_nan_spec(),
            yields(unit, QExpr::of(self).norm(), out),
        ensures
            !out.is_nan_spec(),
            !out.is_negative_spec(),
            not_below_zero(out),
    {
        reveal_with_fuel(yields, 6);
        self.i.lemma_neg_keeps_magnitude();
        self.j.lemma_neg_keeps_magnitude();
        self.k.lemma_neg_keeps_magnitude();
    }

    /// On a unit that keeps the signs, the modulus of a quaternion whose
    /// parts are no NaNs is never negative and never a NaN.
    pub proof fn lemma_modl_not_negative<F: Fn(Prim) -> Binary32>(
        self,
        unit: &F,
        out: Binary32,
    )
        requires
            keeps_signs(unit),
            !self.r.is_nan_spec(),
            !self.i.is_nan_spec(),
            !self.j.is_nan_spec(),
            !self.k.is_nan_spec(),
            yields(unit, QExpr::of(self).modl(), out),
        ensures
            !out.is_nan_spec(),
            !out.is_negative_spec(),
            not_below_zero(out),
    {
        reveal_with_fuel(yields, 2);
        let norm = choose|norm: Binary32|
            yields(unit, QExpr::of(self).norm(), norm) && #[trigger] gives(
                unit,
                Prim::Binary(BinOp::Powf, norm, Binary32 { bits: HALF }),
                out,
            );
        self.lemma_norm_not_negative(unit, norm);
    }

    /// On a unit that keeps zeros, the modulus of the quaternion zero, of
    /// either sign in any part, is zero.
    pub proof fn lemma_modl_of_zero<F: Fn(Prim) -> Binary32>(self, unit: &F, out: Binary32)
        requires
            keeps_zeros(unit),
            self.r.is_zero_spec(),
            self.i.is_zero_spec(),
            self.j.is_zero_spec(),
            self.k.is_zero_spec(),
            yields(unit, QExpr::of(self).modl(), out),
        ensures
            out.is_zero_spec(),
    {
        reveal_with_fuel(yields, 7);
        self.i.lemma_neg_keeps_magnitude();
        self.j.lemma_neg_keeps_magnitude();
        self.k.lemma_neg_keeps_magnitude();
    }
}

} // verus!
