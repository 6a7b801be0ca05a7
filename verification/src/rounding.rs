//! A complex number divided by itself, within tolerance.
//!
//! A unit that rounds as IEEE-754 rounds to nearest gives, for a complex
//! number divided by itself, an imaginary part that is zero and a real
//! part within one part in a hundred thousand of one. The rules of that
//! rounding which the proof needs are stated of a model of the unit, over
//! the values that the encodings stand for.
use vstd::prelude::*;
use vstd::arithmetic::power2::{
    lemma2_to64, lemma_pow2_adds, lemma_pow2_pos, lemma_pow2_strictly_increases, pow2,
};
use crate::binary32::{Binary32, INFINITY, ONE};
use crate::complex::{CExpr, CNum};
use crate::unit::{eval, follows, lemma_yields_eval, BinOp, Prim};

verus! {

/// Two to the power 149, the scale of [`scaled`]: the value one.
pub open spec fn unity() -> int {
    0x20_0000_0000_0000_0000_0000_0000_0000_0000_0000int
}

/// Neither a NaN nor an infinity.
pub open spec fn finite(x: Binary32) -> bool {
    x.magnitude() < INFINITY
}

/// The eight exponent bits of an encoding.
pub open spec fn exponent(x: Binary32) -> nat {
    ((x.bits >> 23) & 0xff) as nat
}

/// The twenty-three fraction bits of an encoding.
pub open spec fn fraction(x: Binary32) -> nat {
    (x.bits & 0x7f_ffff) as nat
}

/// The value that a finite `x` stands for, times two to the power 149,
/// which makes an integer of every one of them: the fraction alone for a
/// subnormal number, and else the fraction with its leading one, shifted by
/// the exponent.
pub open spec fn scaled(x: Binary32) -> int {
    let m: int = if exponent(x) == 0 {
        fraction(x) as int
    } else {
        ((0x80_0000 + fraction(x)) * pow2((exponent(x) - 1) as nat)) as int
    };
    if x.is_negative_spec() {
        -m
    } else {
        m
    }
}

/// `x` is off `y` by at most one part in `parts` of `y`.
pub open spec fn close(x: int, y: int, parts: int) -> bool {
    (x - y) * parts <= y && (y - x) * parts <= y
}

/// The product of `a` and `b`, as the model answers it.
pub open spec fn times(model: spec_fn(Prim) -> Binary32, a: Binary32, b: Binary32) -> Binary32 {
    model(Prim::Binary(BinOp::Mul, a, b))
}

/// The rules of rounding to nearest that the quotient relies on, for a
/// model of the unit:
/// - a product that is no NaN changes its sign with the sign of a factor,
///   and is the same with the factors exchanged;
/// - a finite value added to its negation is a zero;
/// - a zero times a finite value is a zero;
/// - a quotient of two positive finite values that lies between two to the
///   power −128 and two to the power 127 is finite and is off by at most
///   one part in two to the power 22;
/// - a product of two positive finite values that lies between two to the
///   power −126 and two to the power 127 is finite and is off by at most
///   one part in two to the power 24.
pub open spec fn rounds_to_nearest(model: spec_fn(Prim) -> Binary32) -> bool {
    &&& forall|a: Binary32, b: Binary32|
        !(#[trigger] times(model, a, b)).is_nan_spec() ==> {
            &&& times(model, a, b.neg_spec()) == times(model, a, b).neg_spec()
            &&& times(model, b, a) == times(model, a, b)
        }
    &&& forall|x: Binary32|
        finite(x) ==> (#[trigger] model(Prim::Binary(BinOp::Add, x.neg_spec(), x))).is_zero_spec()
    &&& forall|z: Binary32, k: Binary32|
        z.is_zero_spec() && finite(k) ==> (#[trigger] times(model, z, k)).is_zero_spec()
    &&& forall|a: Binary32, b: Binary32|
        finite(a) && finite(b) && 0 < scaled(a) && 0 < scaled(b) && scaled(b) <= scaled(a)
            * 0x1_0000_0000_0000_0000_0000_0000_0000_0000int && scaled(a) <= scaled(b)
            * 0x8000_0000_0000_0000_0000_0000_0000_0000int ==> {
            let out = #[trigger] model(Prim::Binary(BinOp::Div, a, b));
            &&& finite(out)
            &&& close(scaled(out) * scaled(b), scaled(a) * unity(), 0x40_0000)
        }
    &&& forall|a: Binary32, b: Binary32|
        finite(a) && finite(b) && 0 < scaled(a) && 0 < scaled(b) && unity() * unity() <= scaled(a)
            * scaled(b) * 0x4000_0000_0000_0000_0000_0000_0000_0000int && scaled(a) * scaled(b)
            <= unity() * unity() * 0x8000_0000_0000_0000_0000_0000_0000_0000int ==> {
            let out = #[trigger] times(model, a, b);
            &&& finite(out)
            &&& close(scaled(out) * unity(), scaled(a) * scaled(b), 0x100_0000)
        }
}

/// Two to the power 126.
proof fn lemma_pow2_126()
    ensures
        pow2(126) == 0x4000_0000_0000_0000_0000_0000_0000_0000int,
{
    lemma2_to64();
    lemma_pow2_adds(64, 30);
    lemma_pow2_adds(94, 32);
    let (p64, p94) = (pow2(64) as int, pow2(94) as int);
    assert(p94 == 0x4000_0000_0000_0000_0000_0000int) by (nonlinear_arith)
        requires
            p94 == p64 * 0x4000_0000,
            p64 == 0x1_0000_0000_0000_0000int,
    ;
    assert(pow2(126) == 0x4000_0000_0000_0000_0000_0000_0000_0000int) by (nonlinear_arith)
        requires
            pow2(126) == p94 * 0x1_0000_0000,
            p94 == 0x4000_0000_0000_0000_0000_0000int,
    ;
}

/// The value with the encoding `ONE` is one.
pub proof fn lemma_scaled_one()
    ensures
        scaled(Binary32 { bits: ONE }) == unity(),
        finite(Binary32 { bits: ONE }),
{
    assert((0x3f80_0000u32 >> 23) & 0xff == 127) by (bit_vector);
    assert(0x3f80_0000u32 & 0x7f_ffff == 0) by (bit_vector);
    assert(0x3f80_0000u32 & 0x8000_0000 == 0) by (bit_vector);
    assert(0x3f80_0000u32 & 0x7fff_ffff == 0x3f80_0000) by (bit_vector);
    lemma_pow2_126();
    assert(0x80_0000 * 0x4000_0000_0000_0000_0000_0000_0000_0000int == unity());
}

/// Every finite value lies between minus two to the power 128 and two to
/// the power 128, and is not negative unless its sign bit is set.
pub proof fn lemma_scaled_bound(x: Binary32)
    requires
        finite(x),
    ensures
        -unity() * 0x1_0000_0000_0000_0000_0000_0000_0000_0000int < scaled(x),
        scaled(x) < unity() * 0x1_0000_0000_0000_0000_0000_0000_0000_0000int,
        !x.is_negative_spec() ==> 0 <= scaled(x),
{
    let b = x.bits;
    assert((b & 0x7fff_ffff) < 0x7f80_0000 ==> ((b >> 23) & 0xff) <= 254) by (bit_vector);
    assert((b & 0x7f_ffff) < 0x80_0000) by (bit_vector);
    let e = exponent(x);
    let m = fraction(x);
    if e != 0 {
        lemma_pow2_126();
        lemma_pow2_adds(126, 126);
        lemma_pow2_adds(252, 1);
        lemma2_to64();
        lemma_pow2_pos((e - 1) as nat);
        if e - 1 < 253 {
            lemma_pow2_strictly_increases((e - 1) as nat, 253);
        }
        let p: int = pow2((e - 1) as nat) as int;
        let top: int = pow2(253) as int;
        assert(top == 0x4000_0000_0000_0000_0000_0000_0000_0000int
            * 0x4000_0000_0000_0000_0000_0000_0000_0000int * 2) by (nonlinear_arith)
            requires
                top == pow2(252) * 2,
                pow2(252) == pow2(126) * pow2(126),
                pow2(126) == 0x4000_0000_0000_0000_0000_0000_0000_0000int,
        ;
        assert(0 <= (0x80_0000 + m) * p < 0x100_0000 * top) by (nonlinear_arith)
            requires
                0 <= m < 0x80_0000,
                0 < p <= top,
        ;
        assert(0x100_0000 * (0x4000_0000_0000_0000_0000_0000_0000_0000int
            * 0x4000_0000_0000_0000_0000_0000_0000_0000int * 2) == unity()
            * 0x1_0000_0000_0000_0000_0000_0000_0000_0000int);
    }
}

/// A reciprocal `r` of `d`, off by one part in two to the power 22, is
/// positive, and its product with `d` lies between two to the power −126
/// and two to the power 127.
proof fn lemma_reciprocal(d: int, r: int)
    requires
        0 < d,
        close(r * d, unity() * unity(), 0x40_0000),
    ensures
        0 < r,
        unity() * unity() <= d * r * 0x4000_0000_0000_0000_0000_0000_0000_0000int,
        d * r <= unity() * unity() * 0x8000_0000_0000_0000_0000_0000_0000_0000int,
{
    let p = r * d;
    assert(d * r == p);
    assert(unity() * unity()
        == 0x400_0000_0000_0000_0000_0000_0000_0000_0000_0000_0000_0000_0000_0000_0000_0000_0000_0000_0000int);
    assert(0 < p);
    assert(0 < r) by (nonlinear_arith)
        requires
            0 < d,
            0 < r * d,
    ;
}

/// A product `a` of `d` and its reciprocal `r`, each off by what rounding
/// allows, is within one part in a hundred thousand of one.
proof fn lemma_product_with_reciprocal(d: int, r: int, a: int)
    requires
        close(r * d, unity() * unity(), 0x40_0000),
        close(a * unity(), d * r, 0x100_0000),
    ensures
        close(a, unity(), 100000),
{
    let p = r * d;
    assert(d * r == p);
    assert(unity() * unity()
        == 0x400_0000_0000_0000_0000_0000_0000_0000_0000_0000_0000_0000_0000_0000_0000_0000_0000_0000_0000int);
}

impl CNum {
    /// On a unit that rounds to nearest, a complex number divided by
    /// itself has an imaginary part that is zero and a real part within
    /// one part in a hundred thousand of one. This is so wherever the
    /// product of its two parts is finite and its norm `r·r − i·(−i)`, as
    /// the unit gives it, is finite and at least two to the power −100.
    pub proof fn lemma_div_self<F: Fn(Prim) -> Binary32>(
        self,
        unit: &F,
        model: spec_fn(Prim) -> Binary32,
        out: CNum,
    )
        requires
            follows(unit, model),
            rounds_to_nearest(model),
            finite(times(model, self.r, self.i)),
            ({
                let norm = eval(model, CExpr::of(self).mult_c(CExpr::of(self).conj()).r);
                &&& finite(norm)
                &&& 0x2_0000_0000_0000int <= scaled(norm)
            }),
            CExpr::of(self).div_c(CExpr::of(self)).yields(unit, out),
        ensures
            out.i.is_zero_spec(),
            finite(out.r),
            close(scaled(out.r), unity(), 100000),
    {
        let e = CExpr::of(self);
        let q = e.div_c(e);
        lemma_yields_eval(unit, model, q.r, out.r);
        lemma_yields_eval(unit, model, q.i, out.i);
        let one = Binary32 { bits: ONE };
        let norm = eval(model, e.mult_c(e.conj()).r);
        let k = model(Prim::Binary(BinOp::Div, one, norm));
        let x = times(model, self.r, self.i);
        let ni = model(Prim::Binary(BinOp::Add, x.neg_spec(), x));
        assert(out.r == times(model, norm, k) && out.i == times(model, ni, k)
            && times(model, self.r, self.i.neg_spec()) == x.neg_spec() && times(
            model,
            self.i,
            self.r,
        ) == x) by {
            reveal_with_fuel(eval, 6);
        }
        // The reciprocal of the norm is finite and close.
        lemma_scaled_one();
        lemma_scaled_bound(norm);
        assert(finite(k) && close(scaled(k) * scaled(norm), unity() * unity(), 0x40_0000));
        // The imaginary part is a zero times the reciprocal.
        assert(ni.is_zero_spec());
        assert(out.i.is_zero_spec());
        // The real part is the norm times the reciprocal.
        lemma_reciprocal(scaled(norm), scaled(k));
        assert(finite(out.r) && close(
            scaled(out.r) * unity(),
            scaled(norm) * scaled(k),
            0x100_0000,
        ));
        lemma_product_with_reciprocal(scaled(norm), scaled(k), scaled(out.r));
    }
}

} // verus!
