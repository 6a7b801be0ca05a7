//! The formulas in exact arithmetic.
//!
//! On an arithmetic unit every operation rounds, and none of the usual
//! laws of algebra holds of what it gives. They hold of the formulas: this
//! module reads a formula as a polynomial over the integers and proves,
//! of the formulas that the library evaluates, that a number times its
//! conjugate is its norm, that the norm of a product is the product of the
//! norms, that a rotation keeps the norm, and that a number times its
//! inverse is the norm times its reciprocal.
use vstd::prelude::*;
use crate::binary32::{HALF_TURN, ONE, PI, TWO};
use crate::complex::CExpr;
use crate::quaternion::QExpr;
use crate::NExpr;
use crate::unit::{lit, BinOp, Expr};
use vstd::arithmetic::mul::{
    lemma_mul_is_associative, lemma_mul_is_distributive_add,
    lemma_mul_is_distributive_add_other_way, lemma_mul_unary_negation,
};

verus! {

/// The value of the formula `e` in exact arithmetic. Negations, sums,
/// differences and products are those of the integers. Every other node,
/// be it a value, a quotient, a power, an angle, a cosine or a sine, is an
/// indeterminate, and `atom` gives its value.
///
/// What holds of `exact` for every `atom` is an identity of polynomials
/// with integer coefficients, and so holds in every commutative ring.
pub open spec fn exact(e: Expr, atom: spec_fn(Expr) -> int) -> int
    decreases e,
{
    match e {
        Expr::Neg(a) => -exact(*a, atom),
        Expr::Binary(op, a, b) => match op {
            BinOp::Add => exact(*a, atom) + exact(*b, atom),
            BinOp::Sub => exact(*a, atom) - exact(*b, atom),
            BinOp::Mul => exact(*a, atom) * exact(*b, atom),
            _ => atom(e),
        },
        _ => atom(e),
    }
}

/// A complex number with integer parts.
pub struct Gaussian {
    pub r: int,
    pub i: int,
}

/// A quaternion with integer parts.
pub struct Lipschitz {
    pub r: int,
    pub i: int,
    pub j: int,
    pub k: int,
}

impl Gaussian {
    /// `(r, −i)`
    pub open spec fn conj(self) -> Gaussian {
        Gaussian { r: self.r, i: -self.i }
    }

    /// `(r·v, i·v)`
    pub open spec fn scaled(self, v: int) -> Gaussian {
        Gaussian { r: self.r * v, i: self.i * v }
    }

    /// `(r1·r2 − i1·i2, r1·i2 + i1·r2)`
    pub open spec fn times(self, v: Gaussian) -> Gaussian {
        Gaussian { r: self.r * v.r - self.i * v.i, i: self.r * v.i + self.i * v.r }
    }

    /// `r² + i²`
    pub open spec fn norm(self) -> int {
        self.r * self.r + self.i * self.i
    }

    /// A number times its conjugate is its norm, which is not negative and
    /// is zero for the number zero alone.
    pub proof fn lemma_times_conj(self)
        ensures
            self.times(self.conj()) == (Gaussian { r: self.norm(), i: 0 }),
            self.norm() >= 0,
            self.norm() == 0 <==> self == (Gaussian { r: 0, i: 0 }),
    {
        lemma_neg_mul(self.i, self.i);
        lemma_neg_mul(self.r, self.i);
        lemma_commute(self.i, self.r);
        lemma_square(self.r);
        lemma_square(self.i);
    }

    /// The norm of a product is the product of the norms.
    pub proof fn lemma_norm_times(self, v: Gaussian)
        ensures
            self.times(v).norm() == self.norm() * v.norm(),
    {
        let (a, b, c, d) = (self.r, self.i, v.r, v.i);
        // With two zero parts on either side, the four squares are two.
        lemma_four_squares(a, b, 0, 0, c, d, 0, 0);
        assert(0 * c == 0 && 0 * d == 0 && a * 0 == 0 && b * 0 == 0 && 0 * 0 == 0);
    }
}

impl Lipschitz {
    /// The complex number `v` as a quaternion: `(r, i, 0, 0)`.
    pub open spec fn of(v: Gaussian) -> Lipschitz {
        Lipschitz { r: v.r, i: v.i, j: 0, k: 0 }
    }

    /// The integer `v` as a quaternion: `(v, 0, 0, 0)`.
    pub open spec fn of_int(v: int) -> Lipschitz {
        Lipschitz { r: v, i: 0, j: 0, k: 0 }
    }

    /// The sum, part by part.
    pub open spec fn plus(self, v: Lipschitz) -> Lipschitz {
        Lipschitz { r: self.r + v.r, i: self.i + v.i, j: self.j + v.j, k: self.k + v.k }
    }

    /// `(r, −i, −j, −k)`
    pub open spec fn conj(self) -> Lipschitz {
        Lipschitz { r: self.r, i: -self.i, j: -self.j, k: -self.k }
    }

    /// `(r·v, i·v, j·v, k·v)`
    pub open spec fn scaled(self, v: int) -> Lipschitz {
        Lipschitz { r: self.r * v, i: self.i * v, j: self.j * v, k: self.k * v }
    }

    /// The Hamilton product `self · v`.
    pub open spec fn times(self, v: Lipschitz) -> Lipschitz {
        Lipschitz {
            r: self.r * v.r - self.i * v.i - self.j * v.j - self.k * v.k,
            i: self.r * v.i + self.i * v.r + self.j * v.k - self.k * v.j,
            j: self.r * v.j - self.i * v.k + self.j * v.r + self.k * v.i,
            k: self.r * v.k + self.i * v.j - self.j * v.i + self.k * v.r,
        }
    }

    /// `r² + i² + j² + k²`
    pub open spec fn norm(self) -> int {
        self.r * self.r + self.i * self.i + self.j * self.j + self.k * self.k
    }

    /// A quaternion times its conjugate is its norm, which is not negative
    /// and is zero for the quaternion zero alone.
    pub proof fn lemma_times_conj(self)
        ensures
            self.times(self.conj()) == (Lipschitz { r: self.norm(), i: 0, j: 0, k: 0 }),
            self.norm() >= 0,
            self.norm() == 0 <==> self == (Lipschitz { r: 0, i: 0, j: 0, k: 0 }),
    {
        let (r, i, j, k) = (self.r, self.i, self.j, self.k);
        lemma_neg_mul(r, i);
        lemma_neg_mul(r, j);
        lemma_neg_mul(r, k);
        lemma_neg_mul(i, i);
        lemma_neg_mul(i, j);
        lemma_neg_mul(i, k);
        lemma_neg_mul(j, i);
        lemma_neg_mul(j, j);
        lemma_neg_mul(j, k);
        lemma_neg_mul(k, i);
        lemma_neg_mul(k, j);
        lemma_neg_mul(k, k);
        lemma_commute(i, r);
        lemma_commute(j, r);
        lemma_commute(k, r);
        lemma_commute(i, j);
        lemma_commute(i, k);
        lemma_commute(j, k);
        lemma_square(r);
        lemma_square(i);
        lemma_square(j);
        lemma_square(k);
    }

    /// The conjugate has the same norm.
    pub proof fn lemma_norm_conj(self)
        ensures
            self.conj().norm() == self.norm(),
    {
        lemma_neg_mul(self.i, self.i);
        lemma_neg_mul(self.j, self.j);
        lemma_neg_mul(self.k, self.k);
    }

    /// The norm of a product is the product of the norms.
    pub proof fn lemma_norm_times(self, v: Lipschitz)
        ensures
            self.times(v).norm() == self.norm() * v.norm(),
    {
        lemma_four_squares(self.r, self.i, self.j, self.k, v.r, v.i, v.j, v.k);
    }

    /// The sandwich product `q · v · conj(q)` has the norm of `v` times the
    /// square of the norm of `q`: a `q` of norm one keeps the norm of `v`.
    pub proof fn lemma_norm_sandwich(self, v: Lipschitz)
        ensures
            self.times(v).times(self.conj()).norm() == self.norm() * v.norm() * self.norm(),
            self.norm() == 1 ==> self.times(v).times(self.conj()).norm() == v.norm(),
    {
        self.lemma_norm_times(v);
        self.times(v).lemma_norm_times(self.conj());
        self.lemma_norm_conj();
        assert(1 * v.norm() * 1 == v.norm());
    }

    /// A product with a complex number on the right has no use for the
    /// terms with the two parts that the complex number lacks: what is left
    /// of the Hamilton product is `(r·c.r − i·c.i, i·c.r + r·c.i, j·c.r +
    /// k·c.i, k·c.r − j·c.i)`.
    pub proof fn lemma_times_gaussian(self, c: Gaussian)
        ensures
            self.times(Lipschitz::of(c)) == (Lipschitz {
                r: self.r * c.r - self.i * c.i,
                i: self.i * c.r + self.r * c.i,
                j: self.j * c.r + self.k * c.i,
                k: self.k * c.r - self.j * c.i,
            }),
    {
    }
    /// A product with a complex number on the left has no use for the
    /// terms with the two parts that the complex number lacks: what is left
    /// of the Hamilton product is `(c.r·r − c.i·i, c.r·i + c.i·r, c.r·j −
    /// c.i·k, c.r·k + c.i·j)`.
    pub proof fn lemma_gaussian_times(self, c: Gaussian)
        ensures
            Lipschitz::of(c).times(self) == (Lipschitz {
                r: c.r * self.r - c.i * self.i,
                i: c.r * self.i + c.i * self.r,
                j: c.r * self.j - c.i * self.k,
                k: c.r * self.k + c.i * self.j,
            }),
    {
    }
}

/// A square is not negative, and is zero for zero alone.
proof fn lemma_square(x: int)
    by (nonlinear_arith)
    ensures
        x * x >= 0,
        x * x == 0 <==> x == 0,
{
}

/// A product with its factors in the other order.
proof fn lemma_commute(x: int, y: int)
    ensures
        x * y == y * x,
{
}

/// The sign of a product.
proof fn lemma_neg_mul(x: int, y: int)
    ensures
        (-x) * y == -(x * y),
        x * (-y) == -(x * y),
        (-x) * (-y) == x * y,
{
    lemma_mul_unary_negation(x, y);
    lemma_mul_unary_negation(x, -y);
}

/// The product of two products, with the right factors exchanged, and the
/// square of a product.
proof fn lemma_swap(x: int, y: int, z: int, w: int)
    ensures
        (x * y) * (z * w) == (x * w) * (z * y),
        (x * y) * (x * y) == (x * x) * (y * y),
{
    // (x·y)·(z·w) = x·(y·(z·w)) = x·((y·z)·w) = x·((z·y)·w) = x·(w·(z·y))
    lemma_mul_is_associative(x, y, z * w);
    lemma_mul_is_associative(y, z, w);
    lemma_commute(y, z);
    lemma_commute(z * y, w);
    lemma_mul_is_associative(x, w, z * y);
    // (x·y)·(x·y) = x·(y·(x·y)) = x·((y·x)·y) = x·((x·y)·y) = x·(x·(y·y))
    lemma_mul_is_associative(x, y, x * y);
    lemma_mul_is_associative(y, x, y);
    lemma_commute(y, x);
    lemma_mul_is_associative(x, y, y);
    lemma_mul_is_associative(x, x, y * y);
}

/// A sum of four terms times a factor.
proof fn lemma_distribute_right(a: int, b: int, c: int, d: int, y: int)
    ensures
        (a + b + c + d) * y == a * y + b * y + c * y + d * y,
{
    lemma_mul_is_distributive_add_other_way(y, a + b + c, d);
    lemma_mul_is_distributive_add_other_way(y, a + b, c);
    lemma_mul_is_distributive_add_other_way(y, a, b);
}

/// A factor times a sum of four terms.
proof fn lemma_distribute_left(x: int, e: int, f: int, g: int, h: int)
    ensures
        x * (e + f + g + h) == x * e + x * f + x * g + x * h,
{
    lemma_mul_is_distributive_add(x, e + f + g, h);
    lemma_mul_is_distributive_add(x, e + f, g);
    lemma_mul_is_distributive_add(x, e, f);
}

/// The product of two sums of four terms.
proof fn lemma_product_of_sums(a: int, b: int, c: int, d: int, e: int, f: int, g: int, h: int)
    ensures
        (a + b + c + d) * (e + f + g + h) == a * e + a * f + a * g + a * h + b * e + b * f + b * g
            + b * h + c * e + c * f + c * g + c * h + d * e + d * f + d * g + d * h,
{
    lemma_distribute_right(a, b, c, d, e + f + g + h);
    lemma_distribute_left(a, e, f, g, h);
    lemma_distribute_left(b, e, f, g, h);
    lemma_distribute_left(c, e, f, g, h);
    lemma_distribute_left(d, e, f, g, h);
}

/// The square of a sum of four terms.
proof fn lemma_square_of_four(x: int, y: int, z: int, w: int)
    ensures
        (x + y + z + w) * (x + y + z + w) == x * x + y * y + z * z + w * w + 2 * (x * y) + 2 * (x
            * z) + 2 * (x * w) + 2 * (y * z) + 2 * (y * w) + 2 * (z * w),
{
    lemma_product_of_sums(x, y, z, w, x, y, z, w);
    lemma_commute(y, x);
    lemma_commute(z, x);
    lemma_commute(w, x);
    lemma_commute(z, y);
    lemma_commute(w, y);
    lemma_commute(w, z);
}

/// Euler's four-square identity, with the four sums that are the parts of
/// a Hamilton product.
proof fn lemma_four_squares(a: int, b: int, c: int, d: int, e: int, f: int, g: int, h: int)
    ensures
        (a * e - b * f - c * g - d * h) * (a * e - b * f - c * g - d * h) + (a * f + b * e + c * h
            - d * g) * (a * f + b * e + c * h - d * g) + (a * g - b * h + c * e + d * f) * (a * g
            - b * h + c * e + d * f) + (a * h + b * g - c * f + d * e) * (a * h + b * g - c * f + d
            * e) == (a * a + b * b + c * c + d * d) * (e * e + f * f + g * g + h * h),
{
    let (ae, af, ag, ah) = (a * e, a * f, a * g, a * h);
    let (be, bf, bg, bh) = (b * e, b * f, b * g, b * h);
    let (ce, cf, cg, ch) = (c * e, c * f, c * g, c * h);
    let (de, df, dg, dh) = (d * e, d * f, d * g, d * h);
    // Each of the four squares, as squares and cross terms.
    lemma_square_of_four(ae, -bf, -cg, -dh);
    lemma_square_of_four(af, be, ch, -dg);
    lemma_square_of_four(ag, -bh, ce, df);
    lemma_square_of_four(ah, bg, -cf, de);
    // The signs of those terms.
    lemma_neg_mul(bf, bf);
    lemma_neg_mul(cg, cg);
    lemma_neg_mul(dh, dh);
    lemma_neg_mul(dg, dg);
    lemma_neg_mul(bh, bh);
    lemma_neg_mul(cf, cf);
    lemma_neg_mul(ae, bf);
    lemma_neg_mul(ae, cg);
    lemma_neg_mul(ae, dh);
    lemma_neg_mul(bf, cg);
    lemma_neg_mul(bf, dh);
    lemma_neg_mul(cg, dh);
    lemma_neg_mul(af, dg);
    lemma_neg_mul(be, dg);
    lemma_neg_mul(ch, dg);
    lemma_neg_mul(ag, bh);
    lemma_neg_mul(bh, ce);
    lemma_neg_mul(bh, df);
    lemma_neg_mul(ah, cf);
    lemma_neg_mul(bg, cf);
    lemma_neg_mul(cf, de);
    // The cross terms cancel in twelve pairs.
    lemma_swap(a, e, b, f);
    lemma_swap(a, e, c, g);
    lemma_swap(a, e, d, h);
    lemma_swap(b, f, c, g);
    lemma_swap(b, f, d, h);
    lemma_swap(c, g, d, h);
    lemma_swap(a, f, c, h);
    lemma_swap(a, f, d, g);
    lemma_swap(b, e, c, h);
    lemma_swap(b, e, d, g);
    lemma_swap(a, g, b, h);
    lemma_swap(c, e, d, f);
    // The sixteen squares that are left are the terms of the product.
    lemma_swap(a, e, a, e);
    lemma_swap(a, f, a, f);
    lemma_swap(a, g, a, g);
    lemma_swap(a, h, a, h);
    lemma_swap(b, e, b, e);
    lemma_swap(b, f, b, f);
    lemma_swap(b, g, b, g);
    lemma_swap(b, h, b, h);
    lemma_swap(c, e, c, e);
    lemma_swap(c, f, c, f);
    lemma_swap(c, g, c, g);
    lemma_swap(c, h, c, h);
    lemma_swap(d, e, d, e);
    lemma_swap(d, f, d, f);
    lemma_swap(d, g, d, g);
    lemma_swap(d, h, d, h);
    lemma_product_of_sums(a * a, b * b, c * c, d * d, e * e, f * f, g * g, h * h);
}

impl CExpr {
    /// The two parts in exact arithmetic.
    pub open spec fn exact(self, atom: spec_fn(Expr) -> int) -> Gaussian {
        Gaussian { r: exact(self.r, atom), i: exact(self.i, atom) }
    }

    /// In exact arithmetic the conjugate, the product with a real number
    /// and the product of the formulas are those of the numbers with
    /// integer parts.
    pub proof fn lemma_exact(self, v: CExpr, s: Expr, atom: spec_fn(Expr) -> int)
        ensures
            self.conj().exact(atom) == self.exact(atom).conj(),
            self.mult_r(s).exact(atom) == self.exact(atom).scaled(exact(s, atom)),
            self.mult_c(v).exact(atom) == self.exact(atom).times(v.exact(atom)),
    {
        reveal_with_fuel(exact, 3);
    }

    /// In exact arithmetic a number times its conjugate is its norm, the
    /// sum of the squares of its parts, which is not negative: this is what
    /// the formula of the modulus raises to the power one half.
    pub proof fn lemma_exact_square(self, atom: spec_fn(Expr) -> int)
        ensures
            self.mult_c(self.conj()).exact(atom) == (Gaussian {
                r: self.exact(atom).norm(),
                i: 0,
            }),
            self.exact(atom).norm() >= 0,
    {
        self.lemma_exact(self.conj(), self.r, atom);
        self.exact(atom).lemma_times_conj();
    }

    /// In exact arithmetic the modulus of a product is the product of the
    /// moduli: the norms multiply.
    pub proof fn lemma_exact_norm_product(self, v: CExpr, atom: spec_fn(Expr) -> int)
        ensures
            self.mult_c(v).exact(atom).norm() == self.exact(atom).norm() * v.exact(atom).norm(),
    {
        self.lemma_exact(v, self.r, atom);
        self.exact(atom).lemma_norm_times(v.exact(atom));
    }

    /// In exact arithmetic a number divided by itself is its norm times
    /// the reciprocal of its norm, with no imaginary part: it is one
    /// wherever that product is one.
    pub proof fn lemma_exact_div_self(self, atom: spec_fn(Expr) -> int)
        ensures
            self.div_c(self).exact(atom) == (Gaussian {
                r: self.exact(atom).norm() * atom(lit(ONE).over(self.mult_c(self.conj()).r)),
                i: 0,
            }),
    {
        let reciprocal = lit(ONE).over(self.mult_c(self.conj()).r);
        self.lemma_exact_square(atom);
        self.mult_c(self.conj()).lemma_exact(self, reciprocal, atom);
        assert(exact(reciprocal, atom) == atom(reciprocal));
        assert(0 * atom(reciprocal) == 0);
    }
}

impl QExpr {
    /// The four parts in exact arithmetic.
    pub open spec fn exact(self, atom: spec_fn(Expr) -> int) -> Lipschitz {
        Lipschitz {
            r: exact(self.r, atom),
            i: exact(self.i, atom),
            j: exact(self.j, atom),
            k: exact(self.k, atom),
        }
    }

    /// In exact arithmetic the conjugate, the product with a real number,
    /// the products with a complex number on the right and on the left, the
    /// product of the formulas and the norm are those of the quaternions
    /// with integer parts.
    pub proof fn lemma_exact(self, v: QExpr, c: CExpr, s: Expr, atom: spec_fn(Expr) -> int)
        ensures
            self.conj().exact(atom) == self.exact(atom).conj(),
            self.mult_r(s).exact(atom) == self.exact(atom).scaled(exact(s, atom)),
            self.mult_c(c).exact(atom) == self.exact(atom).times(Lipschitz::of(c.exact(atom))),
            self.mult_c_left(c).exact(atom) == Lipschitz::of(c.exact(atom)).times(
                self.exact(atom),
            ),
            self.mult_q(v).exact(atom) == self.exact(atom).times(v.exact(atom)),
            exact(self.norm(), atom) == self.exact(atom).norm(),
    {
        reveal_with_fuel(exact, 5);
        self.exact(atom).lemma_times_gaussian(c.exact(atom));
        self.exact(atom).lemma_gaussian_times(c.exact(atom));
        self.exact(atom).lemma_times_conj();
    }

    /// In exact arithmetic a quaternion times its conjugate is its norm,
    /// the sum of the squares of its parts, which is not negative.
    pub proof fn lemma_exact_square(self, atom: spec_fn(Expr) -> int)
        ensures
            self.mult_q(self.conj()).exact(atom) == (Lipschitz {
                r: self.exact(atom).norm(),
                i: 0,
                j: 0,
                k: 0,
            }),
            exact(self.norm(), atom) == self.exact(atom).norm(),
            exact(self.norm(), atom) >= 0,
    {
        self.lemma_exact(self.conj(), CExpr { r: self.r, i: self.i }, self.r, atom);
        self.exact(atom).lemma_times_conj();
    }

    /// In exact arithmetic the norm of a product is the product of the
    /// norms.
    pub proof fn lemma_exact_norm_product(self, v: QExpr, atom: spec_fn(Expr) -> int)
        ensures
            exact(self.mult_q(v).norm(), atom) == exact(self.norm(), atom) * exact(
                v.norm(),
                atom,
            ),
    {
        let c = CExpr { r: self.r, i: self.i };
        self.lemma_exact(v, c, self.r, atom);
        v.lemma_exact(v, c, self.r, atom);
        self.mult_q(v).lemma_exact(v, c, self.r, atom);
        self.exact(atom).lemma_norm_times(v.exact(atom));
    }

    /// In exact arithmetic the rotation `self · v · conj(self)` has the
    /// norm of `v` times the square of the norm of `self`: a rotation
    /// quaternion of norm one keeps the norm of what it turns.
    pub proof fn lemma_exact_rotation(self, v: QExpr, atom: spec_fn(Expr) -> int)
        ensures
            exact(self.mult_q(v).mult_q(self.conj()).norm(), atom) == exact(self.norm(), atom)
                * exact(v.norm(), atom) * exact(self.norm(), atom),
            exact(self.norm(), atom) == 1 ==> exact(
                self.mult_q(v).mult_q(self.conj()).norm(),
                atom,
            ) == exact(v.norm(), atom),
    {
        let c = CExpr { r: self.r, i: self.i };
        self.lemma_exact(v, c, self.r, atom);
        v.lemma_exact(v, c, self.r, atom);
        self.mult_q(v).lemma_exact(self.conj(), c, self.r, atom);
        self.mult_q(v).mult_q(self.conj()).lemma_exact(v, c, self.r, atom);
        self.exact(atom).lemma_norm_sandwich(v.exact(atom));
    }

    /// In exact arithmetic a quaternion times its inverse is its norm times
    /// the reciprocal of its norm, with no imaginary part: it is one
    /// wherever that product is one.
    pub proof fn lemma_exact_inverse(self, atom: spec_fn(Expr) -> int)
        ensures
            self.mult_q(self.inv()).exact(atom) == (Lipschitz {
                r: exact(self.norm(), atom) * atom(lit(ONE).over(self.norm())),
                i: 0,
                j: 0,
                k: 0,
            }),
    {
        let reciprocal = lit(ONE).over(self.norm());
        let c = CExpr { r: self.r, i: self.i };
        let d = atom(reciprocal);
        let q = self.exact(atom);
        assert(exact(reciprocal, atom) == d);
        self.lemma_exact(self.inv(), c, reciprocal, atom);
        self.conj().lemma_exact(self, c, reciprocal, atom);
        q.lemma_times_conj();
        lemma_scaled_right(q, q.conj(), d);
        assert(0 * d == 0);
    }
}

impl QExpr {
    /// In exact arithmetic the norm of the rotation quaternion of an angle
    /// about an axis is `c² + s²·(x² + y² + z²)`, where `c` and `s` are the
    /// cosine and the sine of half the angle and `(x, y, z)` is the axis. It
    /// is one where `c² + s²` is one and the axis has length one.
    pub proof fn lemma_exact_axis_angle(
        ang: Expr,
        axis: (Expr, Expr, Expr),
        atom: spec_fn(Expr) -> int,
    )
        ensures
            ({
                let c = atom(ang.over(lit(TWO)).cos());
                let s = atom(ang.over(lit(TWO)).sin());
                let (x, y, z) = (exact(axis.0, atom), exact(axis.1, atom), exact(axis.2, atom));
                exact(QExpr::from_axis_angle(ang, axis).norm(), atom) == c * c + (s * s) * (x * x
                    + y * y + z * z)
            }),
    {
        let q = QExpr::from_axis_angle(ang, axis);
        let s = atom(ang.over(lit(TWO)).sin());
        let (x, y, z) = (exact(axis.0, atom), exact(axis.1, atom), exact(axis.2, atom));
        assert(q.exact(atom) == (Lipschitz {
            r: atom(ang.over(lit(TWO)).cos()),
            i: s * x,
            j: s * y,
            k: s * z,
        })) by {
            reveal_with_fuel(exact, 3);
        }
        q.lemma_exact_square(atom);
        lemma_swap(s, x, s, x);
        lemma_swap(s, y, s, y);
        lemma_swap(s, z, s, z);
        lemma_distribute_left(s * s, x * x, y * y, z * z, 0);
        assert((s * s) * 0 == 0);
    }
}

impl NExpr {
    /// The number in exact arithmetic, as a quaternion: a real number and a
    /// complex number have zero for the parts that they lack.
    pub open spec fn exact(self, atom: spec_fn(Expr) -> int) -> Lipschitz {
        match self {
            NExpr::Real(re) => Lipschitz::of_int(exact(re, atom)),
            NExpr::Complex(c) => Lipschitz::of(c.exact(atom)),
            NExpr::Quaternion(q) => q.exact(atom),
        }
    }

    /// In exact arithmetic the sum of two numbers of any two kinds is the
    /// sum of the quaternions that they are.
    pub proof fn lemma_exact_plus(self, rhs: NExpr, atom: spec_fn(Expr) -> int)
        ensures
            self.plus(rhs).exact(atom) == self.exact(atom).plus(rhs.exact(atom)),
    {
        reveal_with_fuel(exact, 2);
    }

    /// In exact arithmetic the product of two numbers of any two kinds is
    /// the Hamilton product of the quaternions that they are, in the order
    /// in which they stand.
    pub proof fn lemma_exact_times(self, rhs: NExpr, atom: spec_fn(Expr) -> int)
        ensures
            self.times(rhs).exact(atom) == self.exact(atom).times(rhs.exact(atom)),
    {
        reveal_with_fuel(exact, 2);
        match (self, rhs) {
            (NExpr::Real(x), NExpr::Real(y)) => {
                lemma_times_of_int(Lipschitz::of_int(exact(x, atom)), exact(y, atom));
                assert(self.times(rhs).exact(atom) == self.exact(atom).times(rhs.exact(atom)));
            },
            (NExpr::Real(x), NExpr::Complex(c)) => {
                lemma_of_int_times(exact(x, atom), Lipschitz::of(c.exact(atom)));
                assert(self.times(rhs).exact(atom) == self.exact(atom).times(rhs.exact(atom)));
            },
            (NExpr::Real(x), NExpr::Quaternion(q)) => {
                lemma_of_int_times(exact(x, atom), q.exact(atom));
                assert(self.times(rhs).exact(atom) == self.exact(atom).times(rhs.exact(atom)));
            },
            (NExpr::Complex(c), NExpr::Real(y)) => {
                lemma_times_of_int(Lipschitz::of(c.exact(atom)), exact(y, atom));
                assert(self.times(rhs).exact(atom) == self.exact(atom).times(rhs.exact(atom)));
            },
            (NExpr::Complex(c), NExpr::Complex(v)) => {
                c.lemma_exact(v, c.r, atom);
                Lipschitz::of(c.exact(atom)).lemma_times_gaussian(v.exact(atom));
                lemma_commute(c.exact(atom).i, v.exact(atom).r);
                assert(self.times(rhs).exact(atom) == self.exact(atom).times(rhs.exact(atom)));
            },
            (NExpr::Complex(c), NExpr::Quaternion(q)) => {
                q.lemma_exact(q, c, q.r, atom);
                assert(self.times(rhs).exact(atom) == self.exact(atom).times(rhs.exact(atom)));
            },
            (NExpr::Quaternion(q), NExpr::Real(y)) => {
                lemma_times_of_int(q.exact(atom), exact(y, atom));
                assert(self.times(rhs).exact(atom) == self.exact(atom).times(rhs.exact(atom)));
            },
            (NExpr::Quaternion(q), NExpr::Complex(c)) => {
                q.lemma_exact(q, c, q.r, atom);
                assert(self.times(rhs).exact(atom) == self.exact(atom).times(rhs.exact(atom)));
            },
            (NExpr::Quaternion(q), NExpr::Quaternion(v)) => {
                q.lemma_exact(v, CExpr { r: q.r, i: q.i }, q.r, atom);
                assert(self.times(rhs).exact(atom) == self.exact(atom).times(rhs.exact(atom)));
            },
        }
    }

    /// In exact arithmetic the rotation of a quaternion has the norm of
    /// that quaternion times the square of the norm of the rotation
    /// quaternion, and keeps the norm where the rotation quaternion has
    /// norm one.
    pub proof fn lemma_exact_rot(
        self,
        ang: Expr,
        axis: (Expr, Expr, Expr),
        atom: spec_fn(Expr) -> int,
    )
        requires
            self is Quaternion,
        ensures
            ({
                let v = self->Quaternion_0;
                let q = QExpr::from_axis_angle(
                    ang.times(lit(PI)).over(lit(HALF_TURN)),
                    axis,
                );
                let turned = self.rot(ang, axis)->Quaternion_0;
                &&& self.rot(ang, axis) is Quaternion
                &&& exact(turned.norm(), atom) == exact(q.norm(), atom) * exact(v.norm(), atom)
                    * exact(q.norm(), atom)
                &&& exact(q.norm(), atom) == 1 ==> exact(turned.norm(), atom) == exact(
                    v.norm(),
                    atom,
                )
            }),
    {
        let v = self->Quaternion_0;
        let q = QExpr::from_axis_angle(
            ang.times(lit(PI)).over(lit(HALF_TURN)),
            axis,
        );
        q.lemma_exact_rotation(v, atom);
    }
}

/// A Hamilton product with an integer on the right scales every part.
proof fn lemma_times_of_int(a: Lipschitz, y: int)
    ensures
        a.times(Lipschitz::of_int(y)) == a.scaled(y),
{
}

/// A Hamilton product with an integer on the left scales every part.
proof fn lemma_of_int_times(x: int, b: Lipschitz)
    ensures
        Lipschitz::of_int(x).times(b) == b.scaled(x),
{
    lemma_commute(x, b.r);
    lemma_commute(x, b.i);
    lemma_commute(x, b.j);
    lemma_commute(x, b.k);
}

/// A factor that scales the right operand of a Hamilton product scales the
/// product.
proof fn lemma_scaled_right(a: Lipschitz, b: Lipschitz, d: int)
    ensures
        a.times(b.scaled(d)) == a.times(b).scaled(d),
{
    lemma_scaled_sum(a.r, b.r, -(a.i), b.i, -(a.j), b.j, -(a.k), b.k, d);
    lemma_scaled_sum(a.r, b.i, a.i, b.r, a.j, b.k, -(a.k), b.j, d);
    lemma_scaled_sum(a.r, b.j, -(a.i), b.k, a.j, b.r, a.k, b.i, d);
    lemma_scaled_sum(a.r, b.k, a.i, b.j, -(a.j), b.i, a.k, b.r, d);
    lemma_neg_mul(a.i, b.i);
    lemma_neg_mul(a.j, b.j);
    lemma_neg_mul(a.k, b.k);
    lemma_neg_mul(a.k, b.j);
    lemma_neg_mul(a.i, b.k);
    lemma_neg_mul(a.j, b.i);
    lemma_neg_mul(a.i, b.i * d);
    lemma_neg_mul(a.j, b.j * d);
    lemma_neg_mul(a.k, b.k * d);
    lemma_neg_mul(a.k, b.j * d);
    lemma_neg_mul(a.i, b.k * d);
    lemma_neg_mul(a.j, b.i * d);
}

/// A sum of four products, each with its right factor scaled.
proof fn lemma_scaled_sum(
    a: int,
    x: int,
    b: int,
    y: int,
    c: int,
    z: int,
    e: int,
    w: int,
    d: int,
)
    ensures
        a * (x * d) + b * (y * d) + c * (z * d) + e * (w * d) == (a * x + b * y + c * z + e * w)
            * d,
{
    lemma_mul_is_associative(a, x, d);
    lemma_mul_is_associative(b, y, d);
    lemma_mul_is_associative(c, z, d);
    lemma_mul_is_associative(e, w, d);
    lemma_distribute_right(a * x, b * y, c * z, e * w, d);
}

} // verus!
