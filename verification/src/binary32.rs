//! Single-precision values, carried as their IEEE-754 binary32 encodings.
//!
//! Everything in this module is decided on the encoding alone: the sign flip,
//! the NaN test and the IEEE equality. Operations that round are not found
//! here; they are delegated to an arithmetic unit (see [`crate::unit`]).
use vstd::prelude::*;

verus! {

/// The sign bit of an encoding.
pub const SIGN_MASK: u32 = 0x8000_0000;

/// Every bit of an encoding but the sign bit.
pub const MAGNITUDE_MASK: u32 = 0x7fff_ffff;

/// The magnitude of an infinity: all exponent bits set, fraction zero.
pub const INFINITY: u32 = 0x7f80_0000;

/// Encoding of `+0.0`.
pub const ZERO: u32 = 0x0000_0000;

/// Encoding of `0.5`.
pub const HALF: u32 = 0x3f00_0000;

/// Encoding of `1.0`.
pub const ONE: u32 = 0x3f80_0000;

/// Encoding of `-1.0`.
pub const MINUS_ONE: u32 = 0xbf80_0000;

/// Encoding of `2.0`.
pub const TWO: u32 = 0x4000_0000;

/// Encoding of `90.0`, the quarter turn in degrees.
pub const QUARTER_TURN: u32 = 0x42b4_0000;

/// Encoding of `180.0`, the half turn in degrees.
pub const HALF_TURN: u32 = 0x4334_0000;

/// Encoding of the single-precision value nearest to the circle constant.
pub const PI: u32 = 0x4049_0fdb;

/// Encoding of the canonical quiet NaN.
pub const NAN: u32 = 0x7fc0_0000;

/// A single-precision value, held as its encoding.
#[derive(Clone, Copy, Debug)]
pub struct Binary32 {
    pub bits: u32,
}

impl Binary32 {
    /// The encoding with its sign bit cleared.
    pub open spec fn magnitude(self) -> u32 {
        self.bits & MAGNITUDE_MASK
    }

    /// NaN: all exponent bits set and a fraction that is not zero.
    pub open spec fn is_nan_spec(self) -> bool {
        self.magnitude() > INFINITY
    }

    /// Positive or negative zero.
    pub open spec fn is_zero_spec(self) -> bool {
        self.magnitude() == 0
    }

    /// Positive or negative infinity.
    pub open spec fn is_infinite_spec(self) -> bool {
        self.magnitude() == INFINITY
    }

    /// The sign bit is set. This holds of the negative numbers, of the
    /// negative zero, of the negative infinity and of half of the NaNs.
    pub open spec fn is_negative_spec(self) -> bool {
        self.bits & SIGN_MASK != 0
    }

    /// The value with its sign bit flipped and every other bit kept.
    pub open spec fn neg_spec(self) -> Binary32 {
        Binary32 { bits: self.bits ^ SIGN_MASK }
    }

    /// IEEE-754 equality: a NaN equals nothing, the two zeros equal each
    /// other, and any other two values are equal when their encodings are.
    pub open spec fn ieee_eq(self, other: Binary32) -> bool {
        &&& !self.is_nan_spec()
        &&& !other.is_nan_spec()
        &&& (self.bits == other.bits || (self.is_zero_spec() && other.is_zero_spec()))
    }

    /// The value with the given encoding.
    pub fn from_bits(bits: u32) -> (out: Binary32)
        ensures
            out == (Binary32 { bits }),
    {
        Binary32 { bits }
    }

    /// The encoding of the value.
    pub fn to_bits(self) -> (out: u32)
        ensures
            out == self.bits,
    {
        self.bits
    }

    /// Whether the value is a NaN.
    #[verifier::when_used_as_spec(is_nan_spec)]
    pub fn is_nan(self) -> (out: bool)
        ensures
            out == self.is_nan_spec(),
    {
        (self.bits & MAGNITUDE_MASK) > INFINITY
    }

    /// Whether the value is one of the two zeros.
    #[verifier::when_used_as_spec(is_zero_spec)]
    pub fn is_zero(self) -> (out: bool)
        ensures
            out == self.is_zero_spec(),
    {
        (self.bits & MAGNITUDE_MASK) == 0
    }

    /// Negation. It is exact for every value, NaN included: only the sign
    /// bit changes.
    #[verifier::when_used_as_spec(neg_spec)]
    pub fn neg(self) -> (out: Binary32)
        ensures
            out == self.neg_spec(),
    {
        Binary32 { bits: self.bits ^ SIGN_MASK }
    }

    /// Negating twice gives the value back, bit for bit.
    pub proof fn lemma_neg_involution(self)
        ensures
            self.neg_spec().neg_spec() == self,
    {
        let b = self.bits;
        assert((b ^ 0x8000_0000u32) ^ 0x8000_0000u32 == b) by (bit_vector);
    }

    /// Negation keeps the magnitude, and with it the class of the value:
    /// the negation of a NaN is a NaN, that of a zero is a zero, that of an
    /// infinity is an infinity. It changes the sign.
    pub proof fn lemma_neg_keeps_magnitude(self)
        ensures
            self.neg_spec().magnitude() == self.magnitude(),
            self.neg_spec().is_nan_spec() == self.is_nan_spec(),
            self.neg_spec().is_zero_spec() == self.is_zero_spec(),
            self.neg_spec().is_infinite_spec() == self.is_infinite_spec(),
            self.neg_spec().is_negative_spec() == !self.is_negative_spec(),
    {
        let b = self.bits;
        assert((b ^ 0x8000_0000u32) & 0x7fff_ffffu32 == b & 0x7fff_ffffu32) by (bit_vector);
        assert(((b ^ 0x8000_0000u32) & 0x8000_0000u32 != 0) == !(b & 0x8000_0000u32 != 0))
            by (bit_vector);
    }

    /// IEEE equality is symmetric, and reflexive on everything but NaN.
    pub proof fn lemma_ieee_eq_laws(self, other: Binary32)
        ensures
            self.ieee_eq(other) == other.ieee_eq(self),
            self.ieee_eq(self) == !self.is_nan_spec(),
    {
    }
}

impl PartialEq for Binary32 {
    /// IEEE-754 equality, decided on the encodings.
    fn eq(&self, other: &Self) -> (out: bool) {
        !self.is_nan() && !other.is_nan() && (self.bits == other.bits || (self.is_zero()
            && other.is_zero()))
    }
}

impl vstd::std_specs::cmp::PartialEqSpecImpl for Binary32 {
    open spec fn obeys_eq_spec() -> bool {
        true
    }

    open spec fn eq_spec(&self, other: &Self) -> bool {
        self.ieee_eq(*other)
    }
}

} // verus!
