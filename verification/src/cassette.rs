//! Coefficient masks: which components a `set` overwrites.
//!
//! A mask is a `u8` bit set. Component number `idx` is selected when bit
//! `idx` of the mask is set; masks are combined with `|`.
use vstd::prelude::*;

verus! {

/// Whether bit `idx` of the mask `c` is set. A mask has eight bits, so no
/// index from eight on is ever selected.
pub open spec fn is_set(c: u8, idx: u8) -> bool {
    idx < 8 && (c >> idx) & 1 != 0
}

/// Tells whether the mask `c` selects component number `idx`.
pub fn eq(c: u8, idx: u8) -> (out: bool)
    ensures
        out == is_set(c, idx),
{
    idx < 8 && (c >> idx) & 1 != 0
}

/// A single flag `1 << k` selects component `k` and no other.
pub proof fn lemma_single_flag(k: u8, idx: u8)
    requires
        k < 8,
    ensures
        is_set(1u8 << k, idx) == (idx == k),
{
    assert(k < 8 && idx < 8 ==> (((1u8 << k) >> idx) & 1 != 0) == (idx == k)) by (bit_vector);
}

/// Combining two masks with `|` selects exactly the components that either
/// of them selects.
pub proof fn lemma_union(a: u8, b: u8, idx: u8)
    ensures
        is_set(a | b, idx) == (is_set(a, idx) || is_set(b, idx)),
{
    assert(idx < 8 ==> ((((a | b) >> idx) & 1 != 0) == (((a >> idx) & 1 != 0) || ((b >> idx) & 1
        != 0)))) by (bit_vector);
}

} // verus!
