//! Calling-convention constants and the 18-bit one's complement number
//! representation of the UNIVAC 1219.

use vstd::prelude::*;

verus! {

/// ORG address: all compiler output goes in one block at this page
/// (page 1 of the UNIVAC address space, 0o010000 to 0o017777).
pub const PROG_ORG: u32 = 0o010000;

/// Initial soft-stack pointer value: top of the stack region of the page.
pub const STACK_INIT: u32 = 0o017777;

/// Maximum signed integer representable in 18-bit one's complement.
pub const INT_MAX: i64 = 131_071;

/// Minimum signed integer representable in 18-bit one's complement.
pub const INT_MIN: i64 = -131_071;

/// Largest value that fits ENTALK's 12-bit sign-extended immediate field.
pub const ENTALK_MAX: i64 = 2047;

/// Smallest value that fits ENTALK's 12-bit sign-extended immediate field.
pub const ENTALK_MIN: i64 = -2047;

/// All-ones 18-bit word (negative zero).
pub const WORD_MASK: u32 = 0o777777;

/// The 18-bit one's complement word that stands for the integer `v`.
pub open spec fn ones_complement_word(v: int) -> int {
    if v >= 0 {
        v
    } else {
        0o777777 + v
    }
}

/// The integer an 18-bit one's complement word stands for: a word with the
/// sign bit set is negative, the all-ones word being negative zero.
pub open spec fn word_value(w: int) -> int {
    if w >= 0o400000 {
        w - 0o777777
    } else {
        w
    }
}

/// The word that ENTALK loads for the 12-bit immediate `k`: the immediate
/// sign-extended to 18 bits.
pub open spec fn sign_extended_immediate(k: int) -> int {
    if k >= 0o4000 {
        k + 0o770000
    } else {
        k
    }
}

/// Convert a C signed integer to the 18-bit one's complement representation
/// used by the UNIVAC 1219 (as a `u32` for use in assembly DATA words).
pub fn to_univac_ones_complement(v: i64) -> (r: u32)
    requires
        INT_MIN <= v <= INT_MAX,
    ensures
        r == ones_complement_word(v as int),
        r < 0o1000000,
        r >= 0o400000 <==> v < 0,
{
    if v >= 0 {
        v as u32
    } else {
        // One's complement negation: flip all 18 bits, NOT n = 0o777777 - n.
        WORD_MASK - ((-v) as u32)
    }
}

/// True if the value fits ENTALK's immediate field (-2047 ..= 2047).
pub fn fits_entalk(v: i64) -> (r: bool)
    ensures
        r <==> ENTALK_MIN <= v <= ENTALK_MAX,
        r ==> INT_MIN <= v <= INT_MAX,
{
    v >= ENTALK_MIN && v <= ENTALK_MAX
}

/// Distinct integers of the 18-bit range have distinct one's complement words.
pub proof fn lemma_ones_complement_injective(a: int, b: int)
    requires
        INT_MIN <= a <= INT_MAX,
        INT_MIN <= b <= INT_MAX,
        a != b,
    ensures
        ones_complement_word(a) != ones_complement_word(b),
{
}

/// Reading the word of an integer of the 18-bit range back gives the integer.
pub proof fn lemma_ones_complement_round_trip(v: int)
    requires
        INT_MIN <= v <= INT_MAX,
    ensures
        word_value(ones_complement_word(v)) == v,
{
}

} // verus!
