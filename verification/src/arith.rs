//! Small facts about wrapped display coordinates: a sprite row or column
//! index is recovered exactly from the wrapped coordinate it produced.

use vstd::prelude::*;
use vstd::arithmetic::div_mod::{
    lemma_fundamental_div_mod, lemma_fundamental_div_mod_converse, lemma_mod_multiples_vanish,
    lemma_small_mod,
};

verus! {

/// Wrapping offset `b` onto base `a` and unwrapping gives `b` back.
pub proof fn lemma_wrap_index(a: int, b: int, m: int)
    requires
        0 < m,
        0 <= a,
        0 <= b < m,
    ensures
        (((a + b) % m) - a) % m == b,
{
    lemma_fundamental_div_mod(a + b, m);
    let q = (a + b) / m;
    let r = (a + b) % m;
    assert(r - a == m * (-q) + b) by (nonlinear_arith)
        requires
            a + b == m * q + r,
    ;
    lemma_mod_multiples_vanish(-q, b, m);
    lemma_small_mod(b as nat, m as nat);
}

/// A coordinate in range whose unwrapped offset is `b` is the wrap of `b`.
pub proof fn lemma_wrap_index_unique(a: int, r: int, b: int, m: int)
    requires
        0 < m,
        0 <= a,
        0 <= b < m,
        0 <= r < m,
        (r - a) % m == b,
    ensures
        r == (a + b) % m,
{
    lemma_fundamental_div_mod(r - a, m);
    let q = (r - a) / m;
    assert(a + b == m * (-q) + r) by (nonlinear_arith)
        requires
            r - a == m * q + b,
    ;
    lemma_mod_multiples_vanish(-q, r, m);
    lemma_small_mod(r as nat, m as nat);
}

/// A single extracted bit is 0 or 1.
pub proof fn lemma_extracted_bit(row: u8, sh: u8)
    ensures
        ((row >> sh) & 1) <= 1,
{
    assert(((row >> sh) & 1) <= 1) by (bit_vector);
}

/// XORing the same byte twice restores the original.
pub proof fn lemma_xor_involution(a: u8, b: u8)
    ensures
        (a ^ b) ^ b == a,
{
    assert((a ^ b) ^ b == a) by (bit_vector);
}

/// XOR of two cell values stays a cell value.
pub proof fn lemma_xor_bit(a: u8, b: u8)
    requires
        a <= 1,
        b <= 1,
    ensures
        (a ^ b) <= 1,
        (a ^ b) == 1 <==> a != b,
{
    assert(a <= 1 && b <= 1 ==> ((a ^ b) <= 1 && ((a ^ b) == 1 <==> a != b))) by (bit_vector);
}

/// AND of two cell values tests that both are set.
pub proof fn lemma_and_bit(a: u8, b: u8)
    requires
        a <= 1,
        b <= 1,
    ensures
        (a & b) == (if a == 1 && b == 1 {
            1u8
        } else {
            0u8
        }),
{
    assert(a <= 1 && b <= 1 ==> (a & b) == (if a == 1 && b == 1 {
        1u8
    } else {
        0u8
    })) by (bit_vector);
}

/// OR of two cell values tests that either is set.
pub proof fn lemma_or_bit(a: u8, b: u8)
    requires
        a <= 1,
        b <= 1,
    ensures
        (a | b) == (if a == 1 || b == 1 {
            1u8
        } else {
            0u8
        }),
{
    assert(a <= 1 && b <= 1 ==> (a | b) == (if a == 1 || b == 1 {
        1u8
    } else {
        0u8
    })) by (bit_vector);
}

/// Row and column are recovered from a row-major cell index.
pub proof fn lemma_cell_decompose(r: int, c: int)
    requires
        0 <= r < 32,
        0 <= c < 64,
    ensures
        (r * 64 + c) / 64 == r,
        (r * 64 + c) % 64 == c,
        0 <= r * 64 + c < 2048,
{
    lemma_fundamental_div_mod_converse(r * 64 + c, 64, r, c);
}

} // verus!
