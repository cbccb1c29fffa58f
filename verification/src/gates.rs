//! Single-bit logic gates.

use vstd::prelude::*;

verus! {

/// A byte is a bit when it holds 0 or 1.
pub open spec fn is_bit(a: u8) -> bool {
    a == 0 || a == 1
}

/// Conjunction of two bits: 1 exactly when both are 1.
pub open spec fn bit_and(a: u8, b: u8) -> u8 {
    if a == 1 && b == 1 {
        1
    } else {
        0
    }
}

/// Disjunction of two bits: 1 exactly when at least one is 1.
pub open spec fn bit_or(a: u8, b: u8) -> u8 {
    if a == 1 || b == 1 {
        1
    } else {
        0
    }
}

/// Complement of a bit.
pub open spec fn bit_not(a: u8) -> u8 {
    if a == 1 {
        0
    } else {
        1
    }
}

/// Negated conjunction of two bits.
pub open spec fn bit_nand(a: u8, b: u8) -> u8 {
    bit_not(bit_and(a, b))
}

/// Exclusive disjunction of two bits: 1 exactly when they differ.
pub open spec fn bit_xor(a: u8, b: u8) -> u8 {
    if a != b {
        1
    } else {
        0
    }
}

/// Tells whether both bytes are bits, so that a caller holding unchecked
/// data can test a gate's precondition before calling it.
pub fn validate_input(a: u8, b: u8) -> (ok: bool)
    ensures
        ok == (is_bit(a) && is_bit(b)),
{
    match (a, b) {
        (0, 0) | (0, 1) | (1, 0) | (1, 1) => true,
        _ => false,
    }
}

/// AND gate.
pub fn and(a: u8, b: u8) -> (out: u8)
    requires
        is_bit(a),
        is_bit(b),
    ensures
        out == bit_and(a, b),
{
    assert(a <= 1 && b <= 1 ==> (a & b) == (if a == 1 && b == 1 { 1u8 } else { 0u8 }))
        by (bit_vector);
    a & b
}

/// OR gate.
pub fn or(a: u8, b: u8) -> (out: u8)
    requires
        is_bit(a),
        is_bit(b),
    ensures
        out == bit_or(a, b),
{
    assert(a <= 1 && b <= 1 ==> (a | b) == (if a == 1 || b == 1 { 1u8 } else { 0u8 }))
        by (bit_vector);
    a | b
}

/// NOT gate.
pub fn not(a: u8) -> (out: u8)
    requires
        is_bit(a),
    ensures
        out == bit_not(a),
{
    assert(a <= 1 ==> (a ^ 1) == (if a == 1 { 0u8 } else { 1u8 })) by (bit_vector);
    a ^ 1
}

/// NAND gate.
pub fn nand(a: u8, b: u8) -> (out: u8)
    requires
        is_bit(a),
        is_bit(b),
    ensures
        out == bit_nand(a, b),
{
    assert(a <= 1 && b <= 1 ==> ((a & b) ^ 1) == (if a == 1 && b == 1 { 0u8 } else { 1u8 }))
        by (bit_vector);
    (a & b) ^ 1
}

/// XOR gate.
pub fn xor(a: u8, b: u8) -> (out: u8)
    requires
        is_bit(a),
        is_bit(b),
    ensures
        out == bit_xor(a, b),
{
    assert(a <= 1 && b <= 1 ==> (a ^ b) == (if a != b { 1u8 } else { 0u8 })) by (bit_vector);
    a ^ b
}

/// On bits each gate agrees with the machine's bitwise operator of the
/// same name, and the complement is the difference from 1.
pub proof fn lemma_gates_bitwise(a: u8, b: u8)
    requires
        is_bit(a),
        is_bit(b),
    ensures
        bit_and(a, b) == a & b,
        bit_or(a, b) == a | b,
        bit_xor(a, b) == a ^ b,
        bit_nand(a, b) == (a & b) ^ 1,
        bit_not(a) == 1 - a,
{
    assert(a <= 1 && b <= 1 ==> (a & b) == (if a == 1 && b == 1 { 1u8 } else { 0u8 }))
        by (bit_vector);
    assert(a <= 1 && b <= 1 ==> (a | b) == (if a == 1 || b == 1 { 1u8 } else { 0u8 }))
        by (bit_vector);
    assert(a <= 1 && b <= 1 ==> (a ^ b) == (if a != b { 1u8 } else { 0u8 })) by (bit_vector);
    assert(a <= 1 && b <= 1 ==> ((a & b) ^ 1) == (if a == 1 && b == 1 { 0u8 } else { 1u8 }))
        by (bit_vector);
}

/// Every gate maps bits to a bit.
pub proof fn lemma_gates_give_bits(a: u8, b: u8)
    ensures
        is_bit(bit_and(a, b)),
        is_bit(bit_or(a, b)),
        is_bit(bit_xor(a, b)),
        is_bit(bit_nand(a, b)),
        is_bit(bit_not(a)),
{
}

/// Complementing a bit twice gives the bit back.
pub proof fn lemma_not_involution(a: u8)
    requires
        is_bit(a),
    ensures
        bit_not(bit_not(a)) == a,
{
}

/// The exclusive disjunction is the usual network of four NAND gates.
pub proof fn lemma_xor_from_nand(a: u8, b: u8)
    requires
        is_bit(a),
        is_bit(b),
    ensures
        bit_xor(a, b) == bit_nand(bit_nand(a, bit_nand(a, b)), bit_nand(b, bit_nand(a, b))),
{
}

} // verus!
