//! Chips composed from gates: single-bit adders and the 16-bit operators.

use crate::gates::{and, bit_and, bit_not, bit_xor, is_bit, not, or, xor};
use crate::word::{
    bits_value, is_word, lemma_bits_value_bound, lemma_bits_value_prepend, lemma_one_word,
    lemma_word_of, lemma_word_value, lemma_word_value_injective, lemma_zero_word, one_word,
    word_modulus, word_of, word_value, zero_word,
};
use vstd::arithmetic::power2::{lemma2_to64, lemma_pow2_unfold, pow2};
use vstd::prelude::*;

verus! {

/// Sum and carry of two bits: the sum is their exclusive disjunction, the
/// carry their conjunction.
pub open spec fn half_sum(a: u8, b: u8) -> (u8, u8) {
    (bit_xor(a, b), bit_and(a, b))
}

/// Sum and carry of three bits: the two binary digits of their total.
pub open spec fn full_sum(a: u8, b: u8, c: u8) -> (u8, u8) {
    (((a + b + c) % 2) as u8, ((a + b + c) / 2) as u8)
}

/// Sum of two words modulo two to the sixteenth.
pub open spec fn word_sum(a: Seq<u8>, b: Seq<u8>) -> Seq<u8> {
    word_of(word_value(a) + word_value(b))
}

/// Bitwise complement of a word.
pub open spec fn word_not(a: Seq<u8>) -> Seq<u8> {
    Seq::new(16, |i: int| bit_not(a[i]))
}

/// Bitwise conjunction of two words.
pub open spec fn word_and(a: Seq<u8>, b: Seq<u8>) -> Seq<u8> {
    Seq::new(16, |i: int| bit_and(a[i], b[i]))
}

/// Whether a word is the zero word, as a bit.
pub open spec fn word_is_zero(a: Seq<u8>) -> u8 {
    if a == zero_word() {
        1
    } else {
        0
    }
}

/// Adds two bits, giving the sum bit and the carry bit.
pub fn half_adder(a: u8, b: u8) -> (out: (u8, u8))
    requires
        is_bit(a),
        is_bit(b),
    ensures
        out == half_sum(a, b),
{
    let sum = xor(a, b);
    let carry = and(a, b);
    (sum, carry)
}

/// Adds three bits, giving the sum bit and the carry bit.
pub fn full_adder(a: u8, b: u8, c: u8) -> (out: (u8, u8))
    requires
        is_bit(a),
        is_bit(b),
        is_bit(c),
    ensures
        out == full_sum(a, b, c),
{
    let (sum1, carry1) = half_adder(a, b);
    let (sum2, carry2) = half_adder(sum1, c);
    let carry_out = or(carry1, carry2);
    (sum2, carry_out)
}

/// Ripple-carry addition of two words. The carry starts at 0 in the least
/// significant position and the carry out of the most significant position
/// is dropped.
pub fn adder_16(a: [u8; 16], b: [u8; 16]) -> (sum: [u8; 16])
    requires
        is_word(a@),
        is_word(b@),
    ensures
        is_word(sum@),
        sum@ == word_sum(a@, b@),
        word_value(sum@) == (word_value(a@) + word_value(b@)) % word_modulus(),
{
    let mut result = [0u8; 16];
    let mut carry: u8 = 0;
    let mut i: usize = 16;
    proof {
        lemma2_to64();
        assert(a@.subrange(16, 16) =~= Seq::<u8>::empty());
        assert(b@.subrange(16, 16) =~= Seq::<u8>::empty());
        assert(result@.subrange(16, 16) =~= Seq::<u8>::empty());
    }
    while i > 0
        invariant
            i <= 16,
            is_word(a@),
            is_word(b@),
            is_word(result@),
            is_bit(carry),
            bits_value(a@.subrange(i as int, 16)) + bits_value(b@.subrange(i as int, 16))
                == bits_value(result@.subrange(i as int, 16)) + carry * pow2((16 - i) as nat),
        decreases i,
    {
        let ghost low_a = a@.subrange(i as int, 16);
        let ghost low_b = b@.subrange(i as int, 16);
        let ghost low_r = result@.subrange(i as int, 16);
        let ghost carry_in = carry;
        i = i - 1;
        let (s, c) = full_adder(a[i], b[i], carry);
        result[i] = s;
        carry = c;
        proof {
            let p = pow2(low_a.len());
            assert(a@.subrange(i as int, 16) =~= seq![a[i as int]] + low_a);
            assert(b@.subrange(i as int, 16) =~= seq![b[i as int]] + low_b);
            assert(result@.subrange(i as int, 16) =~= seq![s] + low_r);
            lemma_bits_value_prepend(a[i as int], low_a);
            lemma_bits_value_prepend(b[i as int], low_b);
            lemma_bits_value_prepend(s, low_r);
            lemma_pow2_unfold((16 - i) as nat);
            assert(a[i as int] * p + b[i as int] * p + carry_in * p == s * p + c * (2 * p))
                by (nonlinear_arith)
                requires
                    a[i as int] + b[i as int] + carry_in == s + 2 * c,
            ;
        }
    }
    proof {
        assert(a@.subrange(0, 16) =~= a@);
        assert(b@.subrange(0, 16) =~= b@);
        assert(result@.subrange(0, 16) =~= result@);
        lemma2_to64();
        lemma_bits_value_bound(result@);
        let total = word_value(a@) + word_value(b@);
        assert(word_value(result@) == total % word_modulus());
        lemma_word_of(total);
        lemma_word_value_injective(result@, word_of(total));
    }
    result
}

/// Adds one to a word, wrapping from all ones to all zeros.
pub fn inc_16(a: [u8; 16]) -> (out: [u8; 16])
    requires
        is_word(a@),
    ensures
        is_word(out@),
        out@ == word_sum(a@, one_word()),
        word_value(out@) == (word_value(a@) + 1) % word_modulus(),
{
    let one: [u8; 16] = [0, 0, 0, 0, 0, 0, 0, 0, 0, 0, 0, 0, 0, 0, 0, 1];
    proof {
        assert(one@ =~= one_word());
        lemma_one_word();
    }
    adder_16(a, one)
}

/// Selects one of two words: the first when the selector is 0, the second
/// when it is 1.
pub fn mux_16(a: [u8; 16], b: [u8; 16], selector: u8) -> (out: [u8; 16])
    requires
        is_bit(selector),
    ensures
        out == (if selector == 0 { a } else { b }),
{
    match selector {
        0 => a,
        _ => b,
    }
}

/// Complements each bit of a word.
pub fn not_16(a: [u8; 16]) -> (out: [u8; 16])
    requires
        is_word(a@),
    ensures
        is_word(out@),
        out@ == word_not(a@),
{
    let mut result = [0u8; 16];
    for i in 0..16
        invariant
            is_word(a@),
            is_word(result@),
            forall|j: int| 0 <= j < i ==> result@[j] == bit_not(a@[j]),
    {
        result[i] = not(a[i]);
    }
    assert(result@ =~= word_not(a@));
    result
}

/// Conjoins two words bit by bit.
pub fn and_16(a: [u8; 16], b: [u8; 16]) -> (out: [u8; 16])
    requires
        is_word(a@),
        is_word(b@),
    ensures
        is_word(out@),
        out@ == word_and(a@, b@),
{
    let mut result = [0u8; 16];
    for i in 0..16
        invariant
            is_word(a@),
            is_word(b@),
            is_word(result@),
            forall|j: int| 0 <= j < i ==> result@[j] == bit_and(a@[j], b@[j]),
    {
        result[i] = and(a[i], b[i]);
    }
    assert(result@ =~= word_and(a@, b@));
    result
}

/// Tells whether a word is the zero word, as a bit: the complement of the
/// disjunction of all its bits.
pub fn is_zero_16(a: [u8; 16]) -> (out: u8)
    requires
        is_word(a@),
    ensures
        out == word_is_zero(a@),
{
    let mut any: u8 = 0;
    for i in 0..16
        invariant
            is_word(a@),
            is_bit(any),
            any == 0 <==> (forall|j: int| 0 <= j < i ==> a@[j] == 0),
    {
        any = or(any, a[i]);
    }
    assert(any == 0 <==> a@ =~= zero_word());
    not(any)
}

/// With a carry-in of 0 a full adder is a half adder.
pub proof fn lemma_full_adder_without_carry(a: u8, b: u8)
    requires
        is_bit(a),
        is_bit(b),
    ensures
        half_sum(a, b) == full_sum(a, b, 0),
{
}

/// A full adder gives the parity of its three inputs as the sum and their
/// majority as the carry.
pub proof fn lemma_full_adder_parity_majority(a: u8, b: u8, c: u8)
    requires
        is_bit(a),
        is_bit(b),
        is_bit(c),
    ensures
        full_sum(a, b, c).0 == bit_xor(bit_xor(a, b), c),
        full_sum(a, b, c).1 == 1 <==> (a == 1 && b == 1) || (a == 1 && c == 1) || (b == 1 && c
            == 1),
        is_bit(full_sum(a, b, c).0),
        is_bit(full_sum(a, b, c).1),
{
}

/// The sum of two words is a word, and it denotes the sum of the two
/// numbers modulo two to the sixteenth.
pub proof fn lemma_word_sum_value(a: Seq<u8>, b: Seq<u8>)
    ensures
        is_word(word_sum(a, b)),
        word_value(word_sum(a, b)) == (word_value(a) + word_value(b)) % word_modulus(),
{
    lemma_word_of(word_value(a) + word_value(b));
}

/// Word addition is commutative.
pub proof fn lemma_word_sum_commutative(a: Seq<u8>, b: Seq<u8>)
    ensures
        word_sum(a, b) == word_sum(b, a),
{
}

/// The zero word is the identity of word addition.
pub proof fn lemma_word_sum_zero(a: Seq<u8>)
    requires
        is_word(a),
    ensures
        word_sum(a, zero_word()) == a,
{
    lemma_zero_word();
    lemma_word_value(a);
}

/// Complementing a word twice gives the word back.
pub proof fn lemma_word_not_involution(a: Seq<u8>)
    requires
        is_word(a),
    ensures
        word_not(word_not(a)) == a,
{
    assert(word_not(word_not(a)) =~= a);
}

/// The complement and the conjunction of words are words.
pub proof fn lemma_bitwise_words(a: Seq<u8>, b: Seq<u8>)
    ensures
        is_word(word_not(a)),
        is_word(word_and(a, b)),
{
}

} // verus!
