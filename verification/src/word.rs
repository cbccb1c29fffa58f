//! The numeric reading of bit sequences.
//!
//! A sequence of bits is read as an unsigned binary numeral with its most
//! significant bit first, so the last element is the ones place. A word is
//! such a sequence of exactly sixteen bits.

use crate::gates::is_bit;
use vstd::arithmetic::power2::{lemma2_to64, lemma_pow2_pos, lemma_pow2_unfold, pow2};
use vstd::prelude::*;

verus! {

/// Number of distinct words: two to the power of the word width.
pub open spec fn word_modulus() -> nat {
    0x1_0000
}

/// Every element of the sequence is a bit.
pub open spec fn all_bits(s: Seq<u8>) -> bool {
    forall|i: int| 0 <= i < s.len() ==> is_bit(#[trigger] s[i])
}

/// A word is a sequence of exactly sixteen bits.
pub open spec fn is_word(w: Seq<u8>) -> bool {
    w.len() == 16 && all_bits(w)
}

/// The number that a most-significant-first bit sequence denotes.
pub open spec fn bits_value(s: Seq<u8>) -> nat
    decreases s.len(),
{
    if s.len() == 0 {
        0
    } else {
        2 * bits_value(s.drop_last()) + s.last() as nat
    }
}

/// The `len` low-order binary digits of `n`, most significant first.
pub open spec fn bits_of(n: nat, len: nat) -> Seq<u8>
    decreases len,
{
    if len == 0 {
        Seq::empty()
    } else {
        bits_of(n / 2, (len - 1) as nat).push((n % 2) as u8)
    }
}

/// The unsigned number that a word denotes.
pub open spec fn word_value(w: Seq<u8>) -> nat {
    bits_value(w)
}

/// The word that denotes `n` modulo two to the sixteenth.
pub open spec fn word_of(n: nat) -> Seq<u8> {
    bits_of(n, 16)
}

/// The word with every bit clear.
pub open spec fn zero_word() -> Seq<u8> {
    Seq::new(16, |i: int| 0u8)
}

/// The word with only the least significant bit set.
pub open spec fn one_word() -> Seq<u8> {
    Seq::new(16, |i: int| if i == 15 { 1u8 } else { 0u8 })
}

/// `bits_of` yields exactly `len` elements, each of them a bit.
pub proof fn lemma_bits_of_shape(n: nat, len: nat)
    ensures
        bits_of(n, len).len() == len,
        all_bits(bits_of(n, len)),
    decreases len,
{
    if len > 0 {
        lemma_bits_of_shape(n / 2, (len - 1) as nat);
    }
}

/// A sequence of `k` bits denotes a number below two to the `k`.
pub proof fn lemma_bits_value_bound(s: Seq<u8>)
    requires
        all_bits(s),
    ensures
        bits_value(s) < pow2(s.len()),
    decreases s.len(),
{
    if s.len() == 0 {
        lemma2_to64();
    } else {
        lemma_bits_value_bound(s.drop_last());
        lemma_pow2_unfold(s.len());
    }
}

/// Reading a bit sequence as a number and writing that number back in the
/// same width gives the sequence again.
pub proof fn lemma_bits_of_value(s: Seq<u8>)
    requires
        all_bits(s),
    ensures
        bits_of(bits_value(s), s.len()) == s,
    decreases s.len(),
{
    if s.len() > 0 {
        let head = s.drop_last();
        lemma_bits_of_value(head);
        let v = bits_value(s);
        assert(is_bit(s.last()));
        assert(v / 2 == bits_value(head));
        assert(v % 2 == s.last());
        assert(bits_of(v, s.len()) =~= s);
    }
}

/// Writing `n` in `len` binary digits and reading them back gives `n`
/// modulo two to the `len`.
pub proof fn lemma_bits_value_of(n: nat, len: nat)
    ensures
        bits_value(bits_of(n, len)) == n % pow2(len),
    decreases len,
{
    if len == 0 {
        lemma2_to64();
    } else {
        let rest = bits_of(n / 2, (len - 1) as nat);
        lemma_bits_value_of(n / 2, (len - 1) as nat);
        lemma_pow2_unfold(len);
        assert(bits_of(n, len).drop_last() =~= rest);
        let p = pow2((len - 1) as nat);
        lemma_pow2_pos((len - 1) as nat);
        lemma_mod_double(n, p);
    }
}

/// Splitting off the ones place commutes with reduction modulo an even number.
proof fn lemma_mod_double(n: nat, p: nat)
    requires
        p > 0,
    ensures
        n % (2 * p) == 2 * ((n / 2) % p) + n % 2,
{
    let q = (n / 2) / p;
    let r = (n / 2) % p;
    assert(n / 2 == p * q + r) by {
        vstd::arithmetic::div_mod::lemma_fundamental_div_mod((n / 2) as int, p as int);
    }
    assert(n == (2 * p) * q + (2 * r + n % 2)) by (nonlinear_arith)
        requires
            n / 2 == p * q + r,
            n == 2 * (n / 2) + n % 2,
    ;
    vstd::arithmetic::div_mod::lemma_fundamental_div_mod_converse(
        n as int,
        (2 * p) as int,
        q as int,
        (2 * r + n % 2) as int,
    );
}

/// Putting a bit in front of a sequence adds that bit, weighted by two to
/// the length of the sequence, to the number denoted.
pub proof fn lemma_bits_value_prepend(x: u8, s: Seq<u8>)
    ensures
        bits_value(seq![x] + s) == x * pow2(s.len()) + bits_value(s),
    decreases s.len(),
{
    let t = seq![x] + s;
    if s.len() == 0 {
        lemma2_to64();
        assert(t.drop_last() =~= Seq::<u8>::empty());
        assert(bits_value(t.drop_last()) == 0);
    } else {
        lemma_bits_value_prepend(x, s.drop_last());
        assert(t.drop_last() =~= seq![x] + s.drop_last());
        lemma_pow2_unfold(s.len());
        let p = pow2((s.len() - 1) as nat);
        assert(2 * (x * p) == x * (2 * p)) by (nonlinear_arith);
    }
}

/// A word denotes a number below two to the sixteenth, and is the only
/// word that denotes it.
pub proof fn lemma_word_value(w: Seq<u8>)
    requires
        is_word(w),
    ensures
        word_value(w) < word_modulus(),
        word_of(word_value(w)) == w,
{
    lemma_bits_value_bound(w);
    lemma_bits_of_value(w);
    lemma2_to64();
}

/// Every number has a word, which denotes the number modulo two to the
/// sixteenth.
pub proof fn lemma_word_of(n: nat)
    ensures
        is_word(word_of(n)),
        word_value(word_of(n)) == n % word_modulus(),
{
    lemma_bits_of_shape(n, 16);
    lemma_bits_value_of(n, 16);
    lemma2_to64();
}

/// The all-zero word is a word and denotes 0.
pub proof fn lemma_zero_word()
    ensures
        is_word(zero_word()),
        word_value(zero_word()) == 0,
        zero_word() == word_of(0),
{
    lemma_word_of(0);
    lemma_zero_bits(16);
    lemma_word_value(word_of(0));
}

/// Zero written in any width is all zeros.
proof fn lemma_zero_bits(len: nat)
    ensures
        bits_of(0, len) == Seq::new(len, |i: int| 0u8),
    decreases len,
{
    if len > 0 {
        lemma_zero_bits((len - 1) as nat);
    }
    assert(bits_of(0, len) =~= Seq::new(len, |i: int| 0u8));
}

/// The word with only its last bit set is a word and denotes 1.
pub proof fn lemma_one_word()
    ensures
        is_word(one_word()),
        word_value(one_word()) == 1,
        one_word() == word_of(1),
{
    lemma_zero_bits(15);
    assert(bits_of(1, 16) =~= one_word());
    lemma_word_of(1);
}

/// Two words that denote the same number are the same word.
pub proof fn lemma_word_value_injective(a: Seq<u8>, b: Seq<u8>)
    requires
        is_word(a),
        is_word(b),
        word_value(a) == word_value(b),
    ensures
        a == b,
{
    lemma_word_value(a);
    lemma_word_value(b);
}

} // verus!
