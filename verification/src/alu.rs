//! The arithmetic logic unit: two operand words and six control bits in,
//! a result word and two status flags out.

use crate::chips::{
    adder_16, and_16, is_zero_16, lemma_word_sum_value, mux_16, not_16, word_and, word_is_zero,
    word_not, word_sum,
};
use crate::gates::is_bit;
use crate::word::{
    is_word, lemma_bits_value_bound, lemma_bits_value_prepend, lemma_word_value, lemma_zero_word,
    word_value, zero_word,
};
use vstd::arithmetic::power2::lemma2_to64;
use vstd::prelude::*;

verus! {

/// An operand after its two preparation stages, in this order: replaced by
/// the zero word when `zero` is 1, then complemented when `negate` is 1.
pub open spec fn alu_operand(w: Seq<u8>, zero: u8, negate: u8) -> Seq<u8> {
    let zeroed = if zero == 1 {
        zero_word()
    } else {
        w
    };
    if negate == 1 {
        word_not(zeroed)
    } else {
        zeroed
    }
}

/// The result word: both operands are prepared, then added when `f` is 1
/// and conjoined when `f` is 0, and the outcome is complemented when `no`
/// is 1.
pub open spec fn alu_out(
    x: Seq<u8>,
    y: Seq<u8>,
    zx: u8,
    nx: u8,
    zy: u8,
    ny: u8,
    f: u8,
    no: u8,
) -> Seq<u8> {
    let x = alu_operand(x, zx, nx);
    let y = alu_operand(y, zy, ny);
    let pre_out = if f == 1 {
        word_sum(x, y)
    } else {
        word_and(x, y)
    };
    if no == 1 {
        word_not(pre_out)
    } else {
        pre_out
    }
}

/// The zero flag of a result word: 1 exactly when every bit is clear.
pub open spec fn zero_flag(out: Seq<u8>) -> u8 {
    word_is_zero(out)
}

/// The negative flag of a result word: its sign bit, the most significant.
pub open spec fn negative_flag(out: Seq<u8>) -> u8 {
    out[0]
}

/// Computes the result word and the zero and negative flags for two
/// operand words under the control bits `zx`, `nx`, `zy`, `ny`, `f`, `no`.
pub fn alu(x: [u8; 16], y: [u8; 16], zx: u8, nx: u8, zy: u8, ny: u8, f: u8, no: u8) -> (out: (
    [u8; 16],
    u8,
    u8,
))
    requires
        is_word(x@),
        is_word(y@),
        is_bit(zx),
        is_bit(nx),
        is_bit(zy),
        is_bit(ny),
        is_bit(f),
        is_bit(no),
    ensures
        is_word(out.0@),
        out.0@ == alu_out(x@, y@, zx, nx, zy, ny, f, no),
        out.1 == zero_flag(out.0@),
        out.2 == negative_flag(out.0@),
{
    let zero = [0u8; 16];
    assert(zero@ =~= zero_word());

    let x = mux_16(x, zero, zx);
    let y = mux_16(y, zero, zy);

    let x = mux_16(x, not_16(x), nx);
    let y = mux_16(y, not_16(y), ny);

    let pre_out = match f {
        0 => and_16(x, y),
        _ => adder_16(x, y),
    };

    let result = mux_16(pre_out, not_16(pre_out), no);
    let zr = is_zero_16(result);
    let ng = result[0];
    (result, zr, ng)
}

/// With every control bit clear but `f`, the unit adds its operands.
pub proof fn lemma_alu_adds(x: Seq<u8>, y: Seq<u8>)
    ensures
        alu_out(x, y, 0, 0, 0, 0, 1, 0) == word_sum(x, y),
{
}

/// With every control bit clear, the unit conjoins its operands.
pub proof fn lemma_alu_conjoins(x: Seq<u8>, y: Seq<u8>)
    ensures
        alu_out(x, y, 0, 0, 0, 0, 0, 0) == word_and(x, y),
{
}

/// With both operands zeroed and conjoined, the result is the zero word
/// whatever the operand was.
pub proof fn lemma_alu_zeroes(x: Seq<u8>)
    ensures
        alu_out(x, x, 1, 0, 1, 0, 0, 0) == zero_word(),
{
    assert(word_and(zero_word(), zero_word()) =~= zero_word());
}

/// Under every combination of control bits the result is a word.
pub proof fn lemma_alu_out_is_word(
    x: Seq<u8>,
    y: Seq<u8>,
    zx: u8,
    nx: u8,
    zy: u8,
    ny: u8,
    f: u8,
    no: u8,
)
    requires
        is_word(x),
        is_word(y),
    ensures
        is_word(alu_out(x, y, zx, nx, zy, ny, f, no)),
{
    let x2 = alu_operand(x, zx, nx);
    let y2 = alu_operand(y, zy, ny);
    lemma_word_sum_value(x2, y2);
}

/// Read as numbers, the flags of a word say this: the zero flag is 1
/// exactly when the word denotes 0, and the negative flag is 1 exactly
/// when it denotes a number in the upper half of the range, which two's
/// complement reads as negative.
pub proof fn lemma_flags_by_value(w: Seq<u8>)
    requires
        is_word(w),
    ensures
        is_bit(zero_flag(w)),
        is_bit(negative_flag(w)),
        zero_flag(w) == 1 <==> word_value(w) == 0,
        negative_flag(w) == 1 <==> word_value(w) >= 0x8000,
{
    lemma_zero_word();
    lemma_word_value(w);
    let low = w.subrange(1, 16);
    assert(w =~= seq![w[0]] + low);
    lemma_bits_value_prepend(w[0], low);
    lemma_bits_value_bound(low);
    lemma2_to64();
}

} // verus!
