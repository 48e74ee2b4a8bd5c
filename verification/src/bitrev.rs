//! Reversal of the low bits of a word.
use vstd::prelude::*;
use vstd::arithmetic::power2::{pow2, lemma2_to64, lemma2_to64_rest, lemma_pow2_strictly_increases};
use vstd::bits::{lemma_u32_shl_is_mul, lemma_u32_pow2_no_overflow};

verus! {

/// The digits of `acc` to base 2, followed by the low `length` digits of
/// `x` in opposite order: the lowest digit of `x` comes first.
pub open spec fn reverse_onto(x: nat, length: nat, acc: nat) -> nat
    decreases length,
{
    if length == 0 {
        acc
    } else {
        reverse_onto(x / 2, (length - 1) as nat, 2 * acc + x % 2)
    }
}

/// The number whose `length` binary digits are the low `length` digits of
/// `x` in opposite order: digit `k` of `x` becomes digit `length - 1 - k`.
pub open spec fn reverse_bits(x: nat, length: nat) -> nat {
    reverse_onto(x, length, 0)
}

/// All 32 bits of `x` in opposite order, by exchanging neighbouring groups
/// of 1, 2, 4, 8 and 16 bits.
pub open spec fn reverse_word(x: u32) -> u32 {
    let a = ((x & 0xaaaa_aaaa) >> 1) | ((x & 0x5555_5555) << 1);
    let b = ((a & 0xcccc_cccc) >> 2) | ((a & 0x3333_3333) << 2);
    let c = ((b & 0xf0f0_f0f0) >> 4) | ((b & 0x0f0f_0f0f) << 4);
    let d = ((c & 0xff00_ff00) >> 8) | ((c & 0x00ff_00ff) << 8);
    (d >> 16) | (d << 16)
}

/// The reversed word, cut down to its `length` high bits.
pub open spec fn reverse_low(x: u32, length: u32) -> u32 {
    reverse_word(x) >> ((32 - length) as u32)
}

/// The reversed word behind the digits of `acc`.
spec fn reverse_low_onto(x: u32, length: u32, acc: u32) -> u64 {
    ((acc as u64) << (length as u64)) | (reverse_low(x, length) as u64)
}

proof fn lemma_reverse_low_onto_step(x: u32, length: u32, acc: u32)
    requires
        2 <= length <= 32,
        acc <= (0xffff_ffffu32 >> length),
    ensures
        2 * acc + x % 2 <= (0xffff_ffffu32 >> ((length - 1) as u32)),
        reverse_low_onto(x, length, acc) == reverse_low_onto(
            x / 2,
            (length - 1) as u32,
            (2 * acc + x % 2) as u32,
        ),
{
    assert(2 <= length <= 32 && acc <= (0xffff_ffffu32 >> length) ==> 2 * acc + x % 2 <= (
    0xffff_ffffu32 >> ((length - 1) as u32)) && reverse_low_onto(x, length, acc)
        == reverse_low_onto(x / 2, (length - 1) as u32, (2 * acc + x % 2) as u32))
        by (bit_vector);
}

proof fn lemma_reverse_low_onto(x: u32, length: u32, acc: u32)
    requires
        1 <= length <= 32,
        acc <= (0xffff_ffffu32 >> length),
    ensures
        reverse_onto(x as nat, length as nat, acc as nat) == reverse_low_onto(x, length, acc),
    decreases length,
{
    if length == 1 {
        assert(acc <= (0xffff_ffffu32 >> 1u32) ==> reverse_low_onto(x, 1, acc) == 2 * acc + x % 2)
            by (bit_vector);
        assert(reverse_onto(x as nat / 2, 0, 2 * (acc as nat) + x as nat % 2) == 2 * acc + x
            % 2);
    } else {
        lemma_reverse_low_onto_step(x, length, acc);
        lemma_reverse_low_onto(x / 2, (length - 1) as u32, (2 * acc + x % 2) as u32);
    }
}

/// The masked-shift reversal computes `reverse_bits` on words.
pub proof fn lemma_reverse_low_is_reverse_bits(x: u32, length: u32)
    requires
        1 <= length <= 32,
    ensures
        reverse_low(x, length) as nat == reverse_bits(x as nat, length as nat),
{
    assert(0u32 <= (0xffff_ffffu32 >> length)) by (bit_vector);
    lemma_reverse_low_onto(x, length, 0);
    assert(reverse_low_onto(x, length, 0) == reverse_low(x, length)) by (bit_vector);
}

/// Reverses the low `length` bits of `x`; the bits above them are dropped.
pub fn bitReverse(x: u32, length: u32) -> (r: u32)
    requires
        1 <= length <= 32,
    ensures
        r as nat == reverse_bits(x as nat, length as nat),
        (r as nat) < pow2(length as nat),
{
    let mut rx: u32 = x;
    rx = ((rx & 0xaaaa_aaaa) >> 1) | ((rx & 0x5555_5555) << 1);
    rx = ((rx & 0xcccc_cccc) >> 2) | ((rx & 0x3333_3333) << 2);
    rx = ((rx & 0xf0f0_f0f0) >> 4) | ((rx & 0x0f0f_0f0f) << 4);
    rx = ((rx & 0xff00_ff00) >> 8) | ((rx & 0x00ff_00ff) << 8);
    rx = (rx >> 16) | (rx << 16);
    proof {
        lemma_reverse_low_is_reverse_bits(x, length);
        lemma_reverse_bits_bound(x as nat, length as nat);
    }
    rx >> (32 - length)
}

proof fn lemma_reverse_onto_bound(x: nat, length: nat, acc: nat)
    ensures
        reverse_onto(x, length, acc) < (acc + 1) * pow2(length),
    decreases length,
{
    if length == 0 {
        lemma2_to64();
    } else {
        let shorter = (length - 1) as nat;
        let next = 2 * acc + x % 2;
        lemma_reverse_onto_bound(x / 2, shorter, next);
        vstd::arithmetic::power2::lemma_pow2_unfold(length);
        assert((next + 1) * pow2(shorter) <= (acc + 1) * (2 * pow2(shorter)))
            by (nonlinear_arith)
            requires
                next + 1 <= 2 * (acc + 1),
        ;
    }
}

/// A reversal on `length` bits is below `2^length`.
pub proof fn lemma_reverse_bits_bound(x: nat, length: nat)
    ensures
        reverse_bits(x, length) < pow2(length),
{
    lemma_reverse_onto_bound(x, length, 0);
    assert((0 + 1) * pow2(length) == pow2(length)) by (nonlinear_arith);
}

/// Bit reversal is an involution: on `length` bits, for a `length` of at
/// most 32, reversing the reversal of `i < 2^length` gives `i` back.
pub proof fn lemma_reverse_bits_involution(i: nat, length: nat)
    requires
        length <= 32,
        i < pow2(length),
    ensures
        reverse_bits(reverse_bits(i, length), length) == i,
{
    lemma2_to64();
    if length > 0 {
        lemma2_to64_rest();
        let x: u32 = i as u32;
        let l: u32 = length as u32;
        if length < 32 {
            lemma_pow2_strictly_increases(length, 32);
            lemma_u32_pow2_no_overflow(length);
            lemma_u32_shl_is_mul(1, l);
            assert(x < (1u32 << l));
        }
        lemma_reverse_low_is_reverse_bits(x, l);
        lemma_reverse_low_is_reverse_bits(reverse_low(x, l), l);
        assert(reverse_low(reverse_low(x, l), l) == x) by (bit_vector)
            requires
                1 <= l <= 32,
                l < 32 ==> x < (1u32 << l),
        ;
    }
}

}
