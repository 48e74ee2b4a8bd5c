//! The test signal: two tones, the highest frequency and a constant level.
use vstd::prelude::*;
use crate::twiddle::FFT_SIZE;

verus! {

/// One cycle of the test wave form, in Q12.
pub const INPUT_WAVE: [i32; 16] = [
    4096, 3784, 2896, 1567, 0, -1567, -2896, -3784, -4096, -3784, -2896, -1567, 0, 1567, 2896, 3784,
];

/// `x / d` rounded towards zero, for a positive `d`.
pub open spec fn quotient_to_zero(x: int, d: int) -> int {
    if x >= 0 {
        x / d
    } else {
        -((-x) / d)
    }
}

/// Sample `k` of the test signal made from the wave form `input`: a quarter
/// of the wave at three times and at five times the base frequency, a level
/// of 512 that changes its sign with every sample, and a constant 512.
pub open spec fn test_sample(input: Seq<i32>, k: int) -> int {
    quotient_to_zero(input[(3 * k) % 16] as int, 4) + quotient_to_zero(
        input[(5 * k) % 16] as int,
        4,
    ) + (if k % 2 == 1 {
        512
    } else {
        -512int
    }) + 512
}

/// The test signal never leaves the 32-bit range, whatever the wave form.
pub proof fn lemma_test_sample_fits(input: Seq<i32>, k: int)
    requires
        0 <= k,
        input.len() >= 16,
    ensures
        -0x4000_0000 <= test_sample(input, k) <= 0x4000_0400,
{
}

/// The 1024 samples of the test signal made from `input`.
pub open spec fn test_signal(input: Seq<i32>) -> Seq<i32> {
    Seq::new(FFT_SIZE as nat, |k: int| test_sample(input, k) as i32)
}

/// 1024 samples that are zero.
pub open spec fn silence() -> Seq<i32> {
    Seq::new(FFT_SIZE as nat, |k: int| 0i32)
}

/// Fills `bx` with the samples of the test signal and clears `by`.
pub fn fillInput(input: &[i32], bx: &mut Vec<i32>, by: &mut Vec<i32>)
    requires
        input@.len() >= 16,
        old(bx).len() == FFT_SIZE,
        old(by).len() == FFT_SIZE,
    ensures
        final(bx)@ == test_signal(input@),
        final(by)@ == silence(),
        forall|k: int| 0 <= k < FFT_SIZE ==> #[trigger] final(bx)@[k] == test_sample(input@, k),
{
    let mut k: usize = 0;
    while k <= FFT_SIZE - 1
        invariant
            k <= FFT_SIZE,
            input@.len() >= 16,
            bx.len() == FFT_SIZE,
            by.len() == FFT_SIZE,
            forall|n: int| 0 <= n < k ==> #[trigger] bx@[n] == test_sample(input@, n),
            forall|n: int| 0 <= n < k ==> #[trigger] by@[n] == 0,
        decreases FFT_SIZE - k,
    {
        // Two frequencies of the wave form.
        let mut x: i32 = input[(3 * k) % 16] / 4;
        x += input[(5 * k) % 16] / 4;
        // The highest frequency.
        assert(k & 1 == k % 2) by (bit_vector);
        if k & 1 != 0 {
            x += 4096 / 8;
        } else {
            x -= 4096 / 8;
        }
        // A constant level.
        x += 4096 / 8;
        bx.set(k, x);
        by.set(k, 0);
        k += 1;
    }
    assert(bx@ =~= test_signal(input@));
    assert(by@ =~= silence());
}

}
