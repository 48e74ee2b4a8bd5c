//! The decimation step: the samples are put into bit-reversed order.
use vstd::prelude::*;
use vstd::arithmetic::power2::lemma2_to64;
use crate::bitrev::{
    bitReverse,
    reverse_bits,
    lemma_reverse_bits_bound,
    lemma_reverse_bits_involution,
};
use crate::twiddle::{FFT_SIZE, LOG2_FFT_SIZE};

verus! {

/// Where sample `i` of a transform comes from: `i` with its ten bits reversed.
pub open spec fn reversed_index(i: int) -> int {
    reverse_bits(i as nat, LOG2_FFT_SIZE as nat) as int
}

/// The samples of `s` in bit-reversed order.
pub open spec fn bit_reversed(s: Seq<i32>) -> Seq<i32> {
    Seq::new(s.len(), |i: int| s[reversed_index(i)])
}

/// Reversal of ten bits is a permutation of the indices below 1024: it
/// maps every index to one of them, and is its own inverse on them.
pub proof fn lemma_reversed_index_permutes()
    ensures
        forall|i: int| 0 <= i ==> 0 <= #[trigger] reversed_index(i) < FFT_SIZE,
        forall|i: int| 0 <= i < FFT_SIZE ==> reversed_index(#[trigger] reversed_index(i)) == i,
{
    lemma2_to64();
    assert forall|i: int| 0 <= i implies 0 <= #[trigger] reversed_index(i) < FFT_SIZE by {
        lemma_reverse_bits_bound(i as nat, LOG2_FFT_SIZE as nat);
    }
    assert forall|i: int| 0 <= i < FFT_SIZE implies reversed_index(#[trigger] reversed_index(i))
        == i by {
        lemma_reverse_bits_involution(i as nat, LOG2_FFT_SIZE as nat);
    }
}

/// Decimating twice gives the samples back in their first order.
pub proof fn lemma_bit_reversed_involution(s: Seq<i32>)
    requires
        s.len() == FFT_SIZE,
    ensures
        bit_reversed(bit_reversed(s)) == s,
{
    lemma_reversed_index_permutes();
    assert(bit_reversed(bit_reversed(s)) =~= s);
}

/// Radix-2 decimation in time: moves every sample of `bx` and of `by` to the
/// position given by reversing the bits of its index.
pub fn decimate(bx: &mut Vec<i32>, by: &mut Vec<i32>)
    requires
        old(bx).len() == FFT_SIZE,
        old(by).len() == FFT_SIZE,
    ensures
        final(bx)@ == bit_reversed(old(bx)@),
        final(by)@ == bit_reversed(old(by)@),
{
    proof {
        lemma_reversed_index_permutes();
    }
    let mut i: usize = 0;
    while i <= FFT_SIZE
        invariant
            i <= FFT_SIZE + 1,
            old(bx).len() == FFT_SIZE,
            old(by).len() == FFT_SIZE,
            bx.len() == FFT_SIZE,
            by.len() == FFT_SIZE,
            forall|j: int|
                0 <= j < FFT_SIZE ==> #[trigger] bx@[j] == (if j < i || reversed_index(j) < i {
                    old(bx)@[reversed_index(j)]
                } else {
                    old(bx)@[j]
                }),
            forall|j: int|
                0 <= j < FFT_SIZE ==> #[trigger] by@[j] == (if j < i || reversed_index(j) < i {
                    old(by)@[reversed_index(j)]
                } else {
                    old(by)@[j]
                }),
            forall|j: int|
                0 <= j < FFT_SIZE ==> reversed_index(#[trigger] reversed_index(j)) == j,
            forall|j: int| 0 <= j ==> 0 <= #[trigger] reversed_index(j) < FFT_SIZE,
        decreases FFT_SIZE + 1 - i,
    {
        let revi: usize = bitReverse(i as u32, LOG2_FFT_SIZE) as usize;
        assert(revi == reversed_index(i as int));
        if i < revi {
            let tx1: i32 = bx[i];
            let ty1: i32 = by[i];
            let rx1: i32 = bx[revi];
            let ry1: i32 = by[revi];
            bx.set(i, rx1);
            by.set(i, ry1);
            bx.set(revi, tx1);
            by.set(revi, ty1);
        }
        i += 1;
    }
    assert(bx@ =~= bit_reversed(old(bx)@));
    assert(by@ =~= bit_reversed(old(by)@));
}

}
