//! The butterfly network: ten levels of radix-2 butterflies in Q12.
use vstd::prelude::*;
use vstd::arithmetic::power2::{pow2, lemma2_to64, lemma_pow2_unfold, lemma_pow2_adds};
use vstd::arithmetic::div_mod::lemma_fundamental_div_mod_converse;
use crate::twiddle::{
    FFT_SIZE,
    LOG2_FFT_SIZE,
    HALF_CYCLE,
    cos_window,
    minus_sin_window,
    twiddle_re,
    twiddle_im,
};

verus! {

/// A Q12 product brought back to Q12: `x / 4096`, rounded towards minus
/// infinity.
pub open spec fn q12_floor(x: i32) -> i32 {
    (x as int / 4096) as i32
}

/// The complex product of a sample `a + ib` and a twiddle factor `c + id`,
/// in the form with three multiplications. Every sum and product is taken
/// in 32 bits and wraps around; every product is then scaled by `q12_floor`.
pub open spec fn twiddled(a: i32, b: i32, c: i32, d: i32) -> (i32, i32) {
    let k1 = q12_floor(a.wrapping_mul(c.wrapping_add(d)));
    let k2 = q12_floor(d.wrapping_mul(a.wrapping_add(b)));
    let k3 = q12_floor(c.wrapping_mul(b.wrapping_sub(a)));
    (k1.wrapping_sub(k2), k1.wrapping_add(k3))
}

/// Whether `v` can be held in 32 bits.
pub open spec fn fits_i32(v: int) -> bool {
    i32::MIN <= v <= i32::MAX
}

/// Where no sum and no product leaves the 32-bit range, the twiddled sample
/// is the plain one: with `k1 = a(c + d) / 4096`, `k2 = d(a + b) / 4096` and
/// `k3 = c(b - a) / 4096`, each rounded down, it is `(k1 - k2, k1 + k3)`.
pub proof fn lemma_twiddled_without_overflow(a: i32, b: i32, c: i32, d: i32)
    requires
        fits_i32(c + d),
        fits_i32(a + b),
        fits_i32(b - a),
        fits_i32(a * (c + d)),
        fits_i32(d * (a + b)),
        fits_i32(c * (b - a)),
        fits_i32((a * (c + d)) / 4096 - (d * (a + b)) / 4096),
        fits_i32((a * (c + d)) / 4096 + (c * (b - a)) / 4096),
    ensures
        twiddled(a, b, c, d).0 == (a * (c + d)) / 4096 - (d * (a + b)) / 4096,
        twiddled(a, b, c, d).1 == (a * (c + d)) / 4096 + (c * (b - a)) / 4096,
{
    let p1 = a * (c + d);
    let p2 = d * (a + b);
    let p3 = c * (b - a);
    assert(a.wrapping_mul(c.wrapping_add(d)) == p1);
    assert(d.wrapping_mul(a.wrapping_add(b)) == p2);
    assert(c.wrapping_mul(b.wrapping_sub(a)) == p3);
}

/// The two samples that one butterfly leaves: the sum and the difference of
/// the lower sample `(x0, y0)` and the twiddled upper sample `(x1, y1)`.
pub open spec fn butterfly_pair(x0: i32, y0: i32, x1: i32, y1: i32, w: int) -> (
    (i32, i32),
    (i32, i32),
) {
    let t = twiddled(x1, y1, twiddle_re(w), twiddle_im(w));
    ((x0.wrapping_add(t.0), y0.wrapping_add(t.1)), (x0.wrapping_sub(t.0), y0.wrapping_sub(t.1)))
}

/// Sample `j` after one level of butterflies on flights of `size`
/// butterflies each. Butterfly `k < size` of a flight takes the sample at
/// offset `k` of the flight as its lower and the one `size` places above as
/// its upper sample, and the twiddle factor of index `k * (512 / size)`.
#[verifier::opaque]
pub open spec fn level_sample(re: Seq<i32>, im: Seq<i32>, size: int, j: int) -> (i32, i32) {
    let offset = j % (2 * size);
    let k = if offset < size {
        offset
    } else {
        offset - size
    };
    let lower = j - offset + k;
    let upper = lower + size;
    let pair = butterfly_pair(
        re[lower],
        im[lower],
        re[upper],
        im[upper],
        k * (HALF_CYCLE as int / size),
    );
    if offset < size {
        pair.0
    } else {
        pair.1
    }
}

/// All samples after one level of butterflies on flights of `size`.
pub open spec fn butterfly_level(re: Seq<i32>, im: Seq<i32>, size: int) -> (Seq<i32>, Seq<i32>) {
    (
        Seq::new(re.len(), |j: int| level_sample(re, im, size, j).0),
        Seq::new(im.len(), |j: int| level_sample(re, im, size, j).1),
    )
}

/// All samples after the first `levels` levels: the flights have sizes 1, 2,
/// 4 and so on.
pub open spec fn butterfly_levels(re: Seq<i32>, im: Seq<i32>, levels: nat) -> (
    Seq<i32>,
    Seq<i32>,
)
    decreases levels,
{
    if levels == 0 {
        (re, im)
    } else {
        let before = butterfly_levels(re, im, (levels - 1) as nat);
        butterfly_level(before.0, before.1, pow2((levels - 1) as nat) as int)
    }
}

/// Every level keeps the number of samples.
pub proof fn lemma_butterfly_levels_len(re: Seq<i32>, im: Seq<i32>, levels: nat)
    ensures
        butterfly_levels(re, im, levels).0.len() == re.len(),
        butterfly_levels(re, im, levels).1.len() == im.len(),
    decreases levels,
{
    if levels > 0 {
        lemma_butterfly_levels_len(re, im, (levels - 1) as nat);
    }
}

/// Arithmetic shift right by twelve bits.
fn scale_q12(x: i32) -> (r: i32)
    ensures
        r == q12_floor(x),
{
    assert(x >> 12 == x / 4096) by (bit_vector);
    x >> 12
}

/// Multiplies the sample `a + ib` by the twiddle factor `c + id`, both in
/// Q12, with three multiplications in 32 bits.
pub fn twiddle_product(a: i32, b: i32, c: i32, d: i32) -> (t: (i32, i32))
    ensures
        t == twiddled(a, b, c, d),
{
    let k1: i32 = scale_q12(a.wrapping_mul(c.wrapping_add(d)));
    let k2: i32 = scale_q12(d.wrapping_mul(a.wrapping_add(b)));
    let k3: i32 = scale_q12(c.wrapping_mul(b.wrapping_sub(a)));
    (k1.wrapping_sub(k2), k1.wrapping_add(k3))
}

/// Butterfly `k` of flight number `flight` gives the two samples of the
/// level at its places, `flight * 2 * size + k` and `size` above.
pub proof fn lemma_level_sample_pair(re: Seq<i32>, im: Seq<i32>, size: int, flight: int, k: int)
    requires
        0 <= flight,
        0 <= k < size,
    ensures
        ({
            let b0 = flight * (2 * size) + k;
            let b1 = b0 + size;
            let pair = butterfly_pair(
                re[b0],
                im[b0],
                re[b1],
                im[b1],
                k * (HALF_CYCLE as int / size),
            );
            &&& level_sample(re, im, size, b0) == pair.0
            &&& level_sample(re, im, size, b1) == pair.1
        }),
{
    reveal(level_sample);
    let b0 = flight * (2 * size) + k;
    lemma_fundamental_div_mod_converse(b0, 2 * size, flight, k);
    lemma_fundamental_div_mod_converse(b0 + size, 2 * size, flight, k + size);
}

/// One butterfly on the samples at `b0` and `b1`, with twiddle factor
/// `w_index`.
fn butterfly(bx: &mut Vec<i32>, by: &mut Vec<i32>, b0: usize, b1: usize, w_index: usize)
    requires
        b0 < b1 < old(bx).len(),
        old(bx).len() == old(by).len(),
        w_index < HALF_CYCLE,
    ensures
        ({
            let pair = butterfly_pair(
                old(bx)@[b0 as int],
                old(by)@[b0 as int],
                old(bx)@[b1 as int],
                old(by)@[b1 as int],
                w_index as int,
            );
            &&& final(bx)@ == old(bx)@.update(b0 as int, pair.0.0).update(b1 as int, pair.1.0)
            &&& final(by)@ == old(by)@.update(b0 as int, pair.0.1).update(b1 as int, pair.1.1)
        }),
{
    let a: i32 = bx[b1];
    let b: i32 = by[b1];
    let c: i32 = cos_window(w_index);
    let d: i32 = minus_sin_window(w_index);
    let t: (i32, i32) = twiddle_product(a, b, c, d);
    let k1: i32 = bx[b0];
    let k2: i32 = by[b0];
    bx.set(b1, k1.wrapping_sub(t.0));
    by.set(b1, k2.wrapping_sub(t.1));
    bx.set(b0, k1.wrapping_add(t.0));
    by.set(b0, k2.wrapping_add(t.1));
    proof {
        let pair = butterfly_pair(
            old(bx)@[b0 as int],
            old(by)@[b0 as int],
            old(bx)@[b1 as int],
            old(by)@[b1 as int],
            w_index as int,
        );
        assert(bx@ =~= old(bx)@.update(b0 as int, pair.0.0).update(b1 as int, pair.1.0));
        assert(by@ =~= old(by)@.update(b0 as int, pair.0.1).update(b1 as int, pair.1.1));
    }
}

/// Whether the butterfly of sample `j` is done, when the flights below
/// `base` are done and `done` butterflies of the flight at `base`.
spec fn touched(j: int, base: int, size: int, done: int) -> bool {
    j < base || (j < base + size && j - base < done) || (base + size <= j < base + 2 * size && j
        - base - size < done)
}

/// Sample `j` in the middle of a level.
spec fn partial_sample(re: Seq<i32>, im: Seq<i32>, size: int, base: int, done: int, j: int) -> (
    i32,
    i32,
) {
    if touched(j, base, size, done) {
        level_sample(re, im, size, j)
    } else {
        (re[j], im[j])
    }
}

/// Applies the butterflies to the 1024 complex samples in `bx` and `by`,
/// which are in decimated order; the transform comes out in natural order.
pub fn butterflies(bx: &mut Vec<i32>, by: &mut Vec<i32>)
    requires
        old(bx).len() == FFT_SIZE,
        old(by).len() == FFT_SIZE,
    ensures
        (final(bx)@, final(by)@) == butterfly_levels(
            old(bx)@,
            old(by)@,
            LOG2_FFT_SIZE as nat,
        ),
        final(bx).len() == FFT_SIZE,
        final(by).len() == FFT_SIZE,
{
    let mut flight_size: usize = 1;
    let mut w_delta: usize = FFT_SIZE / 2;
    let mut no_flights: usize = w_delta;
    let mut level: u32 = 0;
    proof {
        lemma2_to64();
    }
    while level < LOG2_FFT_SIZE
        invariant
            level <= LOG2_FFT_SIZE,
            bx.len() == FFT_SIZE,
            by.len() == FFT_SIZE,
            flight_size == pow2(level as nat),
            level < LOG2_FFT_SIZE ==> w_delta == pow2((LOG2_FFT_SIZE - 1 - level) as nat),
            no_flights == w_delta,
            (bx@, by@) == butterfly_levels(old(bx)@, old(by)@, level as nat),
        decreases LOG2_FFT_SIZE - level,
    {
        let ghost re = bx@;
        let ghost im = by@;
        let ghost size = flight_size as int;
        proof {
            lemma2_to64();
            lemma_pow2_adds((LOG2_FFT_SIZE - 1 - level) as nat, level as nat);
            vstd::arithmetic::power2::lemma_pow2_pos(level as nat);
            assert(w_delta * size == HALF_CYCLE);
            assert(HALF_CYCLE as int / size == w_delta) by (nonlinear_arith)
                requires
                    w_delta * size == HALF_CYCLE,
                    0 < size,
            ;
            assert(no_flights * (2 * size) == FFT_SIZE) by (nonlinear_arith)
                requires
                    no_flights * size == HALF_CYCLE,
                    FFT_SIZE == 2 * HALF_CYCLE,
            ;
        }
        let mut flight_index: usize = 0;
        let mut flight: usize = 0;
        while flight < no_flights
            invariant
                flight <= no_flights,
                bx.len() == FFT_SIZE,
                by.len() == FFT_SIZE,
                re.len() == FFT_SIZE,
                im.len() == FFT_SIZE,
                size == flight_size,
                0 < size,
                w_delta * size == HALF_CYCLE,
                HALF_CYCLE as int / size == w_delta,
                no_flights * (2 * size) == FFT_SIZE,
                flight_index == flight * (2 * size),
                forall|j: int|
                    0 <= j < FFT_SIZE ==> #[trigger] bx@[j] == partial_sample(
                        re,
                        im,
                        size,
                        flight_index as int,
                        0,
                        j,
                    ).0,
                forall|j: int|
                    0 <= j < FFT_SIZE ==> #[trigger] by@[j] == partial_sample(
                        re,
                        im,
                        size,
                        flight_index as int,
                        0,
                        j,
                    ).1,
            decreases no_flights - flight,
        {
            proof {
                assert((flight + 1) * (2 * size) <= FFT_SIZE) by (nonlinear_arith)
                    requires
                        flight < no_flights,
                        no_flights * (2 * size) == FFT_SIZE,
                        0 < size,
                ;
                assert((flight + 1) * (2 * size) == flight * (2 * size) + 2 * size)
                    by (nonlinear_arith);
            }
            let mut w_index: usize = 0;
            let mut k: usize = 0;
            while k < flight_size
                invariant
                    k <= flight_size,
                    bx.len() == FFT_SIZE,
                    by.len() == FFT_SIZE,
                    re.len() == FFT_SIZE,
                    im.len() == FFT_SIZE,
                    size == flight_size,
                    0 < size,
                    w_delta * size == HALF_CYCLE,
                    HALF_CYCLE as int / size == w_delta,
                    flight_index == flight * (2 * size),
                    flight_index + 2 * size <= FFT_SIZE,
                    w_index == k * w_delta,
                    forall|j: int|
                        0 <= j < FFT_SIZE ==> #[trigger] bx@[j] == partial_sample(
                            re,
                            im,
                            size,
                            flight_index as int,
                            k as int,
                            j,
                        ).0,
                    forall|j: int|
                        0 <= j < FFT_SIZE ==> #[trigger] by@[j] == partial_sample(
                            re,
                            im,
                            size,
                            flight_index as int,
                            k as int,
                            j,
                        ).1,
                decreases flight_size - k,
            {
                let b0: usize = flight_index + k;
                let b1: usize = b0 + flight_size;
                proof {
                    assert(k * w_delta + w_delta <= HALF_CYCLE) by (nonlinear_arith)
                        requires
                            k < size,
                            w_delta * size == HALF_CYCLE,
                    ;
                    assert((k + 1) * w_delta == k * w_delta + w_delta) by (nonlinear_arith);
                    lemma_level_sample_pair(re, im, size, flight as int, k as int);
                    assert(bx@[b0 as int] == re[b0 as int]);
                    assert(by@[b0 as int] == im[b0 as int]);
                    assert(bx@[b1 as int] == re[b1 as int]);
                    assert(by@[b1 as int] == im[b1 as int]);
                }
                butterfly(bx, by, b0, b1, w_index);
                w_index += w_delta;
                k += 1;
            }
            flight_index += flight_size * 2;
            flight += 1;
        }
        proof {
            let after = butterfly_level(re, im, size);
            assert(bx@ =~= after.0);
            assert(by@ =~= after.1);
            lemma_pow2_unfold((level + 1) as nat);
            if level + 1 < LOG2_FFT_SIZE {
                lemma_pow2_unfold((LOG2_FFT_SIZE - 1 - level) as nat);
            }
        }
        flight_size = flight_size * 2;
        no_flights = no_flights / 2;
        w_delta = w_delta / 2;
        level += 1;
    }
}

}
