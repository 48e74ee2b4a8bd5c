//! The magnitudes of the frequency bins.
use vstd::prelude::*;
use crate::isqrt::{sqrti, floor_sqrt};
use crate::signal::quotient_to_zero;
use crate::twiddle::FFT_SIZE;

verus! {

/// Number of bins that are reported: those from 0 to 512, the highest
/// frequency.
pub const REPORTED_BINS: usize = 513;

/// The least squared magnitude that is too large for the square root.
pub const POWER_LIMIT: i32 = 0x4000_0000;

/// The squared magnitude of a bin, from its two parts scaled down by the
/// number of samples, each quotient rounded towards zero.
pub open spec fn bin_power(re: i32, im: i32) -> int {
    let scaled_re = quotient_to_zero(re as int, FFT_SIZE as int);
    let scaled_im = quotient_to_zero(im as int, FFT_SIZE as int);
    scaled_re * scaled_re + scaled_im * scaled_im
}

/// The magnitude of a bin with parts `re` and `im`: the square root, rounded
/// down, of its squared magnitude. There is none where the squared magnitude
/// reaches `POWER_LIMIT`.
pub fn magnitude(re: i32, im: i32) -> (m: Option<i32>)
    ensures
        m.is_some() <==> bin_power(re, im) < POWER_LIMIT,
        m matches Some(v) ==> v == floor_sqrt(bin_power(re, im)),
{
    let scaled_re: i32 = re / (FFT_SIZE as i32);
    let scaled_im: i32 = im / (FFT_SIZE as i32);
    assert(scaled_re == quotient_to_zero(re as int, FFT_SIZE as int));
    assert(scaled_im == quotient_to_zero(im as int, FFT_SIZE as int));
    assert(scaled_re * scaled_re >= 0 && scaled_im * scaled_im >= 0) by (nonlinear_arith);
    match scaled_re.checked_mul(scaled_re) {
        None => None,
        Some(rr) => match scaled_im.checked_mul(scaled_im) {
            None => None,
            Some(ii) => match rr.checked_add(ii) {
                None => None,
                Some(power) => if power < POWER_LIMIT {
                    Some(sqrti(power))
                } else {
                    None
                },
            },
        },
    }
}

/// Whether the first `bins` bins all have a magnitude.
pub open spec fn magnitudes_exist(re: Seq<i32>, im: Seq<i32>, bins: nat) -> bool {
    forall|f: int| 0 <= f < bins ==> bin_power(#[trigger] re[f], im[f]) < POWER_LIMIT
}

/// The bins among the first `bins` whose magnitude is not zero, each with
/// its magnitude, in rising order.
pub open spec fn peaks(re: Seq<i32>, im: Seq<i32>, bins: nat) -> Seq<(usize, i32)>
    decreases bins,
{
    if bins == 0 {
        Seq::empty()
    } else {
        let f = (bins - 1) as nat;
        let m = floor_sqrt(bin_power(re[f as int], im[f as int]));
        if m > 0 {
            peaks(re, im, f).push((f as usize, m as i32))
        } else {
            peaks(re, im, f)
        }
    }
}

/// The spectrum in the first half of the buffers after a transform: every
/// bin from 0 to 512 whose magnitude is not zero, with its magnitude. There
/// is none where one of these bins has no magnitude.
pub fn spectrum(bx: &[i32], by: &[i32]) -> (found: Option<Vec<(usize, i32)>>)
    requires
        bx@.len() == FFT_SIZE,
        by@.len() == FFT_SIZE,
    ensures
        found.is_some() <==> magnitudes_exist(bx@, by@, REPORTED_BINS as nat),
        found matches Some(lines) ==> lines@ == peaks(bx@, by@, REPORTED_BINS as nat),
{
    let mut lines: Vec<(usize, i32)> = Vec::new();
    let mut f: usize = 0;
    while f <= FFT_SIZE / 2
        invariant
            f <= REPORTED_BINS,
            bx@.len() == FFT_SIZE,
            by@.len() == FFT_SIZE,
            magnitudes_exist(bx@, by@, f as nat),
            lines@ == peaks(bx@, by@, f as nat),
        decreases REPORTED_BINS - f,
    {
        match magnitude(bx[f], by[f]) {
            None => {
                return None;
            },
            Some(m) => {
                if m > 0 {
                    lines.push((f, m));
                }
            },
        }
        f += 1;
    }
    Some(lines)
}

}
