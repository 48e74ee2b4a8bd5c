//! The timed region: decimation and butterflies, between two readings of a
//! clock.
use vstd::prelude::*;
use crate::butterfly::{butterflies, butterfly_levels};
use crate::decimate::{decimate, bit_reversed};
use crate::twiddle::{FFT_SIZE, LOG2_FFT_SIZE};

verus! {

/// Nanoseconds in a microsecond.
pub const NANOS_PER_MICRO: u64 = 1000;

/// The transform of the samples `re + i * im`: the butterflies on the
/// samples in bit-reversed order.
pub open spec fn transformed(re: Seq<i32>, im: Seq<i32>) -> (Seq<i32>, Seq<i32>) {
    butterfly_levels(bit_reversed(re), bit_reversed(im), LOG2_FFT_SIZE as nat)
}

/// The forward transform of the 1024 complex samples in `bx` and `by`, in
/// place: decimation, then the butterflies.
pub fn transform(bx: &mut Vec<i32>, by: &mut Vec<i32>)
    requires
        old(bx).len() == FFT_SIZE,
        old(by).len() == FFT_SIZE,
    ensures
        (final(bx)@, final(by)@) == transformed(old(bx)@, old(by)@),
        final(bx).len() == FFT_SIZE,
        final(by).len() == FFT_SIZE,
{
    decimate(bx, by);
    butterflies(bx, by);
}

/// Reads the clock of `time::precise_time_ns`: a counter of nanoseconds
/// since a moment that is not told. Nothing is claimed of the reading.
#[verifier::external_body]
fn clock_ns() -> (now: u64) {
    time::precise_time_ns()
}

/// The whole microseconds between two readings of the clock, the later one
/// `end`.
pub fn elapsed_micros(start: u64, end: u64) -> (micros: u64)
    requires
        start <= end,
    ensures
        micros == (end - start) / (NANOS_PER_MICRO as int),
{
    (end - start) / NANOS_PER_MICRO
}

/// Transforms the samples in `bx` and `by` and tells how many microseconds
/// that took. The clock is read just before the decimation and just after
/// the last butterfly. Where the second reading is below the first, no time
/// is told; the samples are transformed all the same.
pub fn timed_transform(bx: &mut Vec<i32>, by: &mut Vec<i32>) -> (elapsed: Option<u64>)
    requires
        old(bx).len() == FFT_SIZE,
        old(by).len() == FFT_SIZE,
    ensures
        (final(bx)@, final(by)@) == transformed(old(bx)@, old(by)@),
        final(bx).len() == FFT_SIZE,
        final(by).len() == FFT_SIZE,
        elapsed matches Some(micros) ==> micros <= u64::MAX / NANOS_PER_MICRO,
{
    let start_time: u64 = clock_ns();
    decimate(bx, by);
    butterflies(bx, by);
    let end_time: u64 = clock_ns();
    if start_time <= end_time {
        Some(elapsed_micros(start_time, end_time))
    } else {
        None
    }
}

}
