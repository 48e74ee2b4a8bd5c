//! A 1024-point radix-2 decimation-in-time FFT in Q12 fixed-point arithmetic,
//! with the bit-reversal permutation, the butterfly network, the twiddle
//! table and an integer square root, each proved against a mathematical model.
#![allow(non_snake_case)]

pub mod bitrev;
pub mod twiddle;
pub mod decimate;
pub mod butterfly;
pub mod isqrt;
pub mod signal;
pub mod spectrum;
pub mod report;
pub mod bench;

pub use bitrev::bitReverse;
pub use decimate::decimate;
pub use butterfly::{butterflies, twiddle_product};
pub use isqrt::sqrti;
pub use signal::fillInput;
pub use spectrum::{magnitude, spectrum};
pub use report::spectrum_line;
pub use bench::{elapsed_micros, timed_transform, transform};
