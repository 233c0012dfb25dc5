//! Trusted boundary around the `rand` crate.
//!
//! The widgets thread one thread-local generator through every render
//! operation.  Nothing can be promised about an individual random draw, so
//! each wrapper states only the range its result falls in.

use vstd::prelude::*;

verus! {

/// The thread-local generator of the `rand` crate; opaque to verification.
#[verifier::external_type_specification]
#[verifier::external_body]
pub struct ExThreadRng(rand::rngs::ThreadRng);

/// Relies on `rand::RngCore::next_u32`: returns the next 32 random bits.
#[verifier::external_body]
pub(crate) fn rand_u32(rng: &mut rand::rngs::ThreadRng) -> u32 {
    rand::RngCore::next_u32(rng)
}

/// Relies on `rand::Rng::gen::<u16>`: returns 16 random bits.
#[verifier::external_body]
pub(crate) fn rand_u16(rng: &mut rand::rngs::ThreadRng) -> u16 {
    rand::Rng::gen::<u16>(rng)
}

/// Relies on `rand::Rng::gen_range`: samples uniformly from the closed
/// range `[lo, hi]`.  `gen_range` panics on an empty range, which
/// `lo <= hi` rules out.
#[verifier::external_body]
pub(crate) fn rand_between(rng: &mut rand::rngs::ThreadRng, lo: usize, hi: usize) -> (r: usize)
    requires
        lo <= hi,
    ensures
        lo <= r <= hi,
{
    rand::Rng::gen_range(rng, lo..=hi)
}

/// Relies on `char::from_u32`: for a value that is a Unicode scalar value
/// (at most 0x10FFFF and not a surrogate), returns exactly that code point.
#[verifier::external_body]
pub(crate) fn char_from_code(code: u32) -> (c: char)
    requires
        code < 0xD800 || (0xE000 <= code && code <= 0x10FFFF),
    ensures
        c == code as char,
{
    char::from_u32(code).unwrap()
}

} // verus!
