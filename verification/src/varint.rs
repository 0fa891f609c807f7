//! Variable-length integer codecs.
//!
//! Three distinct encodings are used across the patch formats; they do not
//! share code beyond the small facts in this parent module:
//! - [`ups`]: the UPS VLV convention (low 7 bits first, set high bit
//!   terminates, positional bias added per continuation byte),
//! - [`bps`]: the BPS varint convention (same byte shape, stated on its
//!   own because the two formats evolved separately),
//! - [`vcdiff`]: the RFC 3284 big-endian form (most-significant 7 bits
//!   first, clear high bit terminates).
//!
//! Every decoder rejects a non-terminated sequence and refuses more than
//! ten bytes, so that no value beyond 64 bits is ever produced.

use vstd::prelude::*;

pub mod bps;
pub mod ups;
pub mod vcdiff;

verus! {

/// The number of byte sequence values admitted per continuation byte:
/// `128^n`.
pub open spec fn pow128(n: nat) -> nat
    decreases n,
{
    if n == 0 {
        1
    } else {
        128 * pow128((n - 1) as nat)
    }
}

pub proof fn lemma_pow128_mono(a: nat, b: nat)
    requires
        a <= b,
    ensures
        pow128(a) <= pow128(b),
    decreases b,
{
    if a < b {
        lemma_pow128_mono(a, (b - 1) as nat);
    }
}

pub proof fn lemma_pow128_10()
    ensures
        pow128(10) == 0x400000000000000000nat,
{
    reveal_with_fuel(pow128, 11);
}

} // verus!
