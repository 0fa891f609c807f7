//! The BPS varint codec.
//!
//! Little-endian base-128 groups: each byte contributes its low 7 bits at
//! the running weight, a set high bit terminates, and after each
//! non-terminating byte the new weight is added once to the running value,
//! so every number has exactly one encoding.

use crate::error::{ErrKind, PatchError};
use crate::varint::{lemma_pow128_10, lemma_pow128_mono, pow128};
use vstd::prelude::*;

verus! {

/// One recursion step of the BPS varint decoder; `acc` is the value so
/// far, `shift` the weight of the next byte, `used` the bytes consumed.
pub open spec fn bps_varint_step(b: Seq<u8>, acc: nat, shift: nat, used: nat) -> Result<
    (nat, nat),
    ErrKind,
>
    decreases b.len(),
{
    if b.len() == 0 {
        Err(ErrKind::UnexpectedEof)
    } else if used >= 10 {
        Err(ErrKind::VarintOverflow)
    } else {
        let acc2 = acc + ((b[0] % 128) as nat) * shift;
        if b[0] >= 128 {
            if acc2 < 0x10000000000000000nat {
                Ok((acc2, (used + 1) as nat))
            } else {
                Err(ErrKind::VarintOverflow)
            }
        } else {
            bps_varint_step(b.skip(1), acc2 + shift * 128, shift * 128, (used + 1) as nat)
        }
    }
}

/// The BPS varint at the front of `b`: value and encoded length, or the
/// reason decoding fails.
pub open spec fn spec_bps_varint(b: Seq<u8>) -> Result<(nat, nat), ErrKind> {
    bps_varint_step(b, 0, 1, 0)
}

/// Decode a BPS varint from the front of `data`; returns the value and
/// the number of bytes read.
pub fn decode(data: &[u8]) -> (r: Result<(u64, usize), PatchError>)
    ensures
        match r {
            Ok(p) => spec_bps_varint(data@) == Ok::<_, ErrKind>((p.0 as nat, p.1 as nat)) && 1 <= p.1
                && p.1 <= data@.len(),
            Err(e) => spec_bps_varint(data@) matches Err(k) && k == e.kind() && (e.kind()
                == ErrKind::UnexpectedEof || e.kind() == ErrKind::VarintOverflow),
        },
{
    let mut acc: u128 = 0;
    let mut shift: u128 = 1;
    let mut i: usize = 0;
    proof {
        assert(data@.skip(0) =~= data@);
    }
    loop
        invariant
            i <= 10,
            i <= data@.len(),
            shift == pow128(i as nat),
            acc <= 256 * shift,
            bps_varint_step(data@.skip(i as int), acc as nat, shift as nat, i as nat)
                == spec_bps_varint(data@),
        decreases data@.len() - i,
    {
        proof {
            lemma_pow128_mono(i as nat, 10);
            lemma_pow128_10();
        }
        if i >= data.len() {
            return Err(PatchError::UnexpectedEof("unterminated varint"));
        }
        if i >= 10 {
            return Err(PatchError::VarintOverflow);
        }
        let b = data[i];
        proof {
            assert(data@.skip(i as int)[0] == data@[i as int]);
            assert(data@.skip(i as int).skip(1) =~= data@.skip(i as int + 1));
            assert(((b % 128) as u128) * shift <= 127 * shift) by (nonlinear_arith)
                requires
                    (b % 128) <= 127,
                    shift >= 0,
            ;
        }
        let acc2: u128 = acc + ((b % 128) as u128) * shift;
        if b >= 128 {
            if acc2 <= 0xFFFFFFFFFFFFFFFFu128 {
                return Ok((acc2 as u64, i + 1));
            } else {
                return Err(PatchError::VarintOverflow);
            }
        }
        acc = acc2 + shift * 128;
        shift = shift * 128;
        i = i + 1;
    }
}

} // verus!
