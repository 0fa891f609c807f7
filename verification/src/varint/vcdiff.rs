//! The RFC 3284 (VCDIFF) varint codec.
//!
//! Big-endian base-128 groups: the most significant 7 bits come first, a
//! set high bit marks continuation, and the byte with the high bit clear
//! terminates.

use crate::error::{ErrKind, PatchError};
use crate::varint::{lemma_pow128_10, lemma_pow128_mono, pow128};
use vstd::prelude::*;

verus! {

/// One recursion step of the VCDIFF varint decoder; `acc` is the value
/// accumulated so far, `used` the bytes consumed.
pub open spec fn vcdiff_varint_step(b: Seq<u8>, acc: nat, used: nat) -> Result<
    (nat, nat),
    ErrKind,
>
    decreases b.len(),
{
    if b.len() == 0 {
        Err(ErrKind::UnexpectedEof)
    } else if used >= 10 {
        Err(ErrKind::VarintOverflow)
    } else {
        let acc2 = acc * 128 + (b[0] % 128) as nat;
        if b[0] >= 128 {
            vcdiff_varint_step(b.skip(1), acc2, (used + 1) as nat)
        } else {
            if acc2 < 0x10000000000000000nat {
                Ok((acc2, (used + 1) as nat))
            } else {
                Err(ErrKind::VarintOverflow)
            }
        }
    }
}

/// The VCDIFF varint at the front of `b`: value and encoded length, or
/// the reason decoding fails.
pub open spec fn spec_vcdiff_varint(b: Seq<u8>) -> Result<(nat, nat), ErrKind> {
    vcdiff_varint_step(b, 0, 0)
}

/// Decode a VCDIFF varint from the front of `data`; returns the value and
/// the number of bytes read.
pub fn decode(data: &[u8]) -> (r: Result<(u64, usize), PatchError>)
    ensures
        match r {
            Ok(p) => spec_vcdiff_varint(data@) == Ok::<_, ErrKind>((p.0 as nat, p.1 as nat)) && 1 <= p.1
                && p.1 <= data@.len(),
            Err(e) => spec_vcdiff_varint(data@) matches Err(k) && k == e.kind() && (e.kind()
                == ErrKind::UnexpectedEof || e.kind() == ErrKind::VarintOverflow),
        },
{
    let mut acc: u128 = 0;
    let mut i: usize = 0;
    proof {
        assert(data@.skip(0) =~= data@);
    }
    loop
        invariant
            i <= 10,
            i <= data@.len(),
            acc < pow128(i as nat),
            vcdiff_varint_step(data@.skip(i as int), acc as nat, i as nat)
                == spec_vcdiff_varint(data@),
        decreases data@.len() - i,
    {
        proof {
            lemma_pow128_mono(i as nat, 10);
            lemma_pow128_10();
        }
        if i >= data.len() {
            return Err(PatchError::UnexpectedEof("unterminated varint"));
        }
        if i >= 10 {
            return Err(PatchError::VarintOverflow);
        }
        let b = data[i];
        proof {
            assert(data@.skip(i as int)[0] == data@[i as int]);
            assert(data@.skip(i as int).skip(1) =~= data@.skip(i as int + 1));
        }
        let acc2: u128 = acc * 128 + ((b % 128) as u128);
        if b >= 128 {
            acc = acc2;
            i = i + 1;
        } else {
            if acc2 <= 0xFFFFFFFFFFFFFFFFu128 {
                return Ok((acc2 as u64, i + 1));
            } else {
                return Err(PatchError::VarintOverflow);
            }
        }
    }
}

} // verus!
