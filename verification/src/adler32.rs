//! Adler-32 (zlib definition): two running sums modulo 65521.

use vstd::prelude::*;

verus! {

/// The running pair `(a, b)` after folding `data`; `a` starts at 1 and
/// `b` at 0.
pub open spec fn adler_pair(data: Seq<u8>) -> (int, int)
    decreases data.len(),
{
    if data.len() == 0 {
        (1, 0)
    } else {
        let p = adler_pair(data.drop_last());
        let a2 = (p.0 + data.last()) % 65521;
        (a2, (p.1 + a2) % 65521)
    }
}

/// The Adler-32 checksum of `data`: `b` in the high half, `a` in the
/// low half.
pub open spec fn spec_adler32(data: Seq<u8>) -> int {
    adler_pair(data).1 * 0x10000 + adler_pair(data).0
}

/// The Adler-32 checksum of `data`.
pub fn adler32(data: &[u8]) -> (r: u32)
    ensures
        r as int == spec_adler32(data@),
{
    let mut a: u32 = 1;
    let mut b: u32 = 0;
    let mut i: usize = 0;
    proof {
        assert(data@.take(0) =~= Seq::<u8>::empty());
    }
    while i < data.len()
        invariant
            i <= data@.len(),
            a < 65521,
            b < 65521,
            adler_pair(data@.take(i as int)) == (a as int, b as int),
        decreases data@.len() - i,
    {
        proof {
            assert(data@.take(i as int + 1).drop_last() =~= data@.take(i as int));
            assert(data@.take(i as int + 1).last() == data@[i as int]);
        }
        a = (a + data[i] as u32) % 65521;
        b = (b + a) % 65521;
        i = i + 1;
    }
    proof {
        assert(data@.take(data@.len() as int) =~= data@);
    }
    b * 0x10000 + a
}

} // verus!
