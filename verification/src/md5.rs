//! MD5 (RFC 1321), specified by mirroring the padding, block and round
//! structure of the algorithm at the level of byte sequences.

use crate::buf::{slice_vec, spec_u32_le_at};
use vstd::prelude::*;

verus! {

/// Addition of 32-bit words modulo `2^32`.
pub open spec fn wadd(x: u32, y: u32) -> u32 {
    ((x + y) % 0x100000000) as u32
}

/// The round constant for round `i`.
pub open spec fn spec_md5_k(i: int) -> u32 {
    if i == 0 {
        0xD76AA478
    } else if i == 1 {
        0xE8C7B756
    } else if i == 2 {
        0x242070DB
    } else if i == 3 {
        0xC1BDCEEE
    } else if i == 4 {
        0xF57C0FAF
    } else if i == 5 {
        0x4787C62A
    } else if i == 6 {
        0xA8304613
    } else if i == 7 {
        0xFD469501
    } else if i == 8 {
        0x698098D8
    } else if i == 9 {
        0x8B44F7AF
    } else if i == 10 {
        0xFFFF5BB1
    } else if i == 11 {
        0x895CD7BE
    } else if i == 12 {
        0x6B901122
    } else if i == 13 {
        0xFD987193
    } else if i == 14 {
        0xA679438E
    } else if i == 15 {
        0x49B40821
    } else if i == 16 {
        0xF61E2562
    } else if i == 17 {
        0xC040B340
    } else if i == 18 {
        0x265E5A51
    } else if i == 19 {
        0xE9B6C7AA
    } else if i == 20 {
        0xD62F105D
    } else if i == 21 {
        0x02441453
    } else if i == 22 {
        0xD8A1E681
    } else if i == 23 {
        0xE7D3FBC8
    } else if i == 24 {
        0x21E1CDE6
    } else if i == 25 {
        0xC33707D6
    } else if i == 26 {
        0xF4D50D87
    } else if i == 27 {
        0x455A14ED
    } else if i == 28 {
        0xA9E3E905
    } else if i == 29 {
        0xFCEFA3F8
    } else if i == 30 {
        0x676F02D9
    } else if i == 31 {
        0x8D2A4C8A
    } else if i == 32 {
        0xFFFA3942
    } else if i == 33 {
        0x8771F681
    } else if i == 34 {
        0x6D9D6122
    } else if i == 35 {
        0xFDE5380C
    } else if i == 36 {
        0xA4BEEA44
    } else if i == 37 {
        0x4BDECFA9
    } else if i == 38 {
        0xF6BB4B60
    } else if i == 39 {
        0xBEBFBC70
    } else if i == 40 {
        0x289B7EC6
    } else if i == 41 {
        0xEAA127FA
    } else if i == 42 {
        0xD4EF3085
    } else if i == 43 {
        0x04881D05
    } else if i == 44 {
        0xD9D4D039
    } else if i == 45 {
        0xE6DB99E5
    } else if i == 46 {
        0x1FA27CF8
    } else if i == 47 {
        0xC4AC5665
    } else if i == 48 {
        0xF4292244
    } else if i == 49 {
        0x432AFF97
    } else if i == 50 {
        0xAB9423A7
    } else if i == 51 {
        0xFC93A039
    } else if i == 52 {
        0x655B59C3
    } else if i == 53 {
        0x8F0CCC92
    } else if i == 54 {
        0xFFEFF47D
    } else if i == 55 {
        0x85845DD1
    } else if i == 56 {
        0x6FA87E4F
    } else if i == 57 {
        0xFE2CE6E0
    } else if i == 58 {
        0xA3014314
    } else if i == 59 {
        0x4E0811A1
    } else if i == 60 {
        0xF7537E82
    } else if i == 61 {
        0xBD3AF235
    } else if i == 62 {
        0x2AD7D2BB
    } else {
        0xEB86D391
    }
}

/// The left-rotation amount for round `i`.
pub open spec fn spec_md5_s(i: int) -> u32 {
    if i == 0 {
        7
    } else if i == 1 {
        12
    } else if i == 2 {
        17
    } else if i == 3 {
        22
    } else if i == 4 {
        7
    } else if i == 5 {
        12
    } else if i == 6 {
        17
    } else if i == 7 {
        22
    } else if i == 8 {
        7
    } else if i == 9 {
        12
    } else if i == 10 {
        17
    } else if i == 11 {
        22
    } else if i == 12 {
        7
    } else if i == 13 {
        12
    } else if i == 14 {
        17
    } else if i == 15 {
        22
    } else if i == 16 {
        5
    } else if i == 17 {
        9
    } else if i == 18 {
        14
    } else if i == 19 {
        20
    } else if i == 20 {
        5
    } else if i == 21 {
        9
    } else if i == 22 {
        14
    } else if i == 23 {
        20
    } else if i == 24 {
        5
    } else if i == 25 {
        9
    } else if i == 26 {
        14
    } else if i == 27 {
        20
    } else if i == 28 {
        5
    } else if i == 29 {
        9
    } else if i == 30 {
        14
    } else if i == 31 {
        20
    } else if i == 32 {
        4
    } else if i == 33 {
        11
    } else if i == 34 {
        16
    } else if i == 35 {
        23
    } else if i == 36 {
        4
    } else if i == 37 {
        11
    } else if i == 38 {
        16
    } else if i == 39 {
        23
    } else if i == 40 {
        4
    } else if i == 41 {
        11
    } else if i == 42 {
        16
    } else if i == 43 {
        23
    } else if i == 44 {
        4
    } else if i == 45 {
        11
    } else if i == 46 {
        16
    } else if i == 47 {
        23
    } else if i == 48 {
        6
    } else if i == 49 {
        10
    } else if i == 50 {
        15
    } else if i == 51 {
        21
    } else if i == 52 {
        6
    } else if i == 53 {
        10
    } else if i == 54 {
        15
    } else if i == 55 {
        21
    } else if i == 56 {
        6
    } else if i == 57 {
        10
    } else if i == 58 {
        15
    } else if i == 59 {
        21
    } else if i == 60 {
        6
    } else if i == 61 {
        10
    } else if i == 62 {
        15
    } else {
        21
    }
}

/// The round constant for round `i`.
pub fn md5_k(i: usize) -> (r: u32)
    requires
        i < 64,
    ensures
        r == spec_md5_k(i as int),
{
    if i == 0 {
        0xD76AA478
    } else if i == 1 {
        0xE8C7B756
    } else if i == 2 {
        0x242070DB
    } else if i == 3 {
        0xC1BDCEEE
    } else if i == 4 {
        0xF57C0FAF
    } else if i == 5 {
        0x4787C62A
    } else if i == 6 {
        0xA8304613
    } else if i == 7 {
        0xFD469501
    } else if i == 8 {
        0x698098D8
    } else if i == 9 {
        0x8B44F7AF
    } else if i == 10 {
        0xFFFF5BB1
    } else if i == 11 {
        0x895CD7BE
    } else if i == 12 {
        0x6B901122
    } else if i == 13 {
        0xFD987193
    } else if i == 14 {
        0xA679438E
    } else if i == 15 {
        0x49B40821
    } else if i == 16 {
        0xF61E2562
    } else if i == 17 {
        0xC040B340
    } else if i == 18 {
        0x265E5A51
    } else if i == 19 {
        0xE9B6C7AA
    } else if i == 20 {
        0xD62F105D
    } else if i == 21 {
        0x02441453
    } else if i == 22 {
        0xD8A1E681
    } else if i == 23 {
        0xE7D3FBC8
    } else if i == 24 {
        0x21E1CDE6
    } else if i == 25 {
        0xC33707D6
    } else if i == 26 {
        0xF4D50D87
    } else if i == 27 {
        0x455A14ED
    } else if i == 28 {
        0xA9E3E905
    } else if i == 29 {
        0xFCEFA3F8
    } else if i == 30 {
        0x676F02D9
    } else if i == 31 {
        0x8D2A4C8A
    } else if i == 32 {
        0xFFFA3942
    } else if i == 33 {
        0x8771F681
    } else if i == 34 {
        0x6D9D6122
    } else if i == 35 {
        0xFDE5380C
    } else if i == 36 {
        0xA4BEEA44
    } else if i == 37 {
        0x4BDECFA9
    } else if i == 38 {
        0xF6BB4B60
    } else if i == 39 {
        0xBEBFBC70
    } else if i == 40 {
        0x289B7EC6
    } else if i == 41 {
        0xEAA127FA
    } else if i == 42 {
        0xD4EF3085
    } else if i == 43 {
        0x04881D05
    } else if i == 44 {
        0xD9D4D039
    } else if i == 45 {
        0xE6DB99E5
    } else if i == 46 {
        0x1FA27CF8
    } else if i == 47 {
        0xC4AC5665
    } else if i == 48 {
        0xF4292244
    } else if i == 49 {
        0x432AFF97
    } else if i == 50 {
        0xAB9423A7
    } else if i == 51 {
        0xFC93A039
    } else if i == 52 {
        0x655B59C3
    } else if i == 53 {
        0x8F0CCC92
    } else if i == 54 {
        0xFFEFF47D
    } else if i == 55 {
        0x85845DD1
    } else if i == 56 {
        0x6FA87E4F
    } else if i == 57 {
        0xFE2CE6E0
    } else if i == 58 {
        0xA3014314
    } else if i == 59 {
        0x4E0811A1
    } else if i == 60 {
        0xF7537E82
    } else if i == 61 {
        0xBD3AF235
    } else if i == 62 {
        0x2AD7D2BB
    } else {
        0xEB86D391
    }
}

/// The left-rotation amount for round `i`; always between 4 and 23.
pub fn md5_s(i: usize) -> (r: u32)
    requires
        i < 64,
    ensures
        r == spec_md5_s(i as int),
        1 <= r <= 30,
{
    if i == 0 {
        7
    } else if i == 1 {
        12
    } else if i == 2 {
        17
    } else if i == 3 {
        22
    } else if i == 4 {
        7
    } else if i == 5 {
        12
    } else if i == 6 {
        17
    } else if i == 7 {
        22
    } else if i == 8 {
        7
    } else if i == 9 {
        12
    } else if i == 10 {
        17
    } else if i == 11 {
        22
    } else if i == 12 {
        7
    } else if i == 13 {
        12
    } else if i == 14 {
        17
    } else if i == 15 {
        22
    } else if i == 16 {
        5
    } else if i == 17 {
        9
    } else if i == 18 {
        14
    } else if i == 19 {
        20
    } else if i == 20 {
        5
    } else if i == 21 {
        9
    } else if i == 22 {
        14
    } else if i == 23 {
        20
    } else if i == 24 {
        5
    } else if i == 25 {
        9
    } else if i == 26 {
        14
    } else if i == 27 {
        20
    } else if i == 28 {
        5
    } else if i == 29 {
        9
    } else if i == 30 {
        14
    } else if i == 31 {
        20
    } else if i == 32 {
        4
    } else if i == 33 {
        11
    } else if i == 34 {
        16
    } else if i == 35 {
        23
    } else if i == 36 {
        4
    } else if i == 37 {
        11
    } else if i == 38 {
        16
    } else if i == 39 {
        23
    } else if i == 40 {
        4
    } else if i == 41 {
        11
    } else if i == 42 {
        16
    } else if i == 43 {
        23
    } else if i == 44 {
        4
    } else if i == 45 {
        11
    } else if i == 46 {
        16
    } else if i == 47 {
        23
    } else if i == 48 {
        6
    } else if i == 49 {
        10
    } else if i == 50 {
        15
    } else if i == 51 {
        21
    } else if i == 52 {
        6
    } else if i == 53 {
        10
    } else if i == 54 {
        15
    } else if i == 55 {
        21
    } else if i == 56 {
        6
    } else if i == 57 {
        10
    } else if i == 58 {
        15
    } else if i == 59 {
        21
    } else if i == 60 {
        6
    } else if i == 61 {
        10
    } else if i == 62 {
        15
    } else {
        21
    }
}

/// The auxiliary mixing function of round `i`.
pub open spec fn md5_f(b: u32, c: u32, d: u32, i: int) -> u32 {
    if i < 16 {
        (b & c) | ((!b) & d)
    } else if i < 32 {
        (d & b) | ((!d) & c)
    } else if i < 48 {
        b ^ c ^ d
    } else {
        c ^ (b | (!d))
    }
}

/// The message-word index used in round `i`.
pub open spec fn md5_g(i: int) -> int {
    if i < 16 {
        i
    } else if i < 32 {
        (5 * i + 1) % 16
    } else if i < 48 {
        (3 * i + 5) % 16
    } else {
        (7 * i) % 16
    }
}

/// Left rotation of a 32-bit word by `s` places, `1 <= s <= 31`.
pub open spec fn rotl(x: u32, s: u32) -> u32 {
    (x << s) | (x >> ((32 - s) as u32))
}

/// Little-endian word `g` of a 64-byte block.
pub open spec fn word_at(block: Seq<u8>, g: int) -> u32 {
    spec_u32_le_at(block, 4 * g) as u32
}

/// One MD5 round applied to the running state `(a, b, c, d)`.
pub open spec fn md5_round(st: (u32, u32, u32, u32), block: Seq<u8>, i: int) -> (u32, u32, u32, u32) {
    let f = wadd(
        wadd(wadd(md5_f(st.1, st.2, st.3, i), st.0), spec_md5_k(i)),
        word_at(block, md5_g(i)),
    );
    (st.3, wadd(st.1, rotl(f, spec_md5_s(i))), st.1, st.2)
}

/// Rounds `i` to 63 applied to the running state.
pub open spec fn md5_rounds(st: (u32, u32, u32, u32), block: Seq<u8>, i: int) -> (u32, u32, u32, u32)
    decreases 64 - i,
{
    if i < 0 || i >= 64 {
        st
    } else {
        md5_rounds(md5_round(st, block, i), block, i + 1)
    }
}

/// One 64-byte block folded into the state: 64 rounds, then the
/// feed-forward addition.
pub open spec fn md5_block(st: (u32, u32, u32, u32), block: Seq<u8>) -> (u32, u32, u32, u32) {
    let e = md5_rounds(st, block, 0);
    (wadd(st.0, e.0), wadd(st.1, e.1), wadd(st.2, e.2), wadd(st.3, e.3))
}

/// Every full 64-byte block of `msg` folded into the state.
pub open spec fn md5_blocks(st: (u32, u32, u32, u32), msg: Seq<u8>) -> (u32, u32, u32, u32)
    decreases msg.len(),
{
    if msg.len() < 64 {
        st
    } else {
        md5_blocks(md5_block(st, msg.take(64)), msg.skip(64))
    }
}

/// The four little-endian bytes of a word.
pub open spec fn le4(x: u32) -> Seq<u8> {
    seq![
        (x % 256) as u8,
        ((x / 0x100) % 256) as u8,
        ((x / 0x10000) % 256) as u8,
        ((x / 0x1000000) % 256) as u8,
    ]
}

/// The eight little-endian bytes of a 64-bit quantity.
pub open spec fn le8n(n: nat) -> Seq<u8> {
    seq![
        (n % 256) as u8,
        ((n / 0x100) % 256) as u8,
        ((n / 0x10000) % 256) as u8,
        ((n / 0x1000000) % 256) as u8,
        ((n / 0x100000000) % 256) as u8,
        ((n / 0x10000000000) % 256) as u8,
        ((n / 0x1000000000000) % 256) as u8,
        ((n / 0x100000000000000) % 256) as u8,
    ]
}

/// `msg` padded per the MD5 rule: one `0x80` byte, zeros up to 56 modulo
/// 64, then the original length in bits as 64 little-endian bits.
pub open spec fn md5_pad(msg: Seq<u8>) -> Seq<u8> {
    let z = ((55 - (msg.len() as int % 64) + 64) % 64) as nat;
    msg + seq![0x80u8] + Seq::new(z, |i: int| 0u8) + le8n(
        ((msg.len() * 8) % 0x10000000000000000) as nat,
    )
}

/// The MD5 digest of `msg`: sixteen bytes.
pub open spec fn spec_md5(msg: Seq<u8>) -> Seq<u8> {
    let st = md5_blocks(
        (0x67452301u32, 0xEFCDAB89u32, 0x98BADCFEu32, 0x10325476u32),
        md5_pad(msg),
    );
    le4(st.0) + le4(st.1) + le4(st.2) + le4(st.3)
}

/// Addition of 32-bit words modulo `2^32`.
fn wadd_exec(x: u32, y: u32) -> (r: u32)
    ensures
        r == wadd(x, y),
{
    ((x as u64 + y as u64) % 0x100000000) as u32
}

/// Left rotation of a 32-bit word.
fn rotl_exec(x: u32, s: u32) -> (r: u32)
    requires
        1 <= s <= 31,
    ensures
        r == rotl(x, s),
{
    (x << s) | (x >> (32 - s))
}

/// The MD5 digest of `msg`, as sixteen bytes.
#[verifier::rlimit(100)]
pub fn md5(msg: &[u8]) -> (r: Vec<u8>)
    ensures
        r@ == spec_md5(msg@),
{
    let len = msg.len();
    let mut padded = slice_vec(msg, 0, len);
    padded.push(0x80);
    let z = (119 - (len % 64)) % 64;
    let ghost zpart = Seq::new(z as nat, |i: int| 0u8);
    let mut k: usize = 0;
    while k < z
        invariant
            k <= z,
            padded@ == msg@ + seq![0x80u8] + Seq::new(k as nat, |i: int| 0u8),
        decreases z - k,
    {
        padded.push(0);
        proof {
            assert(padded@ =~= msg@ + seq![0x80u8] + Seq::new(k as nat + 1, |i: int| 0u8));
        }
        k = k + 1;
    }
    let bits: u64 = ((len as u128 * 8) % 0x10000000000000000) as u64;
    let ghost nbits: nat = ((msg@.len() * 8) % 0x10000000000000000) as nat;
    proof {
        assert(bits as nat == nbits);
    }
    padded.push((bits % 256) as u8);
    padded.push(((bits / 0x100) % 256) as u8);
    padded.push(((bits / 0x10000) % 256) as u8);
    padded.push(((bits / 0x1000000) % 256) as u8);
    padded.push(((bits / 0x100000000) % 256) as u8);
    padded.push(((bits / 0x10000000000) % 256) as u8);
    padded.push(((bits / 0x1000000000000) % 256) as u8);
    padded.push(((bits / 0x100000000000000) % 256) as u8);
    proof {
        assert(padded@ =~= md5_pad(msg@));
    }
    let ghost pv = padded@;
    let mut a: u32 = 0x67452301;
    let mut b: u32 = 0xEFCDAB89;
    let mut c: u32 = 0x98BADCFE;
    let mut d: u32 = 0x10325476;
    let ghost st0 = (a, b, c, d);
    let total = padded.len();
    let mut off: usize = 0;
    proof {
        assert(pv.skip(0) =~= pv);
    }
    while total - off >= 64
        invariant
            off <= total,
            total == pv.len(),
            padded@ == pv,
            md5_blocks((a, b, c, d), pv.skip(off as int)) == md5_blocks(st0, pv),
        decreases total - off,
    {
        let ghost block = pv.skip(off as int).take(64);
        let ghost stb = (a, b, c, d);
        let mut aa = a;
        let mut bb = b;
        let mut cc = c;
        let mut dd = d;
        let mut i: usize = 0;
        while i < 64
            invariant
                i <= 64,
                off + 64 <= total,
                total == pv.len(),
                padded@ == pv,
                block == pv.skip(off as int).take(64),
                md5_rounds((aa, bb, cc, dd), block, i as int) == md5_rounds(stb, block, 0),
            decreases 64 - i,
        {
            let f: u32 = if i < 16 {
                (bb & cc) | ((!bb) & dd)
            } else if i < 32 {
                (dd & bb) | ((!dd) & cc)
            } else if i < 48 {
                bb ^ cc ^ dd
            } else {
                cc ^ (bb | (!dd))
            };
            let g: usize = if i < 16 {
                i
            } else if i < 32 {
                (5 * i + 1) % 16
            } else if i < 48 {
                (3 * i + 5) % 16
            } else {
                (7 * i) % 16
            };
            let m: u32 = (padded[off + 4 * g] as u32) + (padded[off + 4 * g + 1] as u32) * 0x100
                + (padded[off + 4 * g + 2] as u32) * 0x10000 + (padded[off + 4 * g + 3] as u32)
                * 0x1000000;
            proof {
                assert(block[4 * g as int] == pv[off as int + 4 * g]);
                assert(block[4 * g as int + 1] == pv[off as int + 4 * g + 1]);
                assert(block[4 * g as int + 2] == pv[off as int + 4 * g + 2]);
                assert(block[4 * g as int + 3] == pv[off as int + 4 * g + 3]);
                assert(g as int == md5_g(i as int));
                assert(m == word_at(block, md5_g(i as int)));
                assert(f == md5_f(bb, cc, dd, i as int));
            }
            let t = wadd_exec(wadd_exec(wadd_exec(f, aa), md5_k(i)), m);
            let nb = wadd_exec(bb, rotl_exec(t, md5_s(i)));
            let na = dd;
            let nd = cc;
            let nc = bb;
            aa = na;
            dd = nd;
            cc = nc;
            bb = nb;
            i = i + 1;
        }
        a = wadd_exec(a, aa);
        b = wadd_exec(b, bb);
        c = wadd_exec(c, cc);
        d = wadd_exec(d, dd);
        proof {
            assert(md5_rounds((aa, bb, cc, dd), block, 64) == (aa, bb, cc, dd));
            assert((a, b, c, d) == md5_block(stb, block));
            assert(pv.skip(off as int).skip(64) =~= pv.skip(off as int + 64));
        }
        off = off + 64;
    }
    proof {
        assert(pv.skip(off as int).len() < 64);
        assert(md5_blocks((a, b, c, d), pv.skip(off as int)) == (a, b, c, d));
    }
    let mut digest: Vec<u8> = Vec::new();
    digest.push((a % 256) as u8);
    digest.push(((a / 0x100) % 256) as u8);
    digest.push(((a / 0x10000) % 256) as u8);
    digest.push(((a / 0x1000000) % 256) as u8);
    digest.push((b % 256) as u8);
    digest.push(((b / 0x100) % 256) as u8);
    digest.push(((b / 0x10000) % 256) as u8);
    digest.push(((b / 0x1000000) % 256) as u8);
    digest.push((c % 256) as u8);
    digest.push(((c / 0x100) % 256) as u8);
    digest.push(((c / 0x10000) % 256) as u8);
    digest.push(((c / 0x1000000) % 256) as u8);
    digest.push((d % 256) as u8);
    digest.push(((d / 0x100) % 256) as u8);
    digest.push(((d / 0x10000) % 256) as u8);
    digest.push(((d / 0x1000000) % 256) as u8);
    proof {
        assert(digest@ =~= spec_md5(msg@));
    }
    digest
}

} // verus!
