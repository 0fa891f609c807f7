//! The RUP patch format.
//!
//! Header `NINJA2`, a command byte, five length-prefixed text fields
//! (author, title, version, genre, description), the declared source and
//! target sizes, and the MD5 digests of source and target.  Records are
//! offset-skip XOR runs: a relative offset advances the cursor, patch
//! bytes are XORed into the image until a zero byte, and the cursor
//! advances once more.  XOR is an involution, so the same patch applied
//! twice restores the original image; the decoder picks the direction by
//! the length of the image it is given.

use crate::buf::{adv, grow_to, sat_add, slice_vec, spec_u64_le_at, read_u64_le_at, prefix_vec};
use crate::error::{ErrKind, PatchError};
use crate::md5::{md5, spec_md5};
use crate::strutil::{bytes_to_string_lossy, utf8_lossy};
use crate::types::{PatchMetadata, PatchType, MAX_TARGET_SIZE};
use crate::varint::ups::{decode, spec_ups_vlv};
use vstd::prelude::*;
use vstd::string::StringExecFns;

verus! {

/// `b` starts with the RUP magic `NINJA2`.
pub open spec fn spec_rup_can(b: Seq<u8>) -> bool {
    &&& b.len() >= 6
    &&& b[0] == 0x4Eu8
    &&& b[1] == 0x49u8
    &&& b[2] == 0x4Eu8
    &&& b[3] == 0x4Au8
    &&& b[4] == 0x41u8
    &&& b[5] == 0x32u8
}

/// The position after skipping `count` length-prefixed strings from `i`.
pub open spec fn rup_skip_strings(patch: Seq<u8>, i: int, count: nat) -> Result<int, ErrKind>
    decreases count,
{
    if count == 0 {
        Ok(i)
    } else if i < 0 || i >= patch.len() {
        Err(ErrKind::UnexpectedEof)
    } else {
        rup_skip_strings(patch, i + 1 + patch[i], (count - 1) as nat)
    }
}

/// The position after the fixed header: the five text fields, two
/// 64-bit sizes and two 16-byte digests.
pub open spec fn spec_rup_header_end(patch: Seq<u8>) -> Result<int, ErrKind> {
    match rup_skip_strings(patch, 7, 5) {
        Err(k) => Err(k),
        Ok(p) => if p + 48 > patch.len() {
            Err(ErrKind::UnexpectedEof)
        } else {
            Ok(p + 48)
        },
    }
}

/// The declared source size.
pub open spec fn spec_rup_source_size(patch: Seq<u8>, hend: int) -> int {
    spec_u64_le_at(patch, hend - 48)
}

/// The declared target size.
pub open spec fn spec_rup_target_size(patch: Seq<u8>, hend: int) -> int {
    spec_u64_le_at(patch, hend - 40)
}

/// The declared source digest.
pub open spec fn spec_rup_source_md5(patch: Seq<u8>, hend: int) -> Seq<u8> {
    patch.subrange(hend - 32, hend - 16)
}

/// The declared target digest.
pub open spec fn spec_rup_target_md5(patch: Seq<u8>, hend: int) -> Seq<u8> {
    patch.subrange(hend - 16, hend)
}

/// The name of header text field `k`, in header order.
pub open spec fn rup_field_name(k: nat) -> Seq<char> {
    if k == 0 {
        "author"@
    } else if k == 1 {
        "title"@
    } else if k == 2 {
        "version"@
    } else if k == 3 {
        "genre"@
    } else {
        "description"@
    }
}

/// The bytes of header text field `k` (empty when the header is
/// malformed).
pub open spec fn rup_str_val(patch: Seq<u8>, k: nat) -> Seq<u8> {
    match rup_skip_strings(patch, 7, k) {
        Ok(p) => patch.subrange(p + 1, p + 1 + patch[p]),
        Err(_) => Seq::<u8>::empty(),
    }
}

/// Skipping one more string continues from where the previous skip
/// ended.
proof fn lemma_rup_skip_snoc(patch: Seq<u8>, i: int, k: nat)
    ensures
        match rup_skip_strings(patch, i, k) {
            Ok(p) => rup_skip_strings(patch, i, (k + 1) as nat) == (if 0 <= p < patch.len() {
                Ok::<int, ErrKind>(p + 1 + patch[p])
            } else {
                Err::<int, ErrKind>(ErrKind::UnexpectedEof)
            }),
            Err(e) => rup_skip_strings(patch, i, (k + 1) as nat) == Err::<int, ErrKind>(e),
        },
    decreases k,
{
    if k == 0 {
        if 0 <= i < patch.len() {
            assert(rup_skip_strings(patch, i + 1 + patch[i], 0) == Ok::<int, ErrKind>(
                i + 1 + patch[i],
            ));
        }
    } else if i < 0 || i >= patch.len() {
    } else {
        lemma_rup_skip_snoc(patch, i + 1 + patch[i], (k - 1) as nat);
        assert(rup_skip_strings(patch, i, k) == rup_skip_strings(patch, i + 1 + patch[i], (k
            - 1) as nat));
        assert(rup_skip_strings(patch, i, (k + 1) as nat) == rup_skip_strings(
            patch,
            i + 1 + patch[i],
            k,
        ));
        assert(((k - 1) as nat + 1) as nat == k);
    }
}

/// The XOR record stream from position `i` applied to `buf`; records
/// run to the end of the patch.
pub open spec fn rup_records(patch: Seq<u8>, i: int, pos: int, buf: Seq<u8>) -> Result<
    Seq<u8>,
    ErrKind,
>
    decreases patch.len() - i, 1int,
{
    if i < 0 {
        Err(ErrKind::UnexpectedEof)
    } else if i >= patch.len() {
        Ok(buf)
    } else {
        match spec_ups_vlv(patch.skip(i)) {
            Ok((rel, nb)) => rup_xor(
                patch,
                adv(patch, i, nb),
                sat_add(pos, rel as int, buf.len() as int),
                buf,
            ),
            Err(k) => Err(k),
        }
    }
}

/// The XOR run of one record: bytes are XORed into `buf` until a zero
/// byte, which ends the record and advances the cursor once more.
pub open spec fn rup_xor(patch: Seq<u8>, i: int, pos: int, buf: Seq<u8>) -> Result<Seq<u8>, ErrKind>
    decreases patch.len() - i, 0int,
{
    if i < 0 || i >= patch.len() {
        Err(ErrKind::UnexpectedEof)
    } else if patch[i] == 0 {
        rup_records(patch, i + 1, sat_add(pos, 1, buf.len() as int), buf)
    } else if pos >= buf.len() {
        Err(ErrKind::OutOfBounds)
    } else {
        rup_xor(patch, i + 1, pos + 1, buf.update(pos, buf[pos] ^ patch[i]))
    }
}

/// The structural walk of the record stream over an image of length
/// `len`.
pub open spec fn rup_walk(patch: Seq<u8>, i: int, pos: int, len: int) -> Result<(), ErrKind>
    decreases patch.len() - i, 1int,
{
    if i < 0 {
        Err(ErrKind::UnexpectedEof)
    } else if i >= patch.len() {
        Ok(())
    } else {
        match spec_ups_vlv(patch.skip(i)) {
            Ok((rel, nb)) => rup_walk_xor(patch, adv(patch, i, nb), sat_add(pos, rel as int, len), len),
            Err(k) => Err(k),
        }
    }
}

/// The structural walk of one XOR run.
pub open spec fn rup_walk_xor(patch: Seq<u8>, i: int, pos: int, len: int) -> Result<(), ErrKind>
    decreases patch.len() - i, 0int,
{
    if i < 0 || i >= patch.len() {
        Err(ErrKind::UnexpectedEof)
    } else if patch[i] == 0 {
        rup_walk(patch, i + 1, sat_add(pos, 1, len), len)
    } else if pos >= len {
        Err(ErrKind::OutOfBounds)
    } else {
        rup_walk_xor(patch, i + 1, pos + 1, len)
    }
}

/// Applying `patch` to `rom`.  The direction follows the image length:
/// an image of the source size becomes the target size and vice versa.
/// The XOR pass runs over the padded larger size and the result is cut
/// to the output size.
pub open spec fn spec_rup_apply(rom: Seq<u8>, patch: Seq<u8>) -> Result<Seq<u8>, ErrKind> {
    if !spec_rup_can(patch) {
        Err(ErrKind::InvalidMagic)
    } else {
        match spec_rup_header_end(patch) {
            Err(k) => Err(k),
            Ok(hend) => {
                let ss = spec_rup_source_size(patch, hend);
                let ts = spec_rup_target_size(patch, hend);
                if ss > MAX_TARGET_SIZE as int || ts > MAX_TARGET_SIZE as int {
                    Err(ErrKind::ResourceLimit)
                } else {
                    let out_len: int = if rom.len() == ss {
                        ts
                    } else if rom.len() == ts {
                        ss
                    } else {
                        -1
                    };
                    if out_len < 0 {
                        Err(ErrKind::InvalidFormat)
                    } else {
                        let big = vstd::math::max(ss, ts);
                        match rup_records(patch, hend, 0, grow_to(rom, big)) {
                            Err(k) => Err(k),
                            Ok(t) => Ok(t.take(out_len)),
                        }
                    }
                }
            },
        }
    }
}

/// The last step of an application: the XOR pass cut to the output
/// length.
pub open spec fn rup_finish(rr: Result<Seq<u8>, ErrKind>, out_len: int) -> Result<Seq<u8>, ErrKind> {
    match rr {
        Err(k) => Err(k),
        Ok(t) => Ok(t.take(out_len)),
    }
}

/// Validating `patch`: magic, header, size ceiling, and the record walk
/// over the padded larger size.
pub open spec fn spec_rup_validate(patch: Seq<u8>) -> Result<(), ErrKind> {
    if !spec_rup_can(patch) {
        Err(ErrKind::InvalidMagic)
    } else {
        match spec_rup_header_end(patch) {
            Err(k) => Err(k),
            Ok(hend) => {
                let ss = spec_rup_source_size(patch, hend);
                let ts = spec_rup_target_size(patch, hend);
                if ss > MAX_TARGET_SIZE as int || ts > MAX_TARGET_SIZE as int {
                    Err(ErrKind::ResourceLimit)
                } else {
                    rup_walk(patch, hend, 0, vstd::math::max(ss, ts))
                }
            },
        }
    }
}

/// Checksum-only verification, by MD5: with no target, the source is
/// held to the declared source digest; with a target, the target is
/// held to the declared target digest.
pub open spec fn spec_rup_verify(romv: Seq<u8>, patch: Seq<u8>, target: Option<Seq<u8>>) -> Result<
    (),
    ErrKind,
> {
    if !spec_rup_can(patch) {
        Err(ErrKind::InvalidMagic)
    } else {
        match spec_rup_header_end(patch) {
            Err(k) => Err(k),
            Ok(hend) => match target {
                Some(t) => if spec_md5(t) == spec_rup_target_md5(patch, hend) {
                    Ok(())
                } else {
                    Err(ErrKind::ChecksumMismatch)
                },
                None => if spec_md5(romv) == spec_rup_source_md5(patch, hend) {
                    Ok(())
                } else {
                    Err(ErrKind::ChecksumMismatch)
                },
            },
        }
    }
}

proof fn lemma_xor_unshift(a: u8, b: u8, c: u8, d: u8, p: u8)
    requires
        (a ^ (b ^ p)) == (c ^ (d ^ p)),
    ensures
        (a ^ b) == (c ^ d),
{
    assert((a ^ (b ^ p)) == (c ^ (d ^ p)) ==> (a ^ b) == (c ^ d)) by (bit_vector);
}

proof fn lemma_xor_solve(x: u8, y: u8, z: u8)
    requires
        (x ^ y) == (y ^ z),
    ensures
        x == z,
{
    assert((x ^ y) == (y ^ z) ==> x == z) by (bit_vector);
}

/// Two runs of the same record stream over images of equal length agree
/// on success, fail alike, and differ from their inputs by the same XOR
/// mask.
proof fn lemma_rup_mask(patch: Seq<u8>, i: int, pos: int, buf1: Seq<u8>, buf2: Seq<u8>)
    requires
        buf1.len() == buf2.len(),
        0 <= pos,
    ensures
        match (rup_records(patch, i, pos, buf1), rup_records(patch, i, pos, buf2)) {
            (Ok(t1), Ok(t2)) => t1.len() == buf1.len() && t2.len() == buf2.len() && forall|j: int|
                0 <= j < buf1.len() ==> (t1[j] ^ buf1[j]) == (t2[j] ^ buf2[j]),
            (Err(k1), Err(k2)) => k1 == k2,
            _ => false,
        },
    decreases patch.len() - i, 1int,
{
    if i < 0 {
    } else if i >= patch.len() {
        assert forall|j: int| 0 <= j < buf1.len() implies (buf1[j] ^ buf1[j]) == (buf2[j]
            ^ buf2[j]) by {
            assert((buf1[j] ^ buf1[j]) == (buf2[j] ^ buf2[j])) by (bit_vector);
        }
    } else {
        match spec_ups_vlv(patch.skip(i)) {
            Ok((rel, nb)) => {
                lemma_rup_mask_xor(
                    patch,
                    adv(patch, i, nb),
                    sat_add(pos, rel as int, buf1.len() as int),
                    buf1,
                    buf2,
                );
            },
            Err(_) => {},
        }
    }
}

/// Companion of [`lemma_rup_mask`] for the XOR run.
proof fn lemma_rup_mask_xor(patch: Seq<u8>, i: int, pos: int, buf1: Seq<u8>, buf2: Seq<u8>)
    requires
        buf1.len() == buf2.len(),
        0 <= pos,
    ensures
        match (rup_xor(patch, i, pos, buf1), rup_xor(patch, i, pos, buf2)) {
            (Ok(t1), Ok(t2)) => t1.len() == buf1.len() && t2.len() == buf2.len() && forall|j: int|
                0 <= j < buf1.len() ==> (t1[j] ^ buf1[j]) == (t2[j] ^ buf2[j]),
            (Err(k1), Err(k2)) => k1 == k2,
            _ => false,
        },
    decreases patch.len() - i, 0int,
{
    if i < 0 || i >= patch.len() {
    } else if patch[i] == 0 {
        lemma_rup_mask(patch, i + 1, sat_add(pos, 1, buf1.len() as int), buf1, buf2);
    } else if pos >= buf1.len() {
    } else {
        let p = patch[i];
        let b1 = buf1.update(pos, buf1[pos] ^ p);
        let b2 = buf2.update(pos, buf2[pos] ^ p);
        lemma_rup_mask_xor(patch, i + 1, pos + 1, b1, b2);
        match (rup_xor(patch, i + 1, pos + 1, b1), rup_xor(patch, i + 1, pos + 1, b2)) {
            (Ok(t1), Ok(t2)) => {
                assert forall|j: int| 0 <= j < buf1.len() implies (t1[j] ^ buf1[j]) == (t2[j]
                    ^ buf2[j]) by {
                    if j == pos {
                        lemma_xor_unshift(t1[j], buf1[j], t2[j], buf2[j], p);
                    }
                }
            },
            _ => {},
        }
    }
}

/// The record stream succeeds or fails independently of the image
/// content; only the image length matters, and the length is preserved.
proof fn lemma_rup_records_walk(patch: Seq<u8>, i: int, pos: int, buf: Seq<u8>)
    requires
        0 <= pos,
    ensures
        match rup_records(patch, i, pos, buf) {
            Ok(t) => rup_walk(patch, i, pos, buf.len() as int) is Ok && t.len() == buf.len(),
            Err(k) => rup_walk(patch, i, pos, buf.len() as int) == Err::<(), ErrKind>(k),
        },
    decreases patch.len() - i, 1int,
{
    if i < 0 {
    } else if i >= patch.len() {
    } else {
        match spec_ups_vlv(patch.skip(i)) {
            Ok((rel, nb)) => {
                lemma_rup_xor_walk(
                    patch,
                    adv(patch, i, nb),
                    sat_add(pos, rel as int, buf.len() as int),
                    buf,
                );
            },
            Err(_) => {},
        }
    }
}

/// Companion of [`lemma_rup_records_walk`] for the XOR run.
proof fn lemma_rup_xor_walk(patch: Seq<u8>, i: int, pos: int, buf: Seq<u8>)
    requires
        0 <= pos,
    ensures
        match rup_xor(patch, i, pos, buf) {
            Ok(t) => rup_walk_xor(patch, i, pos, buf.len() as int) is Ok && t.len() == buf.len(),
            Err(k) => rup_walk_xor(patch, i, pos, buf.len() as int) == Err::<(), ErrKind>(k),
        },
    decreases patch.len() - i, 0int,
{
    if i < 0 || i >= patch.len() {
    } else if patch[i] == 0 {
        lemma_rup_records_walk(patch, i + 1, sat_add(pos, 1, buf.len() as int), buf);
    } else if pos >= buf.len() {
    } else {
        assert(buf.update(pos, buf[pos] ^ patch[i]).len() == buf.len());
        lemma_rup_xor_walk(patch, i + 1, pos + 1, buf.update(pos, buf[pos] ^ patch[i]));
    }
}

/// RUP bidirectionality: a patch that takes a source-sized image to the
/// target applies to the result and restores the source, byte for byte.
/// (When the patch shrinks the image, the cut-off tail cannot be
/// restored, so the law is stated for non-shrinking patches.)
pub proof fn lemma_rup_round_trip(rom: Seq<u8>, patch: Seq<u8>, hend: int)
    requires
        spec_rup_header_end(patch) == Ok::<int, ErrKind>(hend),
        rom.len() == spec_rup_source_size(patch, hend),
        spec_rup_source_size(patch, hend) <= spec_rup_target_size(patch, hend),
    ensures
        spec_rup_apply(rom, patch) matches Ok(t) ==> spec_rup_apply(t, patch) == Ok::<
            Seq<u8>,
            ErrKind,
        >(rom),
{
    let ss = spec_rup_source_size(patch, hend);
    let ts = spec_rup_target_size(patch, hend);
    if spec_rup_can(patch) && ss <= MAX_TARGET_SIZE as int && ts <= MAX_TARGET_SIZE as int {
        let big = vstd::math::max(ss, ts);
        let buf0 = grow_to(rom, big);
        match rup_records(patch, hend, 0, buf0) {
            Ok(t1) => {
                lemma_rup_mask(patch, hend, 0, buf0, buf0);
                assert(t1.len() == buf0.len());
                let t = t1.take(ts);
                assert(t =~= t1);
                if rom.len() == ts {
                    // the two sizes coincide and both passes run alike
                    lemma_rup_mask(patch, hend, 0, buf0, t1);
                    match rup_records(patch, hend, 0, t1) {
                        Ok(t2) => {
                            assert forall|j: int| 0 <= j < buf0.len() implies t2[j] == buf0[j] by {
                                lemma_xor_solve(t2[j], t1[j], buf0[j]);
                            }
                            assert(t2 =~= buf0);
                            assert(grow_to(t, big) =~= t1);
                            assert(buf0.take(ss) =~= rom);
                        },
                        Err(_) => {},
                    }
                } else {
                    assert(t.len() == ts);
                    assert(grow_to(t, big) =~= t1);
                    lemma_rup_mask(patch, hend, 0, buf0, t1);
                    match rup_records(patch, hend, 0, t1) {
                        Ok(t2) => {
                            assert forall|j: int| 0 <= j < buf0.len() implies t2[j] == buf0[j] by {
                                lemma_xor_solve(t2[j], t1[j], buf0[j]);
                            }
                            assert(t2 =~= buf0);
                            assert(buf0.take(ss) =~= rom);
                        },
                        Err(_) => {},
                    }
                }
            },
            Err(_) => {},
        }
    }
}

/// `validate` accepts exactly the patches `apply` executes in full on
/// an image of either declared size: every RUP failure past the
/// direction check is structural to the patch.
pub proof fn lemma_rup_validate_iff_apply(rom: Seq<u8>, patch: Seq<u8>, hend: int)
    requires
        spec_rup_header_end(patch) == Ok::<int, ErrKind>(hend),
        rom.len() == spec_rup_source_size(patch, hend) || rom.len() == spec_rup_target_size(
            patch,
            hend,
        ),
    ensures
        spec_rup_validate(patch) is Ok <==> spec_rup_apply(rom, patch) is Ok,
        (spec_rup_validate(patch) matches Err(k) ==> spec_rup_apply(rom, patch) == Err::<
            Seq<u8>,
            ErrKind,
        >(k)),
{
    let ss = spec_rup_source_size(patch, hend);
    let ts = spec_rup_target_size(patch, hend);
    if spec_rup_can(patch) && ss <= MAX_TARGET_SIZE as int && ts <= MAX_TARGET_SIZE as int {
        let big = vstd::math::max(ss, ts);
        lemma_rup_records_walk(patch, hend, 0, grow_to(rom, big));
        assert(grow_to(rom, big).len() == big);
    }
}

/// Parse the fixed header; returns the header end, the sizes, and the
/// positions of the five text fields.
fn parse_header(patch: &[u8]) -> (r: Result<(usize, u64, u64), PatchError>)
    requires
        spec_rup_can(patch@),
    ensures
        match r {
            Ok(t) => {
                &&& spec_rup_header_end(patch@) == Ok::<int, ErrKind>(t.0 as int)
                &&& 55 <= t.0 <= patch@.len()
                &&& t.1 as int == spec_rup_source_size(patch@, t.0 as int)
                &&& t.2 as int == spec_rup_target_size(patch@, t.0 as int)
            },
            Err(e) => spec_rup_header_end(patch@) matches Err(k) && k == e.kind() && e.kind()
                == ErrKind::UnexpectedEof,
        },
{
    let n = patch.len();
    let mut p: u128 = 7;
    let mut c: usize = 0;
    while c < 5
        invariant
            c <= 5,
            7 <= p,
            p <= n as u128 + 5 * 256,
            n == patch@.len(),
            rup_skip_strings(patch@, p as int, (5 - c) as nat) == rup_skip_strings(patch@, 7, 5),
        decreases 5 - c,
    {
        if p >= n as u128 {
            return Err(PatchError::UnexpectedEof("header text fields truncated"));
        }
        let l = patch[p as usize] as u128;
        p = p + 1 + l;
        c = c + 1;
    }
    if p > n as u128 || (n as u128) - p < 48 {
        return Err(PatchError::UnexpectedEof("header sizes and digests truncated"));
    }
    let pu = p as usize;
    let ss = read_u64_le_at(patch, pu);
    let ts = read_u64_le_at(patch, pu + 8);
    Ok((pu + 48, ss, ts))
}

/// RUP format decoder.
pub struct RupPatcher;

impl RupPatcher {
    /// The byte-prefix test for the RUP magic; never fails.
    pub fn can_handle(data: &[u8]) -> (r: bool)
        ensures
            r == spec_rup_can(data@),
    {
        data.len() >= 6 && data[0] == 0x4E && data[1] == 0x49 && data[2] == 0x4E && data[3] == 0x4A
            && data[4] == 0x41 && data[5] == 0x32
    }

    /// Applies `patch` to `rom`: forward when the image has the source
    /// size, backward when it has the target size.  On error the image
    /// is left unchanged.
    pub fn apply(&self, rom: &mut Vec<u8>, patch: &[u8]) -> (r: Result<(), PatchError>)
        ensures
            match r {
                Ok(()) => spec_rup_apply(old(rom)@, patch@) matches Ok(t) && final(rom)@ == t,
                Err(e) => spec_rup_apply(old(rom)@, patch@) matches Err(k) && k == e.kind()
                    && final(rom)@ == old(rom)@ && (e matches PatchError::OutOfBounds {
                    offset,
                    rom_size,
                } ==> (spec_rup_header_end(patch@) matches Ok(hend) && offset as int
                    == vstd::math::max(
                    spec_rup_source_size(patch@, hend),
                    spec_rup_target_size(patch@, hend),
                ) && rom_size as int == offset as int)),
            },
    {
        let n = patch.len();
        if !Self::can_handle(patch) {
            return Err(PatchError::InvalidMagic {
                expected: vec![0x4E, 0x49, 0x4E, 0x4A, 0x41, 0x32],
                actual: prefix_vec(patch, 6),
            });
        }
        let (hend, ss, ts) = match parse_header(patch) {
            Ok(t) => t,
            Err(e) => {
                return Err(e);
            },
        };
        if ss > MAX_TARGET_SIZE as u64 || ts > MAX_TARGET_SIZE as u64 {
            return Err(PatchError::ResourceLimit);
        }
        let out_len: usize = if rom.len() as u64 == ss {
            ts as usize
        } else if rom.len() as u64 == ts {
            ss as usize
        } else {
            return Err(PatchError::InvalidFormat("image matches neither declared size"));
        };
        let big: usize = if ss > ts {
            ss as usize
        } else {
            ts as usize
        };
        let mut out = slice_vec_from(rom.as_slice());
        crate::buf::grow_to_exec(&mut out, big);
        let ghost buf0 = out@;
        proof {
            assert(buf0 == grow_to(old(rom)@, vstd::math::max(ss as int, ts as int)));
        }
        let mut i: usize = hend;
        let mut pos: usize = 0;
        while i < n
            invariant
                i <= n,
                pos <= big,
                big <= MAX_TARGET_SIZE,
                out@.len() == big,
                n == patch@.len(),
                (spec_rup_header_end(patch@) matches Ok(h) && big as int == vstd::math::max(
                    spec_rup_source_size(patch@, h),
                    spec_rup_target_size(patch@, h),
                )),
                rup_records(patch@, i as int, pos as int, out@) == rup_records(
                    patch@,
                    hend as int,
                    0,
                    buf0,
                ),
                spec_rup_apply(old(rom)@, patch@) == rup_finish(
                    rup_records(patch@, hend as int, 0, buf0),
                    out_len as int,
                ),
            decreases n - i,
        {
            let ghost i0: usize = i;
            proof {
                assert(patch@.subrange(i as int, n as int) =~= patch@.skip(i as int));
            }
            let (rel, nb) = match decode(&patch[i..n]) {
                Ok(t) => t,
                Err(e) => {
                    return Err(e);
                },
            };
            i = i + nb;
            let p2: u128 = pos as u128 + rel as u128;
            pos = if p2 > big as u128 {
                big
            } else {
                p2 as usize
            };
            // the XOR run of this record
            loop
                invariant_except_break
                    i0 < i <= n,
                    pos <= big,
                    big <= MAX_TARGET_SIZE,
                    out@.len() == big,
                    n == patch@.len(),
                    (spec_rup_header_end(patch@) matches Ok(h) && big as int == vstd::math::max(
                    spec_rup_source_size(patch@, h),
                    spec_rup_target_size(patch@, h),
                )),
                    rup_xor(patch@, i as int, pos as int, out@) == rup_records(
                        patch@,
                        hend as int,
                        0,
                        buf0,
                    ),
                    spec_rup_apply(old(rom)@, patch@) == rup_finish(
                        rup_records(patch@, hend as int, 0, buf0),
                        out_len as int,
                    ),
                ensures
                    i0 < i <= n,
                    pos <= big,
                    out@.len() == big,
                    rup_records(patch@, i as int, pos as int, out@) == rup_records(
                        patch@,
                        hend as int,
                        0,
                        buf0,
                    ),
                decreases n - i,
            {
                if i >= n {
                    return Err(PatchError::UnexpectedEof("XOR record has no terminator"));
                }
                if patch[i] == 0 {
                    i = i + 1;
                    pos = if pos >= big {
                        big
                    } else {
                        pos + 1
                    };
                    break;
                }
                if pos >= big {
                    return Err(PatchError::OutOfBounds { offset: pos, rom_size: big });
                }
                out[pos] = out[pos] ^ patch[i];
                i = i + 1;
                pos = pos + 1;
            }
        }
        out.truncate(out_len);
        proof {
            assert(out@ == rup_records(patch@, hend as int, 0, buf0).unwrap().take(out_len as int));
        }
        *rom = out;
        Ok(())
    }

    /// Header sizes, digests, and the five text fields.
    pub fn metadata(patch: &[u8]) -> (r: Result<PatchMetadata, PatchError>)
        ensures
            match r {
                Ok(m) => {
                    &&& spec_rup_can(patch@)
                    &&& spec_rup_header_end(patch@) matches Ok(hend)
                    &&& m.patch_type == PatchType::Rup
                    &&& m.source_size matches Some(s) && s as int == spec_rup_source_size(
                        patch@,
                        spec_rup_header_end(patch@).unwrap(),
                    )
                    &&& m.target_size matches Some(t) && t as int == spec_rup_target_size(
                        patch@,
                        spec_rup_header_end(patch@).unwrap(),
                    )
                    &&& m.source_checksum matches Some(sc) && sc@ == spec_rup_source_md5(
                        patch@,
                        spec_rup_header_end(patch@).unwrap(),
                    )
                    &&& m.target_checksum matches Some(tc) && tc@ == spec_rup_target_md5(
                        patch@,
                        spec_rup_header_end(patch@).unwrap(),
                    )
                    &&& m.extra@.len() == 5
                    &&& forall|j: int|
                        0 <= j < 5 ==> (#[trigger] m.extra@[j]).0@ == rup_field_name(j as nat)
                            && m.extra@[j].1@ == utf8_lossy(rup_str_val(patch@, j as nat))
                },
                Err(e) => {
                    ||| !spec_rup_can(patch@) && e.kind() == ErrKind::InvalidMagic
                    ||| spec_rup_can(patch@) && (spec_rup_header_end(patch@) matches Err(k) && k
                        == e.kind())
                    ||| spec_rup_can(patch@) && (spec_rup_header_end(patch@) matches Ok(hend)
                        && (spec_rup_source_size(patch@, hend) > usize::MAX
                        || spec_rup_target_size(patch@, hend) > usize::MAX)) && e.kind()
                        == ErrKind::InvalidFormat
                },
            },
    {
        let n = patch.len();
        if !Self::can_handle(patch) {
            return Err(PatchError::InvalidMagic {
                expected: vec![0x4E, 0x49, 0x4E, 0x4A, 0x41, 0x32],
                actual: prefix_vec(patch, 6),
            });
        }
        let (hend, ss, ts) = match parse_header(patch) {
            Ok(t) => t,
            Err(e) => {
                return Err(e);
            },
        };
        if ss > usize::MAX as u64 || ts > usize::MAX as u64 {
            return Err(PatchError::InvalidFormat("declared size exceeds the address space"));
        }
        let mut m = PatchMetadata::new(PatchType::Rup);
        m.source_size = Some(ss as usize);
        m.target_size = Some(ts as usize);
        m.source_checksum = Some(slice_vec(patch, hend - 32, hend - 16));
        m.target_checksum = Some(slice_vec(patch, hend - 16, hend));
        let mut m2 = m;
        let mut p: usize = 7;
        let mut c: usize = 0;
        while c < 5
            invariant
                c <= 5,
                7 <= p,
                p <= n,
                48 <= hend <= n,
                n == patch@.len(),
                m2.extra@.len() == c,
                m2.patch_type == PatchType::Rup,
                m2.source_size == Some(ss as usize),
                m2.target_size == Some(ts as usize),
                (m2.source_checksum matches Some(sc) && sc@ == patch@.subrange(
                    hend as int - 32,
                    hend as int - 16,
                )),
                (m2.target_checksum matches Some(tc) && tc@ == patch@.subrange(
                    hend as int - 16,
                    hend as int,
                )),
                rup_skip_strings(patch@, p as int, (5 - c) as nat) == Ok::<int, ErrKind>(
                    hend as int - 48,
                ),
                rup_skip_strings(patch@, 7, c as nat) == Ok::<int, ErrKind>(p as int),
                forall|j: int|
                    0 <= j < c ==> (#[trigger] m2.extra@[j]).0@ == rup_field_name(j as nat)
                        && m2.extra@[j].1@ == utf8_lossy(rup_str_val(patch@, j as nat)),
            decreases 5 - c,
        {
            proof {
                assert(p < n);
            }
            let l = patch[p] as usize;
            proof {
                assert(rup_skip_strings(patch@, p as int + 1 + l as int, (5 - (c + 1)) as nat)
                    == Ok::<int, ErrKind>(hend as int - 48));
                if c + 1 < 5 {
                    assert(p as int + 1 + l < n as int);
                } else {
                    assert(p as int + 1 + l == hend as int - 48);
                }
                lemma_rup_skip_snoc(patch@, 7, c as nat);
            }
            let field = slice_vec(patch, p + 1, p + 1 + l);
            let text = bytes_to_string_lossy(field.as_slice());
            let label: &str = if c == 0 {
                "author"
            } else if c == 1 {
                "title"
            } else if c == 2 {
                "version"
            } else if c == 3 {
                "genre"
            } else {
                "description"
            };
            proof {
                assert(label@ == rup_field_name(c as nat));
                assert(rup_str_val(patch@, c as nat) == patch@.subrange(
                    p as int + 1,
                    p as int + 1 + l,
                ));
            }
            m2 = m2.with_extra(String::from_str(label), text);
            p = p + 1 + l;
            c = c + 1;
        }
        Ok(m2)
    }

    /// Full structural walk: magic, header, and every record against the
    /// padded larger size.
    pub fn validate(patch: &[u8]) -> (r: Result<(), PatchError>)
        ensures
            match r {
                Ok(()) => spec_rup_validate(patch@) is Ok,
                Err(e) => spec_rup_validate(patch@) matches Err(k) && k == e.kind() && (e matches
                    PatchError::OutOfBounds { offset, rom_size } ==> (spec_rup_header_end(patch@)
                    matches Ok(hend) && offset as int == vstd::math::max(
                    spec_rup_source_size(patch@, hend),
                    spec_rup_target_size(patch@, hend),
                ) && rom_size as int == offset as int)),
            },
    {
        let n = patch.len();
        if !Self::can_handle(patch) {
            return Err(PatchError::InvalidMagic {
                expected: vec![0x4E, 0x49, 0x4E, 0x4A, 0x41, 0x32],
                actual: prefix_vec(patch, 6),
            });
        }
        let (hend, ss, ts) = match parse_header(patch) {
            Ok(t) => t,
            Err(e) => {
                return Err(e);
            },
        };
        if ss > MAX_TARGET_SIZE as u64 || ts > MAX_TARGET_SIZE as u64 {
            return Err(PatchError::ResourceLimit);
        }
        let big: usize = if ss > ts {
            ss as usize
        } else {
            ts as usize
        };
        let mut i: usize = hend;
        let mut pos: usize = 0;
        while i < n
            invariant
                i <= n,
                pos <= big,
                big <= MAX_TARGET_SIZE,
                n == patch@.len(),
                (spec_rup_header_end(patch@) matches Ok(h) && big as int == vstd::math::max(
                    spec_rup_source_size(patch@, h),
                    spec_rup_target_size(patch@, h),
                )),
                rup_walk(patch@, i as int, pos as int, big as int) == rup_walk(
                    patch@,
                    hend as int,
                    0,
                    big as int,
                ),
                spec_rup_validate(patch@) == rup_walk(patch@, hend as int, 0, big as int),
            decreases n - i,
        {
            let ghost i0: usize = i;
            proof {
                assert(patch@.subrange(i as int, n as int) =~= patch@.skip(i as int));
            }
            let (rel, nb) = match decode(&patch[i..n]) {
                Ok(t) => t,
                Err(e) => {
                    return Err(e);
                },
            };
            i = i + nb;
            let p2: u128 = pos as u128 + rel as u128;
            pos = if p2 > big as u128 {
                big
            } else {
                p2 as usize
            };
            // the XOR run of this record
            loop
                invariant_except_break
                    i0 < i <= n,
                    pos <= big,
                    big <= MAX_TARGET_SIZE,
                    n == patch@.len(),
                    (spec_rup_header_end(patch@) matches Ok(h) && big as int == vstd::math::max(
                    spec_rup_source_size(patch@, h),
                    spec_rup_target_size(patch@, h),
                )),
                    rup_walk_xor(patch@, i as int, pos as int, big as int) == rup_walk(
                        patch@,
                        hend as int,
                        0,
                        big as int,
                    ),
                    spec_rup_validate(patch@) == rup_walk(patch@, hend as int, 0, big as int),
                ensures
                    i0 < i <= n,
                    pos <= big,
                    rup_walk(patch@, i as int, pos as int, big as int) == rup_walk(
                        patch@,
                        hend as int,
                        0,
                        big as int,
                    ),
                decreases n - i,
            {
                if i >= n {
                    return Err(PatchError::UnexpectedEof("XOR record has no terminator"));
                }
                if patch[i] == 0 {
                    i = i + 1;
                    pos = if pos >= big {
                        big
                    } else {
                        pos + 1
                    };
                    break;
                }
                if pos >= big {
                    return Err(PatchError::OutOfBounds { offset: pos, rom_size: big });
                }
                i = i + 1;
                pos = pos + 1;
            }
        }
        Ok(())
    }

    /// Checksum-only verification of the source (no target) or of the
    /// target image against the declared MD5 digests.
    pub fn verify(rom: &[u8], patch: &[u8], target: Option<&[u8]>) -> (r: Result<(), PatchError>)
        ensures
            match r {
                Ok(()) => spec_rup_verify(
                    rom@,
                    patch@,
                    match target {
                        Some(t) => Some(t@),
                        None => None,
                    },
                ) is Ok,
                Err(e) => spec_rup_verify(
                    rom@,
                    patch@,
                    match target {
                        Some(t) => Some(t@),
                        None => None,
                    },
                ) matches Err(k) && k == e.kind(),
            },
    {
        if !Self::can_handle(patch) {
            return Err(PatchError::InvalidMagic {
                expected: vec![0x4E, 0x49, 0x4E, 0x4A, 0x41, 0x32],
                actual: prefix_vec(patch, 6),
            });
        }
        let (hend, _ss, _ts) = match parse_header(patch) {
            Ok(t) => t,
            Err(e) => {
                return Err(e);
            },
        };
        match target {
            Some(t) => {
                let declared = slice_vec(patch, hend - 16, hend);
                let got = md5(t);
                if eq_bytes(got.as_slice(), declared.as_slice()) {
                    Ok(())
                } else {
                    Err(PatchError::ChecksumMismatch { expected: declared, actual: got })
                }
            },
            None => {
                let declared = slice_vec(patch, hend - 32, hend - 16);
                let got = md5(rom);
                if eq_bytes(got.as_slice(), declared.as_slice()) {
                    Ok(())
                } else {
                    Err(PatchError::ChecksumMismatch { expected: declared, actual: got })
                }
            },
        }
    }
}

/// Whether two byte slices hold the same bytes.
pub fn eq_bytes(a: &[u8], b: &[u8]) -> (r: bool)
    ensures
        r == (a@ == b@),
{
    if a.len() != b.len() {
        proof {
            assert(a@.len() != b@.len());
        }
        return false;
    }
    let mut k: usize = 0;
    while k < a.len()
        invariant
            k <= a@.len(),
            a@.len() == b@.len(),
            forall|j: int| 0 <= j < k ==> a@[j] == b@[j],
        decreases a@.len() - k,
    {
        if a[k] != b[k] {
            return false;
        }
        k = k + 1;
    }
    proof {
        assert(a@ =~= b@);
    }
    true
}

/// A fresh copy of a byte slice.
fn slice_vec_from(data: &[u8]) -> (r: Vec<u8>)
    ensures
        r@ == data@,
{
    let r = slice_vec(data, 0, data.len());
    proof {
        assert(data@.subrange(0, data@.len() as int) =~= data@);
    }
    r
}

} // verus!
