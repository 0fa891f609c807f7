//! The UPS patch format.
//!
//! Header `UPS1`, then the declared input and output sizes as UPS
//! variable-length values, then XOR records until the 12-byte trailer of
//! three little-endian CRC-32 checksums: input, output, patch.  Each
//! record advances a cursor by a relative offset, XORs patch bytes into
//! the image until a zero byte, then advances the cursor one more step.
//! The patch checksum covers every byte but the last four.

use crate::buf::{adv, read_u32_le_at, resize_seq, resize_to, sat_add, spec_u32_le_at, spec_u32_le_bytes, u32_le_vec, prefix_vec};
use crate::crc32::{compute, spec_crc32};
use crate::error::{ErrKind, PatchError};
use crate::types::{PatchMetadata, PatchType, MAX_TARGET_SIZE};
use crate::varint::ups::{decode, spec_ups_vlv};
use vstd::prelude::*;

verus! {

/// `b` starts with the UPS magic `UPS1`.
pub open spec fn spec_ups_can(b: Seq<u8>) -> bool {
    &&& b.len() >= 4
    &&& b[0] == 0x55u8
    &&& b[1] == 0x50u8
    &&& b[2] == 0x53u8
    &&& b[3] == 0x31u8
}

/// The declared input size, output size, and the position just after the
/// header.
pub open spec fn spec_ups_header(patch: Seq<u8>) -> Result<(nat, nat, int), ErrKind> {
    match spec_ups_vlv(patch.skip(4)) {
        Ok((inp, n1)) => match spec_ups_vlv(patch.skip(4 + n1 as int)) {
            Ok((outp, n2)) => Ok((inp, outp, 4 + n1 as int + n2 as int)),
            Err(k) => Err(k),
        },
        Err(k) => Err(k),
    }
}

/// The declared input CRC-32 (first trailer field).
pub open spec fn spec_ups_input_crc(patch: Seq<u8>) -> int {
    spec_u32_le_at(patch, patch.len() - 12)
}

/// The declared output CRC-32 (second trailer field).
pub open spec fn spec_ups_output_crc(patch: Seq<u8>) -> int {
    spec_u32_le_at(patch, patch.len() - 8)
}

/// The declared patch CRC-32 (last trailer field), covering every byte
/// before it.
pub open spec fn spec_ups_patch_crc(patch: Seq<u8>) -> int {
    spec_u32_le_at(patch, patch.len() - 4)
}

/// The XOR record stream from position `i` applied to `buf`; `pos` is
/// the ROM cursor.  Record data must stay before the 12-byte trailer.
pub open spec fn ups_records(patch: Seq<u8>, i: int, pos: int, buf: Seq<u8>) -> Result<
    Seq<u8>,
    ErrKind,
>
    decreases patch.len() - i, 1int,
{
    if i < 0 {
        Err(ErrKind::UnexpectedEof)
    } else if i >= patch.len() - 12 {
        Ok(buf)
    } else {
        match spec_ups_vlv(patch.skip(i)) {
            Ok((rel, nb)) => ups_xor(
                patch,
                adv(patch, i, nb),
                sat_add(pos, rel as int, buf.len() as int),
                buf,
            ),
            Err(k) => Err(k),
        }
    }
}

/// The XOR run of one record: bytes are XORed into `buf` until a zero
/// byte, which ends the record and advances the cursor once more.
pub open spec fn ups_xor(patch: Seq<u8>, i: int, pos: int, buf: Seq<u8>) -> Result<Seq<u8>, ErrKind>
    decreases patch.len() - i, 0int,
{
    if i < 0 || i >= patch.len() - 12 {
        Err(ErrKind::UnexpectedEof)
    } else if patch[i] == 0 {
        ups_records(patch, i + 1, sat_add(pos, 1, buf.len() as int), buf)
    } else if pos >= buf.len() {
        Err(ErrKind::OutOfBounds)
    } else {
        ups_xor(patch, i + 1, pos + 1, buf.update(pos, buf[pos] ^ patch[i]))
    }
}

/// The structural walk of the record stream alone, over an image of
/// length `len`.
pub open spec fn ups_walk(patch: Seq<u8>, i: int, pos: int, len: int) -> Result<(), ErrKind>
    decreases patch.len() - i, 1int,
{
    if i < 0 {
        Err(ErrKind::UnexpectedEof)
    } else if i >= patch.len() - 12 {
        Ok(())
    } else {
        match spec_ups_vlv(patch.skip(i)) {
            Ok((rel, nb)) => ups_walk_xor(patch, adv(patch, i, nb), sat_add(pos, rel as int, len), len),
            Err(k) => Err(k),
        }
    }
}

/// The structural walk of one XOR run.
pub open spec fn ups_walk_xor(patch: Seq<u8>, i: int, pos: int, len: int) -> Result<(), ErrKind>
    decreases patch.len() - i, 0int,
{
    if i < 0 || i >= patch.len() - 12 {
        Err(ErrKind::UnexpectedEof)
    } else if patch[i] == 0 {
        ups_walk(patch, i + 1, sat_add(pos, 1, len), len)
    } else if pos >= len {
        Err(ErrKind::OutOfBounds)
    } else {
        ups_walk_xor(patch, i + 1, pos + 1, len)
    }
}

/// The record stream succeeds or fails independently of the image
/// content; only the image length matters, and the length is preserved.
pub proof fn lemma_ups_records_walk(patch: Seq<u8>, i: int, pos: int, buf: Seq<u8>)
    requires
        0 <= pos,
    ensures
        match ups_records(patch, i, pos, buf) {
            Ok(t) => ups_walk(patch, i, pos, buf.len() as int) is Ok && t.len() == buf.len(),
            Err(k) => ups_walk(patch, i, pos, buf.len() as int) == Err::<(), ErrKind>(k),
        },
    decreases patch.len() - i, 1int,
{
    if i < 0 {
    } else if i >= patch.len() - 12 {
    } else {
        match spec_ups_vlv(patch.skip(i)) {
            Ok((rel, nb)) => {
                lemma_ups_xor_walk(
                    patch,
                    adv(patch, i, nb),
                    sat_add(pos, rel as int, buf.len() as int),
                    buf,
                );
            },
            Err(_) => {},
        }
    }
}

/// Companion of [`lemma_ups_records_walk`] for the XOR run.
pub proof fn lemma_ups_xor_walk(patch: Seq<u8>, i: int, pos: int, buf: Seq<u8>)
    requires
        0 <= pos,
    ensures
        match ups_xor(patch, i, pos, buf) {
            Ok(t) => ups_walk_xor(patch, i, pos, buf.len() as int) is Ok && t.len() == buf.len(),
            Err(k) => ups_walk_xor(patch, i, pos, buf.len() as int) == Err::<(), ErrKind>(k),
        },
    decreases patch.len() - i, 0int,
{
    if i < 0 || i >= patch.len() - 12 {
    } else if patch[i] == 0 {
        lemma_ups_records_walk(patch, i + 1, sat_add(pos, 1, buf.len() as int), buf);
    } else if pos >= buf.len() {
    } else {
        assert(buf.update(pos, buf[pos] ^ patch[i]).len() == buf.len());
        lemma_ups_xor_walk(patch, i + 1, pos + 1, buf.update(pos, buf[pos] ^ patch[i]));
    }
}

/// The last step of an application: the output checksum of the
/// assembled image is held to the declared one.
pub open spec fn ups_finish(patch: Seq<u8>, rr: Result<Seq<u8>, ErrKind>) -> Result<
    Seq<u8>,
    ErrKind,
> {
    match rr {
        Err(k) => Err(k),
        Ok(t) => if spec_crc32(t) as int != spec_ups_output_crc(patch) {
            Err(ErrKind::ChecksumMismatch)
        } else {
            Ok(t)
        },
    }
}

/// Applying `patch` to `src`.  Structural checks come first (magic,
/// trailer room, patch checksum, header), then the declared ceiling and
/// source size, the source checksum, the record stream, and last the
/// output checksum of the assembled image.
pub open spec fn spec_ups_apply(src: Seq<u8>, patch: Seq<u8>) -> Result<Seq<u8>, ErrKind> {
    if !spec_ups_can(patch) {
        Err(ErrKind::InvalidMagic)
    } else if patch.len() < 16 {
        Err(ErrKind::UnexpectedEof)
    } else if spec_crc32(patch.subrange(0, patch.len() - 4)) as int != spec_ups_patch_crc(patch) {
        Err(ErrKind::ChecksumMismatch)
    } else {
        match spec_ups_header(patch) {
            Err(k) => Err(k),
            Ok((inp, outp, hend)) => if hend > patch.len() - 12 {
                Err(ErrKind::UnexpectedEof)
            } else if outp > MAX_TARGET_SIZE as nat {
                Err(ErrKind::ResourceLimit)
            } else if src.len() != inp {
                Err(ErrKind::InvalidFormat)
            } else if spec_crc32(src) as int != spec_ups_input_crc(patch) {
                Err(ErrKind::ChecksumMismatch)
            } else {
                ups_finish(patch, ups_records(patch, hend, 0, resize_seq(src, outp as int)))
            },
        }
    }
}

/// Validating `patch`: the structural walk alone, with no image at hand.
pub open spec fn spec_ups_validate(patch: Seq<u8>) -> Result<(), ErrKind> {
    if !spec_ups_can(patch) {
        Err(ErrKind::InvalidMagic)
    } else if patch.len() < 16 {
        Err(ErrKind::UnexpectedEof)
    } else if spec_crc32(patch.subrange(0, patch.len() - 4)) as int != spec_ups_patch_crc(patch) {
        Err(ErrKind::ChecksumMismatch)
    } else {
        match spec_ups_header(patch) {
            Err(k) => Err(k),
            Ok((inp, outp, hend)) => if hend > patch.len() - 12 {
                Err(ErrKind::UnexpectedEof)
            } else if outp > MAX_TARGET_SIZE as nat {
                Err(ErrKind::ResourceLimit)
            } else {
                ups_walk(patch, hend, 0, outp as int)
            },
        }
    }
}

/// Checksum-only verification: with no target, the source CRC is held to
/// the first trailer field; with a target, the target CRC is held to the
/// second.
pub open spec fn spec_ups_verify(romv: Seq<u8>, patch: Seq<u8>, target: Option<Seq<u8>>) -> Result<
    (),
    ErrKind,
> {
    if !spec_ups_can(patch) {
        Err(ErrKind::InvalidMagic)
    } else if patch.len() < 16 {
        Err(ErrKind::UnexpectedEof)
    } else {
        match target {
            Some(t) => if spec_crc32(t) as int == spec_ups_output_crc(patch) {
                Ok(())
            } else {
                Err(ErrKind::ChecksumMismatch)
            },
            None => if spec_crc32(romv) as int == spec_ups_input_crc(patch) {
                Ok(())
            } else {
                Err(ErrKind::ChecksumMismatch)
            },
        }
    }
}

/// `validate` covers the patch-intrinsic failures of `apply`: on a
/// source of the declared size, a validated patch applies up to checksum
/// mismatches.
pub proof fn lemma_ups_validate_ok_covers_apply(
    src: Seq<u8>,
    patch: Seq<u8>,
    inp: nat,
    outp: nat,
    hend: int,
)
    requires
        spec_ups_validate(patch) is Ok,
        spec_ups_header(patch) == Ok::<(nat, nat, int), ErrKind>((inp, outp, hend)),
        src.len() == inp,
    ensures
        spec_ups_apply(src, patch) is Ok || (spec_ups_apply(src, patch) matches Err(k) && k
            == ErrKind::ChecksumMismatch),
{
    if spec_ups_can(patch) && patch.len() >= 16 && spec_crc32(
        patch.subrange(0, patch.len() - 4),
    ) as int == spec_ups_patch_crc(patch) {
        if hend <= patch.len() - 12 && outp <= MAX_TARGET_SIZE as nat {
            lemma_ups_records_walk(patch, hend, 0, resize_seq(src, outp as int));
        }
    }
}

/// The companion direction: when the source matches the declared size
/// and checksum, a failing validation names the very error `apply`
/// returns.
pub proof fn lemma_ups_validate_err_names_apply(
    src: Seq<u8>,
    patch: Seq<u8>,
    inp: nat,
    outp: nat,
    hend: int,
    k: ErrKind,
)
    requires
        spec_ups_validate(patch) == Err::<(), ErrKind>(k),
        spec_ups_header(patch) == Ok::<(nat, nat, int), ErrKind>((inp, outp, hend)),
        src.len() == inp,
        spec_crc32(src) as int == spec_ups_input_crc(patch),
    ensures
        spec_ups_apply(src, patch) == Err::<Seq<u8>, ErrKind>(k),
{
    if spec_ups_can(patch) && patch.len() >= 16 && spec_crc32(
        patch.subrange(0, patch.len() - 4),
    ) as int == spec_ups_patch_crc(patch) {
        if hend <= patch.len() - 12 && outp <= MAX_TARGET_SIZE as nat {
            lemma_ups_records_walk(patch, hend, 0, resize_seq(src, outp as int));
        }
    }
}

/// A successful application leaves an image whose CRC-32 is the declared
/// output checksum of the patch.
pub proof fn lemma_ups_apply_target_crc(src: Seq<u8>, patch: Seq<u8>)
    ensures
        spec_ups_apply(src, patch) matches Ok(t) ==> spec_crc32(t) as int == spec_ups_output_crc(
            patch,
        ),
{
}

/// UPS symmetry, the provable direction: when a patch applies, the
/// source passes source verification and the produced image passes
/// target verification.
pub proof fn lemma_ups_apply_verifies(src: Seq<u8>, patch: Seq<u8>)
    ensures
        spec_ups_apply(src, patch) matches Ok(t) ==> {
            &&& spec_ups_verify(src, patch, None) is Ok
            &&& spec_ups_verify(src, patch, Some(t)) is Ok
        },
{
}

/// Decode the two header size fields; returns input size, output size
/// and the offset of the first record.
fn parse_header(patch: &[u8]) -> (r: Result<(u64, u64, usize), PatchError>)
    requires
        spec_ups_can(patch@),
    ensures
        match r {
            Ok(t) => spec_ups_header(patch@) == Ok::<_, ErrKind>(
                (t.0 as nat, t.1 as nat, t.2 as int),
            ) && 6 <= t.2 <= patch@.len(),
            Err(e) => spec_ups_header(patch@) matches Err(k) && k == e.kind() && (e.kind()
                == ErrKind::UnexpectedEof || e.kind() == ErrKind::VarintOverflow),
        },
{
    let n = patch.len();
    proof {
        assert(patch@.subrange(4, n as int) =~= patch@.skip(4));
    }
    let (inp, n1) = match decode(&patch[4..n]) {
        Ok(t) => t,
        Err(e) => {
            return Err(e);
        },
    };
    proof {
        assert(patch@.subrange(4 + n1 as int, n as int) =~= patch@.skip(4 + n1 as int));
    }
    let (outp, n2) = match decode(&patch[4 + n1..n]) {
        Ok(t) => t,
        Err(e) => {
            return Err(e);
        },
    };
    Ok((inp, outp, 4 + n1 + n2))
}

/// Walks the record stream structurally against an image of length
/// `len`, reporting the first structural error.
fn scan_records(patch: &[u8], hend: usize, len: usize) -> (r: Result<(), PatchError>)
    requires
        16 <= patch@.len(),
        hend <= patch@.len() - 12,
        len <= MAX_TARGET_SIZE,
    ensures
        match r {
            Ok(()) => ups_walk(patch@, hend as int, 0, len as int) is Ok,
            Err(e) => ups_walk(patch@, hend as int, 0, len as int) matches Err(k) && k == e.kind()
                && e.kind() != ErrKind::ChecksumMismatch && (e matches PatchError::OutOfBounds {
                offset,
                rom_size,
            } ==> offset == len && rom_size == len),
        },
{
    let n = patch.len();
    let limit = n - 12;
    let mut i: usize = hend;
    let mut pos: usize = 0;
    while i < limit
        invariant
            i <= n,
            pos <= len,
            len <= MAX_TARGET_SIZE,
            n == patch@.len(),
            n >= 16,
            limit == n - 12,
            ups_walk(patch@, i as int, pos as int, len as int) == ups_walk(
                patch@,
                hend as int,
                0,
                len as int,
            ),
        decreases n - i,
    {
        let ghost i0: usize = i;
        proof {
            assert(patch@.subrange(i as int, n as int) =~= patch@.skip(i as int));
        }
        let (rel, nb) = match decode(&patch[i..n]) {
            Ok(t) => t,
            Err(e) => {
                return Err(e);
            },
        };
        i = i + nb;
        let p2: u128 = pos as u128 + rel as u128;
        pos = if p2 > len as u128 {
            len
        } else {
            p2 as usize
        };
        // the XOR run of this record
        loop
            invariant_except_break
                i0 < i <= n,
                pos <= len,
                len <= MAX_TARGET_SIZE,
                n == patch@.len(),
                n >= 16,
                limit == n - 12,
                ups_walk_xor(patch@, i as int, pos as int, len as int) == ups_walk(
                    patch@,
                    hend as int,
                    0,
                    len as int,
                ),
            ensures
                i0 < i <= n,
                pos <= len,
                ups_walk(patch@, i as int, pos as int, len as int) == ups_walk(
                    patch@,
                    hend as int,
                    0,
                    len as int,
                ),
            decreases n - i,
        {
            if i >= limit {
                return Err(PatchError::UnexpectedEof("XOR record has no terminator"));
            }
            if patch[i] == 0 {
                i = i + 1;
                pos = if pos >= len {
                    len
                } else {
                    pos + 1
                };
                break;
            }
            if pos >= len {
                return Err(PatchError::OutOfBounds { offset: pos, rom_size: len });
            }
            i = i + 1;
            pos = pos + 1;
        }
    }
    Ok(())
}

/// Apply a UPS patch to a ROM image.
pub fn apply(rom: &mut Vec<u8>, patch: &[u8]) -> (r: Result<(), PatchError>)
    ensures
        match r {
            Ok(()) => spec_ups_apply(old(rom)@, patch@) matches Ok(t) && final(rom)@ == t,
            Err(e) => spec_ups_apply(old(rom)@, patch@) matches Err(k) && k == e.kind()
                && final(rom)@ == old(rom)@,
        },
{
    let patcher = UpsPatcher;
    patcher.apply(rom, patch)
}

/// UPS format decoder.
pub struct UpsPatcher;

impl UpsPatcher {
    /// The byte-prefix test for the UPS magic; never fails.
    pub fn can_handle(data: &[u8]) -> (r: bool)
        ensures
            r == spec_ups_can(data@),
    {
        data.len() >= 4 && data[0] == 0x55 && data[1] == 0x50 && data[2] == 0x53 && data[3] == 0x31
    }

    /// Applies `patch` to `rom`, resizing it to the declared output size.
    /// The patch checksum, the source size and checksum, and the output
    /// checksum are all enforced; on error the image is left unchanged.
    pub fn apply(&self, rom: &mut Vec<u8>, patch: &[u8]) -> (r: Result<(), PatchError>)
        ensures
            match r {
                Ok(()) => spec_ups_apply(old(rom)@, patch@) matches Ok(t) && final(rom)@ == t,
                Err(e) => spec_ups_apply(old(rom)@, patch@) matches Err(k) && k == e.kind()
                    && final(rom)@ == old(rom)@ && (e matches PatchError::ChecksumMismatch {
                    expected,
                    actual,
                } ==> {
                    let n = patch@.len();
                    if spec_crc32(patch@.subrange(0, n - 4)) as int != spec_ups_patch_crc(patch@) {
                        expected@ == spec_u32_le_bytes(spec_ups_patch_crc(patch@) as u32)
                            && actual@ == spec_u32_le_bytes(
                            spec_crc32(patch@.subrange(0, n - 4)),
                        )
                    } else if spec_crc32(old(rom)@) as int != spec_ups_input_crc(patch@) {
                        expected@ == spec_u32_le_bytes(spec_ups_input_crc(patch@) as u32)
                            && actual@ == spec_u32_le_bytes(spec_crc32(old(rom)@))
                    } else {
                        expected@ == spec_u32_le_bytes(spec_ups_output_crc(patch@) as u32)
                            && (spec_ups_header(patch@) matches Ok(h) && (ups_records(
                            patch@,
                            h.2,
                            0,
                            resize_seq(old(rom)@, h.1 as int),
                        ) matches Ok(t) && actual@ == spec_u32_le_bytes(spec_crc32(t))))
                    }
                }) && (e matches PatchError::OutOfBounds { offset, rom_size } ==> (
                spec_ups_header(patch@) matches Ok(h) && offset as int == h.1 && rom_size as int
                    == h.1)),
            },
    {
        let n = patch.len();
        if !Self::can_handle(patch) {
            return Err(PatchError::InvalidMagic {
                expected: vec![0x55, 0x50, 0x53, 0x31],
                actual: prefix_vec(patch, 4),
            });
        }
        if n < 16 {
            return Err(PatchError::UnexpectedEof("patch too small for header and trailer"));
        }
        let declared_patch_crc = read_u32_le_at(patch, n - 4);
        let got_patch_crc = compute(&patch[0..n - 4]);
        if got_patch_crc != declared_patch_crc {
            return Err(PatchError::ChecksumMismatch {
                expected: u32_le_vec(declared_patch_crc),
                actual: u32_le_vec(got_patch_crc),
            });
        }
        let (inp, outp, hend) = match parse_header(patch) {
            Ok(t) => t,
            Err(e) => {
                return Err(e);
            },
        };
        if hend > n - 12 {
            return Err(PatchError::UnexpectedEof("header overlaps the checksum trailer"));
        }
        if outp > MAX_TARGET_SIZE as u64 {
            return Err(PatchError::ResourceLimit);
        }
        if rom.len() as u64 != inp {
            return Err(PatchError::InvalidFormat("source size differs from declared input size"));
        }
        let declared_in_crc = read_u32_le_at(patch, n - 12);
        let got_in_crc = compute(rom.as_slice());
        if got_in_crc != declared_in_crc {
            return Err(PatchError::ChecksumMismatch {
                expected: u32_le_vec(declared_in_crc),
                actual: u32_le_vec(got_in_crc),
            });
        }
        let out_len = outp as usize;
        let mut out = resize_to(rom.as_slice(), out_len);
        let ghost buf0 = out@;
        let limit = n - 12;
        let mut i: usize = hend;
        let mut pos: usize = 0;
        while i < limit
            invariant
                i <= n,
                pos <= out_len,
                out_len <= MAX_TARGET_SIZE,
                out@.len() == out_len,
                n == patch@.len(),
                n >= 16,
                limit == n - 12,
                (spec_ups_header(patch@) matches Ok(h) && h.1 == out_len as nat),
                ups_records(patch@, i as int, pos as int, out@) == ups_records(
                    patch@,
                    hend as int,
                    0,
                    buf0,
                ),
                spec_ups_apply(old(rom)@, patch@) == ups_finish(
                    patch@,
                    ups_records(patch@, hend as int, 0, buf0),
                ),
            decreases n - i,
        {
            let ghost i0: usize = i;
            proof {
                assert(patch@.subrange(i as int, n as int) =~= patch@.skip(i as int));
            }
            let (rel, nb) = match decode(&patch[i..n]) {
                Ok(t) => t,
                Err(e) => {
                    return Err(e);
                },
            };
            i = i + nb;
            let p2: u128 = pos as u128 + rel as u128;
            pos = if p2 > out_len as u128 {
                out_len
            } else {
                p2 as usize
            };
            // the XOR run of this record
            loop
                invariant_except_break
                    i0 < i <= n,
                    pos <= out_len,
                    out_len <= MAX_TARGET_SIZE,
                    out@.len() == out_len,
                    n == patch@.len(),
                    n >= 16,
                    limit == n - 12,
                    (spec_ups_header(patch@) matches Ok(h) && h.1 == out_len as nat),
                    ups_xor(patch@, i as int, pos as int, out@) == ups_records(
                        patch@,
                        hend as int,
                        0,
                        buf0,
                    ),
                    spec_ups_apply(old(rom)@, patch@) == ups_finish(
                        patch@,
                        ups_records(patch@, hend as int, 0, buf0),
                    ),
                ensures
                    i0 < i <= n,
                    pos <= out_len,
                    out@.len() == out_len,
                    ups_records(patch@, i as int, pos as int, out@) == ups_records(
                        patch@,
                        hend as int,
                        0,
                        buf0,
                    ),
                decreases n - i,
            {
                if i >= limit {
                    return Err(PatchError::UnexpectedEof("XOR record has no terminator"));
                }
                if patch[i] == 0 {
                    i = i + 1;
                    pos = if pos >= out_len {
                        out_len
                    } else {
                        pos + 1
                    };
                    break;
                }
                if pos >= out_len {
                    return Err(PatchError::OutOfBounds { offset: pos, rom_size: out_len });
                }
                out[pos] = out[pos] ^ patch[i];
                i = i + 1;
                pos = pos + 1;
            }
        }
        let declared_out_crc = read_u32_le_at(patch, n - 8);
        let got_out_crc = compute(out.as_slice());
        if got_out_crc != declared_out_crc {
            return Err(PatchError::ChecksumMismatch {
                expected: u32_le_vec(declared_out_crc),
                actual: u32_le_vec(got_out_crc),
            });
        }
        *rom = out;
        Ok(())
    }

    /// Header sizes and the two declared image checksums, read without
    /// executing any record.
    pub fn metadata(patch: &[u8]) -> (r: Result<PatchMetadata, PatchError>)
        ensures
            match r {
                Ok(m) => {
                    &&& spec_ups_can(patch@)
                    &&& patch@.len() >= 16
                    &&& spec_ups_header(patch@) matches Ok(h)
                    &&& m.patch_type == PatchType::Ups
                    &&& m.source_size matches Some(s) && s as nat == h.0
                    &&& m.target_size matches Some(t) && t as nat == h.1
                    &&& m.source_checksum matches Some(sc) && sc@ == patch@.subrange(
                        patch@.len() - 12,
                        patch@.len() - 8,
                    )
                    &&& m.target_checksum matches Some(tc) && tc@ == patch@.subrange(
                        patch@.len() - 8,
                        patch@.len() - 4,
                    )
                },
                Err(e) => {
                    ||| !spec_ups_can(patch@) && e.kind() == ErrKind::InvalidMagic
                    ||| spec_ups_can(patch@) && patch@.len() < 16 && e.kind()
                        == ErrKind::UnexpectedEof
                    ||| spec_ups_can(patch@) && patch@.len() >= 16 && (spec_ups_header(patch@)
                        matches Err(k) && k == e.kind())
                    ||| spec_ups_can(patch@) && patch@.len() >= 16 && (spec_ups_header(patch@)
                        matches Ok(h) && (h.0 > usize::MAX || h.1 > usize::MAX)) && e.kind()
                        == ErrKind::InvalidFormat
                },
            },
    {
        let n = patch.len();
        if !Self::can_handle(patch) {
            return Err(PatchError::InvalidMagic {
                expected: vec![0x55, 0x50, 0x53, 0x31],
                actual: prefix_vec(patch, 4),
            });
        }
        if n < 16 {
            return Err(PatchError::UnexpectedEof("patch too small for header and trailer"));
        }
        let (inp, outp, _hend) = match parse_header(patch) {
            Ok(t) => t,
            Err(e) => {
                return Err(e);
            },
        };
        if inp > usize::MAX as u64 || outp > usize::MAX as u64 {
            return Err(PatchError::InvalidFormat("declared size exceeds the address space"));
        }
        let mut m = PatchMetadata::new(PatchType::Ups);
        m.source_size = Some(inp as usize);
        m.target_size = Some(outp as usize);
        let mut sc: Vec<u8> = Vec::new();
        sc.push(patch[n - 12]);
        sc.push(patch[n - 11]);
        sc.push(patch[n - 10]);
        sc.push(patch[n - 9]);
        proof {
            assert(sc@ =~= patch@.subrange(n as int - 12, n as int - 8));
        }
        m.source_checksum = Some(sc);
        let mut tc: Vec<u8> = Vec::new();
        tc.push(patch[n - 8]);
        tc.push(patch[n - 7]);
        tc.push(patch[n - 6]);
        tc.push(patch[n - 5]);
        proof {
            assert(tc@ =~= patch@.subrange(n as int - 8, n as int - 4));
        }
        m.target_checksum = Some(tc);
        Ok(m)
    }

    /// Full structural walk: magic, patch checksum, header, and every
    /// record against the declared output size.
    #[verifier::rlimit(60)]
    pub fn validate(patch: &[u8]) -> (r: Result<(), PatchError>)
        ensures
            match r {
                Ok(()) => spec_ups_validate(patch@) is Ok,
                Err(e) => spec_ups_validate(patch@) matches Err(k) && k == e.kind() && (e matches
                    PatchError::ChecksumMismatch { expected, actual } ==> expected@
                    == spec_u32_le_bytes(spec_ups_patch_crc(patch@) as u32) && actual@
                    == spec_u32_le_bytes(spec_crc32(patch@.subrange(0, patch@.len() - 4)))) && (e
                    matches PatchError::OutOfBounds { offset, rom_size } ==> (spec_ups_header(
                    patch@,
                ) matches Ok(h) && offset as int == h.1 && rom_size as int == h.1)),
            },
    {
        let n = patch.len();
        if !Self::can_handle(patch) {
            return Err(PatchError::InvalidMagic {
                expected: vec![0x55, 0x50, 0x53, 0x31],
                actual: prefix_vec(patch, 4),
            });
        }
        if n < 16 {
            return Err(PatchError::UnexpectedEof("patch too small for header and trailer"));
        }
        let declared_patch_crc = read_u32_le_at(patch, n - 4);
        let got_patch_crc = compute(&patch[0..n - 4]);
        if got_patch_crc != declared_patch_crc {
            return Err(PatchError::ChecksumMismatch {
                expected: u32_le_vec(declared_patch_crc),
                actual: u32_le_vec(got_patch_crc),
            });
        }
        let (_inp, outp, hend) = match parse_header(patch) {
            Ok(t) => t,
            Err(e) => {
                return Err(e);
            },
        };
        if hend > n - 12 {
            return Err(PatchError::UnexpectedEof("header overlaps the checksum trailer"));
        }
        if outp > MAX_TARGET_SIZE as u64 {
            return Err(PatchError::ResourceLimit);
        }
        scan_records(patch, hend, outp as usize)
    }

    /// Checksum-only verification of the source (no target) or of the
    /// target image against the declared trailer checksums.
    pub fn verify(rom: &[u8], patch: &[u8], target: Option<&[u8]>) -> (r: Result<(), PatchError>)
        ensures
            match r {
                Ok(()) => spec_ups_verify(
                    rom@,
                    patch@,
                    match target {
                        Some(t) => Some(t@),
                        None => None,
                    },
                ) is Ok,
                Err(e) => spec_ups_verify(
                    rom@,
                    patch@,
                    match target {
                        Some(t) => Some(t@),
                        None => None,
                    },
                ) matches Err(k) && k == e.kind(),
            },
    {
        let n = patch.len();
        if !Self::can_handle(patch) {
            return Err(PatchError::InvalidMagic {
                expected: vec![0x55, 0x50, 0x53, 0x31],
                actual: prefix_vec(patch, 4),
            });
        }
        if n < 16 {
            return Err(PatchError::UnexpectedEof("patch too small for header and trailer"));
        }
        match target {
            Some(t) => {
                let declared = read_u32_le_at(patch, n - 8);
                let got = compute(t);
                if got == declared {
                    Ok(())
                } else {
                    Err(PatchError::ChecksumMismatch {
                        expected: u32_le_vec(declared),
                        actual: u32_le_vec(got),
                    })
                }
            },
            None => {
                let declared = read_u32_le_at(patch, n - 12);
                let got = compute(rom);
                if got == declared {
                    Ok(())
                } else {
                    Err(PatchError::ChecksumMismatch {
                        expected: u32_le_vec(declared),
                        actual: u32_le_vec(got),
                    })
                }
            },
        }
    }
}

} // verus!
