//! The BPS patch format.
//!
//! Header `BPS1`, then source size, target size and metadata size as BPS
//! varints, the metadata bytes, and an action stream until the 12-byte
//! trailer of three little-endian CRC-32 checksums: source, target,
//! patch.  Each action is a varint whose low two bits select SourceRead,
//! TargetRead, SourceCopy or TargetCopy and whose remaining bits, plus
//! one, give the run length.  The two copy actions move their own
//! relative offset by a signed varint; TargetCopy reads the target being
//! built, byte by byte, so overlapping runs expand.

use crate::buf::{append_range, read_u32_le_at, slice_vec, spec_u32_le_at, spec_u32_le_bytes, u32_le_vec, prefix_vec};
use crate::crc32::{compute, spec_crc32};
use crate::error::{ErrKind, PatchError};
use crate::strutil::{bytes_to_string_lossy, utf8_lossy};
use crate::types::{PatchMetadata, PatchType, MAX_TARGET_SIZE};
use crate::varint::bps::{decode, spec_bps_varint};
use vstd::prelude::*;
use vstd::string::StringExecFns;

verus! {

/// `b` starts with the BPS magic `BPS1`.
pub open spec fn spec_bps_can(b: Seq<u8>) -> bool {
    &&& b.len() >= 4
    &&& b[0] == 0x42u8
    &&& b[1] == 0x50u8
    &&& b[2] == 0x53u8
    &&& b[3] == 0x31u8
}

/// The declared source size, target size, metadata size, and the
/// position of the metadata bytes.
pub open spec fn spec_bps_header(patch: Seq<u8>) -> Result<(nat, nat, nat, int), ErrKind> {
    match spec_bps_varint(patch.skip(4)) {
        Err(k) => Err(k),
        Ok((ss, n1)) => match spec_bps_varint(patch.skip(4 + n1 as int)) {
            Err(k) => Err(k),
            Ok((ts, n2)) => match spec_bps_varint(patch.skip(4 + n1 as int + n2 as int)) {
                Err(k) => Err(k),
                Ok((ms, n3)) => Ok((ss, ts, ms, 4 + n1 as int + n2 as int + n3 as int)),
            },
        },
    }
}

/// The declared source CRC-32 (first trailer field).
pub open spec fn spec_bps_source_crc(patch: Seq<u8>) -> int {
    spec_u32_le_at(patch, patch.len() - 12)
}

/// The declared target CRC-32 (second trailer field).
pub open spec fn spec_bps_target_crc(patch: Seq<u8>) -> int {
    spec_u32_le_at(patch, patch.len() - 8)
}

/// The declared patch CRC-32 (last trailer field), covering every byte
/// before it.
pub open spec fn spec_bps_patch_crc(patch: Seq<u8>) -> int {
    spec_u32_le_at(patch, patch.len() - 4)
}

/// The integer a BPS signed varint denotes: the low bit is the sign, the
/// remaining bits the magnitude.
pub open spec fn bps_signed(v: nat) -> int {
    if v % 2 == 1 {
        -((v / 2) as int)
    } else {
        (v / 2) as int
    }
}

/// The position after a varint: at least one byte forward, clamped to
/// the patch length.
pub open spec fn bps_adv(patch: Seq<u8>, i: int, nb: nat) -> int {
    let step: int = if nb == 0 {
        1
    } else {
        nb as int
    };
    if i + step > patch.len() {
        patch.len() as int
    } else {
        i + step
    }
}

/// `t` extended by `len` bytes read from position `from` onward; reads
/// chase writes, so a run that overlaps the fresh end repeats itself.
pub open spec fn overlap_copy(t: Seq<u8>, from: int, len: nat) -> Seq<u8>
    decreases len,
{
    if len == 0 {
        t
    } else {
        overlap_copy(t.push(t[from]), from + 1, (len - 1) as nat)
    }
}

/// The action stream of `patch` from position `i`: `target` is the image
/// built so far, `sr` and `tr` the two relative offsets.  The stream
/// ends at the trailer; the finished image must have exactly the
/// declared size.
pub open spec fn bps_actions(
    patch: Seq<u8>,
    i: int,
    src: Seq<u8>,
    tgt_size: int,
    target: Seq<u8>,
    sr: int,
    tr: int,
) -> Result<Seq<u8>, ErrKind>
    decreases patch.len() - i,
{
    if i < 0 {
        Err(ErrKind::UnexpectedEof)
    } else if i >= patch.len() - 12 {
        if target.len() == tgt_size {
            Ok(target)
        } else {
            Err(ErrKind::InvalidFormat)
        }
    } else {
        match spec_bps_varint(patch.skip(i)) {
            Err(k) => Err(k),
            Ok((control, nc)) => {
                let len = (control / 4 + 1) as int;
                let act = control % 4;
                let i2 = bps_adv(patch, i, nc);
                if target.len() + len > tgt_size {
                    Err(ErrKind::OutOfBounds)
                } else if act == 0 {
                    if target.len() + len > src.len() {
                        Err(ErrKind::OutOfBounds)
                    } else {
                        bps_actions(
                            patch,
                            i2,
                            src,
                            tgt_size,
                            target + src.subrange(target.len() as int, target.len() + len),
                            sr,
                            tr,
                        )
                    }
                } else if act == 1 {
                    if i2 + len > patch.len() - 12 {
                        Err(ErrKind::UnexpectedEof)
                    } else {
                        bps_actions(
                            patch,
                            i2 + len,
                            src,
                            tgt_size,
                            target + patch.subrange(i2, i2 + len),
                            sr,
                            tr,
                        )
                    }
                } else if act == 2 {
                    match spec_bps_varint(patch.skip(i2)) {
                        Err(k) => Err(k),
                        Ok((dv, nd)) => {
                            let i3 = bps_adv(patch, i2, nd);
                            let sr2 = sr + bps_signed(dv);
                            if sr2 < 0 || sr2 + len > src.len() {
                                Err(ErrKind::OutOfBounds)
                            } else {
                                bps_actions(
                                    patch,
                                    i3,
                                    src,
                                    tgt_size,
                                    target + src.subrange(sr2, sr2 + len),
                                    sr2 + len,
                                    tr,
                                )
                            }
                        },
                    }
                } else {
                    match spec_bps_varint(patch.skip(i2)) {
                        Err(k) => Err(k),
                        Ok((dv, nd)) => {
                            let i3 = bps_adv(patch, i2, nd);
                            let tr2 = tr + bps_signed(dv);
                            if tr2 < 0 || tr2 >= target.len() {
                                Err(ErrKind::OutOfBounds)
                            } else {
                                bps_actions(
                                    patch,
                                    i3,
                                    src,
                                    tgt_size,
                                    overlap_copy(target, tr2, len as nat),
                                    sr,
                                    tr2 + len,
                                )
                            }
                        },
                    }
                }
            },
        }
    }
}

/// The structural walk of the action stream: image lengths stand in for
/// the images themselves.
pub open spec fn bps_walk(
    patch: Seq<u8>,
    i: int,
    src_len: int,
    tgt_size: int,
    out_len: int,
    sr: int,
    tr: int,
) -> Result<(), ErrKind>
    decreases patch.len() - i,
{
    if i < 0 {
        Err(ErrKind::UnexpectedEof)
    } else if i >= patch.len() - 12 {
        if out_len == tgt_size {
            Ok(())
        } else {
            Err(ErrKind::InvalidFormat)
        }
    } else {
        match spec_bps_varint(patch.skip(i)) {
            Err(k) => Err(k),
            Ok((control, nc)) => {
                let len = (control / 4 + 1) as int;
                let act = control % 4;
                let i2 = bps_adv(patch, i, nc);
                if out_len + len > tgt_size {
                    Err(ErrKind::OutOfBounds)
                } else if act == 0 {
                    if out_len + len > src_len {
                        Err(ErrKind::OutOfBounds)
                    } else {
                        bps_walk(patch, i2, src_len, tgt_size, out_len + len, sr, tr)
                    }
                } else if act == 1 {
                    if i2 + len > patch.len() - 12 {
                        Err(ErrKind::UnexpectedEof)
                    } else {
                        bps_walk(patch, i2 + len, src_len, tgt_size, out_len + len, sr, tr)
                    }
                } else if act == 2 {
                    match spec_bps_varint(patch.skip(i2)) {
                        Err(k) => Err(k),
                        Ok((dv, nd)) => {
                            let i3 = bps_adv(patch, i2, nd);
                            let sr2 = sr + bps_signed(dv);
                            if sr2 < 0 || sr2 + len > src_len {
                                Err(ErrKind::OutOfBounds)
                            } else {
                                bps_walk(patch, i3, src_len, tgt_size, out_len + len, sr2 + len, tr)
                            }
                        },
                    }
                } else {
                    match spec_bps_varint(patch.skip(i2)) {
                        Err(k) => Err(k),
                        Ok((dv, nd)) => {
                            let i3 = bps_adv(patch, i2, nd);
                            let tr2 = tr + bps_signed(dv);
                            if tr2 < 0 || tr2 >= out_len {
                                Err(ErrKind::OutOfBounds)
                            } else {
                                bps_walk(patch, i3, src_len, tgt_size, out_len + len, sr, tr2 + len)
                            }
                        },
                    }
                }
            },
        }
    }
}

/// An integer clamped into the address space, for error payloads.
pub open spec fn clamp_usize(x: int) -> int {
    if x < 0 {
        0
    } else if x > usize::MAX as int {
        usize::MAX as int
    } else {
        x
    }
}

/// The payload of the first out-of-bounds failure of the action stream:
/// the failing position (clamped into the address space) and the bound
/// it violated (zero pair when the stream fails otherwise or not at
/// all).
pub open spec fn bps_oob_info(
    patch: Seq<u8>,
    i: int,
    src_len: int,
    tgt_size: int,
    out_len: int,
    sr: int,
    tr: int,
) -> (int, int)
    decreases patch.len() - i,
{
    if i < 0 || i >= patch.len() - 12 {
        (0, 0)
    } else {
        match spec_bps_varint(patch.skip(i)) {
            Err(_) => (0, 0),
            Ok((control, nc)) => {
                let len = (control / 4 + 1) as int;
                let act = control % 4;
                let i2 = bps_adv(patch, i, nc);
                if out_len + len > tgt_size {
                    (out_len, tgt_size)
                } else if act == 0 {
                    if out_len + len > src_len {
                        (out_len, clamp_usize(src_len))
                    } else {
                        bps_oob_info(patch, i2, src_len, tgt_size, out_len + len, sr, tr)
                    }
                } else if act == 1 {
                    if i2 + len > patch.len() - 12 {
                        (0, 0)
                    } else {
                        bps_oob_info(patch, i2 + len, src_len, tgt_size, out_len + len, sr, tr)
                    }
                } else if act == 2 {
                    match spec_bps_varint(patch.skip(i2)) {
                        Err(_) => (0, 0),
                        Ok((dv, nd)) => {
                            let i3 = bps_adv(patch, i2, nd);
                            let sr2 = sr + bps_signed(dv);
                            if sr2 < 0 || sr2 + len > src_len {
                                (clamp_usize(sr2), clamp_usize(src_len))
                            } else {
                                bps_oob_info(
                                    patch,
                                    i3,
                                    src_len,
                                    tgt_size,
                                    out_len + len,
                                    sr2 + len,
                                    tr,
                                )
                            }
                        },
                    }
                } else {
                    match spec_bps_varint(patch.skip(i2)) {
                        Err(_) => (0, 0),
                        Ok((dv, nd)) => {
                            let i3 = bps_adv(patch, i2, nd);
                            let tr2 = tr + bps_signed(dv);
                            if tr2 < 0 || tr2 >= out_len {
                                (clamp_usize(tr2), out_len)
                            } else {
                                bps_oob_info(
                                    patch,
                                    i3,
                                    src_len,
                                    tgt_size,
                                    out_len + len,
                                    sr,
                                    tr2 + len,
                                )
                            }
                        },
                    }
                }
            },
        }
    }
}

/// `overlap_copy` grows the image by exactly the run length.
pub proof fn lemma_overlap_copy_len(t: Seq<u8>, from: int, len: nat)
    ensures
        overlap_copy(t, from, len).len() == t.len() + len,
    decreases len,
{
    if len != 0 {
        lemma_overlap_copy_len(t.push(t[from]), from + 1, (len - 1) as nat);
    }
}

/// The action stream succeeds or fails independently of the image
/// contents; only the lengths matter, and the result has the declared
/// size.
pub proof fn lemma_bps_actions_walk(
    patch: Seq<u8>,
    i: int,
    src: Seq<u8>,
    tgt_size: int,
    target: Seq<u8>,
    sr: int,
    tr: int,
)
    ensures
        match bps_actions(patch, i, src, tgt_size, target, sr, tr) {
            Ok(t) => bps_walk(patch, i, src.len() as int, tgt_size, target.len() as int, sr, tr)
                is Ok && t.len() == tgt_size,
            Err(k) => bps_walk(patch, i, src.len() as int, tgt_size, target.len() as int, sr, tr)
                == Err::<(), ErrKind>(k),
        },
    decreases patch.len() - i,
{
    if i < 0 {
    } else if i >= patch.len() - 12 {
    } else {
        match spec_bps_varint(patch.skip(i)) {
            Err(_) => {},
            Ok((control, nc)) => {
                let len = (control / 4 + 1) as int;
                let act = control % 4;
                let i2 = bps_adv(patch, i, nc);
                if target.len() + len > tgt_size {
                } else if act == 0 {
                    if target.len() + len <= src.len() {
                        lemma_bps_actions_walk(
                            patch,
                            i2,
                            src,
                            tgt_size,
                            target + src.subrange(target.len() as int, target.len() + len),
                            sr,
                            tr,
                        );
                    }
                } else if act == 1 {
                    if i2 + len <= patch.len() - 12 {
                        lemma_bps_actions_walk(
                            patch,
                            i2 + len,
                            src,
                            tgt_size,
                            target + patch.subrange(i2, i2 + len),
                            sr,
                            tr,
                        );
                    }
                } else if act == 2 {
                    match spec_bps_varint(patch.skip(i2)) {
                        Err(_) => {},
                        Ok((dv, nd)) => {
                            let i3 = bps_adv(patch, i2, nd);
                            let sr2 = sr + bps_signed(dv);
                            if !(sr2 < 0 || sr2 + len > src.len()) {
                                lemma_bps_actions_walk(
                                    patch,
                                    i3,
                                    src,
                                    tgt_size,
                                    target + src.subrange(sr2, sr2 + len),
                                    sr2 + len,
                                    tr,
                                );
                            }
                        },
                    }
                } else {
                    match spec_bps_varint(patch.skip(i2)) {
                        Err(_) => {},
                        Ok((dv, nd)) => {
                            let i3 = bps_adv(patch, i2, nd);
                            let tr2 = tr + bps_signed(dv);
                            if !(tr2 < 0 || tr2 >= target.len()) {
                                lemma_overlap_copy_len(target, tr2, len as nat);
                                lemma_bps_actions_walk(
                                    patch,
                                    i3,
                                    src,
                                    tgt_size,
                                    overlap_copy(target, tr2, len as nat),
                                    sr,
                                    tr2 + len,
                                );
                            }
                        },
                    }
                }
            },
        }
    }
}

/// The last step of an application: the target checksum of the
/// assembled image is held to the declared one.
pub open spec fn bps_finish(patch: Seq<u8>, rr: Result<Seq<u8>, ErrKind>) -> Result<
    Seq<u8>,
    ErrKind,
> {
    match rr {
        Err(k) => Err(k),
        Ok(t) => if spec_crc32(t) as int != spec_bps_target_crc(patch) {
            Err(ErrKind::ChecksumMismatch)
        } else {
            Ok(t)
        },
    }
}

/// Applying `patch` to `src`: magic, patch checksum, header, room for
/// the metadata, the size ceiling, the declared source size and
/// checksum, then the action stream and the target checksum.
pub open spec fn spec_bps_apply(src: Seq<u8>, patch: Seq<u8>) -> Result<Seq<u8>, ErrKind> {
    if !spec_bps_can(patch) {
        Err(ErrKind::InvalidMagic)
    } else if patch.len() < 16 {
        Err(ErrKind::UnexpectedEof)
    } else if spec_crc32(patch.subrange(0, patch.len() - 4)) as int != spec_bps_patch_crc(patch) {
        Err(ErrKind::ChecksumMismatch)
    } else {
        match spec_bps_header(patch) {
            Err(k) => Err(k),
            Ok((ss, ts, ms, mstart)) => if mstart + ms > patch.len() - 12 {
                Err(ErrKind::UnexpectedEof)
            } else if ts > MAX_TARGET_SIZE as nat {
                Err(ErrKind::ResourceLimit)
            } else if src.len() != ss {
                Err(ErrKind::InvalidFormat)
            } else if spec_crc32(src) as int != spec_bps_source_crc(patch) {
                Err(ErrKind::ChecksumMismatch)
            } else {
                bps_finish(
                    patch,
                    bps_actions(
                        patch,
                        mstart + ms,
                        src,
                        ts as int,
                        Seq::<u8>::empty(),
                        0,
                        0,
                    ),
                )
            },
        }
    }
}

/// Validating `patch`: the structural checks and the walk of the action
/// stream against the declared sizes.
pub open spec fn spec_bps_validate(patch: Seq<u8>) -> Result<(), ErrKind> {
    if !spec_bps_can(patch) {
        Err(ErrKind::InvalidMagic)
    } else if patch.len() < 16 {
        Err(ErrKind::UnexpectedEof)
    } else if spec_crc32(patch.subrange(0, patch.len() - 4)) as int != spec_bps_patch_crc(patch) {
        Err(ErrKind::ChecksumMismatch)
    } else {
        match spec_bps_header(patch) {
            Err(k) => Err(k),
            Ok((ss, ts, ms, mstart)) => if mstart + ms > patch.len() - 12 {
                Err(ErrKind::UnexpectedEof)
            } else if ts > MAX_TARGET_SIZE as nat {
                Err(ErrKind::ResourceLimit)
            } else {
                bps_walk(patch, mstart + ms, ss as int, ts as int, 0, 0, 0)
            },
        }
    }
}

/// `validate` covers the patch-intrinsic failures of `apply`: on a
/// source of the declared size, a validated patch applies up to checksum
/// mismatches.
pub proof fn lemma_bps_validate_ok_covers_apply(
    src: Seq<u8>,
    patch: Seq<u8>,
    ss: nat,
    ts: nat,
    ms: nat,
    mstart: int,
)
    requires
        spec_bps_validate(patch) is Ok,
        spec_bps_header(patch) == Ok::<(nat, nat, nat, int), ErrKind>((ss, ts, ms, mstart)),
        src.len() == ss,
    ensures
        spec_bps_apply(src, patch) is Ok || (spec_bps_apply(src, patch) matches Err(k) && k
            == ErrKind::ChecksumMismatch),
{
    if spec_bps_can(patch) && patch.len() >= 16 && spec_crc32(
        patch.subrange(0, patch.len() - 4),
    ) as int == spec_bps_patch_crc(patch) {
        if mstart + ms <= patch.len() - 12 && ts <= MAX_TARGET_SIZE as nat {
            lemma_bps_actions_walk(
                patch,
                mstart + ms,
                src,
                ts as int,
                Seq::<u8>::empty(),
                0,
                0,
            );
        }
    }
}

/// The companion direction: when the source matches the declared size
/// and checksum, a failing validation names the very error `apply`
/// returns.
pub proof fn lemma_bps_validate_err_names_apply(
    src: Seq<u8>,
    patch: Seq<u8>,
    ss: nat,
    ts: nat,
    ms: nat,
    mstart: int,
    k: ErrKind,
)
    requires
        spec_bps_validate(patch) == Err::<(), ErrKind>(k),
        spec_bps_header(patch) == Ok::<(nat, nat, nat, int), ErrKind>((ss, ts, ms, mstart)),
        src.len() == ss,
        spec_crc32(src) as int == spec_bps_source_crc(patch),
    ensures
        spec_bps_apply(src, patch) == Err::<Seq<u8>, ErrKind>(k),
{
    if spec_bps_can(patch) && patch.len() >= 16 && spec_crc32(
        patch.subrange(0, patch.len() - 4),
    ) as int == spec_bps_patch_crc(patch) {
        if mstart + ms <= patch.len() - 12 && ts <= MAX_TARGET_SIZE as nat {
            lemma_bps_actions_walk(
                patch,
                mstart + ms,
                src,
                ts as int,
                Seq::<u8>::empty(),
                0,
                0,
            );
        }
    }
}

/// A successful application leaves an image whose CRC-32 is the declared
/// target checksum of the patch.
pub proof fn lemma_bps_apply_target_crc(src: Seq<u8>, patch: Seq<u8>)
    ensures
        spec_bps_apply(src, patch) matches Ok(t) ==> spec_crc32(t) as int == spec_bps_target_crc(
            patch,
        ),
{
}

/// Decode the three header size fields; returns the sizes and the
/// position of the metadata bytes.
fn parse_header(patch: &[u8]) -> (r: Result<(u64, u64, u64, usize), PatchError>)
    requires
        spec_bps_can(patch@),
    ensures
        match r {
            Ok(t) => spec_bps_header(patch@) == Ok::<_, ErrKind>(
                (t.0 as nat, t.1 as nat, t.2 as nat, t.3 as int),
            ) && 7 <= t.3 <= patch@.len(),
            Err(e) => spec_bps_header(patch@) matches Err(k) && k == e.kind() && (e.kind()
                == ErrKind::UnexpectedEof || e.kind() == ErrKind::VarintOverflow),
        },
{
    let n = patch.len();
    proof {
        assert(patch@.subrange(4, n as int) =~= patch@.skip(4));
    }
    let (ss, n1) = match decode(&patch[4..n]) {
        Ok(t) => t,
        Err(e) => {
            return Err(e);
        },
    };
    proof {
        assert(patch@.subrange(4 + n1 as int, n as int) =~= patch@.skip(4 + n1 as int));
    }
    let (ts, n2) = match decode(&patch[4 + n1..n]) {
        Ok(t) => t,
        Err(e) => {
            return Err(e);
        },
    };
    proof {
        assert(patch@.subrange(4 + n1 as int + n2 as int, n as int) =~= patch@.skip(
            4 + n1 as int + n2 as int,
        ));
    }
    let (ms, n3) = match decode(&patch[4 + n1 + n2..n]) {
        Ok(t) => t,
        Err(e) => {
            return Err(e);
        },
    };
    Ok((ss, ts, ms, 4 + n1 + n2 + n3))
}

/// BPS format decoder.
pub struct BpsPatcher;

impl BpsPatcher {
    /// The byte-prefix test for the BPS magic; never fails.
    pub fn can_handle(data: &[u8]) -> (r: bool)
        ensures
            r == spec_bps_can(data@),
    {
        data.len() >= 4 && data[0] == 0x42 && data[1] == 0x50 && data[2] == 0x53 && data[3] == 0x31
    }

    /// Applies `patch` to `rom`, replacing it with the freshly assembled
    /// target.  The patch checksum, the source size and checksum, and
    /// the target checksum are all enforced; on error the image is left
    /// unchanged.
    #[verifier::rlimit(60)]
    pub fn apply(&self, rom: &mut Vec<u8>, patch: &[u8]) -> (r: Result<(), PatchError>)
        ensures
            match r {
                Ok(()) => spec_bps_apply(old(rom)@, patch@) matches Ok(t) && final(rom)@ == t,
                Err(e) => spec_bps_apply(old(rom)@, patch@) matches Err(k) && k == e.kind()
                    && final(rom)@ == old(rom)@ && (e matches PatchError::ChecksumMismatch {
                    expected,
                    actual,
                } ==> {
                    let n = patch@.len();
                    if spec_crc32(patch@.subrange(0, n - 4)) as int != spec_bps_patch_crc(patch@) {
                        expected@ == spec_u32_le_bytes(spec_bps_patch_crc(patch@) as u32)
                            && actual@ == spec_u32_le_bytes(
                            spec_crc32(patch@.subrange(0, n - 4)),
                        )
                    } else if spec_crc32(old(rom)@) as int != spec_bps_source_crc(patch@) {
                        expected@ == spec_u32_le_bytes(spec_bps_source_crc(patch@) as u32)
                            && actual@ == spec_u32_le_bytes(spec_crc32(old(rom)@))
                    } else {
                        expected@ == spec_u32_le_bytes(spec_bps_target_crc(patch@) as u32)
                            && (spec_bps_header(patch@) matches Ok(h) && (bps_actions(
                            patch@,
                            h.3 + h.2,
                            old(rom)@,
                            h.1 as int,
                            Seq::<u8>::empty(),
                            0,
                            0,
                        ) matches Ok(t) && actual@ == spec_u32_le_bytes(spec_crc32(t))))
                    }
                }) && (e matches PatchError::OutOfBounds { offset, rom_size } ==> (
                spec_bps_header(patch@) matches Ok(h) && (offset as int, rom_size as int)
                    == bps_oob_info(patch@, h.3 + h.2, h.0 as int, h.1 as int, 0, 0, 0))),
            },
    {
        let n = patch.len();
        if !Self::can_handle(patch) {
            return Err(PatchError::InvalidMagic {
                expected: vec![0x42, 0x50, 0x53, 0x31],
                actual: prefix_vec(patch, 4),
            });
        }
        if n < 16 {
            return Err(PatchError::UnexpectedEof("patch too small for header and trailer"));
        }
        let declared_patch_crc = read_u32_le_at(patch, n - 4);
        let got_patch_crc = compute(&patch[0..n - 4]);
        if got_patch_crc != declared_patch_crc {
            return Err(PatchError::ChecksumMismatch {
                expected: u32_le_vec(declared_patch_crc),
                actual: u32_le_vec(got_patch_crc),
            });
        }
        let (ss, ts, ms, mstart) = match parse_header(patch) {
            Ok(t) => t,
            Err(e) => {
                return Err(e);
            },
        };
        if mstart as u128 + ms as u128 > (n - 12) as u128 {
            return Err(PatchError::UnexpectedEof("metadata overlaps the checksum trailer"));
        }
        if ts > MAX_TARGET_SIZE as u64 {
            return Err(PatchError::ResourceLimit);
        }
        if rom.len() as u64 != ss {
            return Err(PatchError::InvalidFormat("source size differs from declared size"));
        }
        let declared_src_crc = read_u32_le_at(patch, n - 12);
        let got_src_crc = compute(rom.as_slice());
        if got_src_crc != declared_src_crc {
            return Err(PatchError::ChecksumMismatch {
                expected: u32_le_vec(declared_src_crc),
                actual: u32_le_vec(got_src_crc),
            });
        }
        let src = rom.as_slice();
        let tgt_size = ts as usize;
        let astart = mstart + ms as usize;
        let mut out: Vec<u8> = Vec::new();
        let mut sr: usize = 0;
        let mut tr: usize = 0;
        let mut i: usize = astart;
        let limit = n - 12;
        proof {
            assert(out@ =~= Seq::<u8>::empty());
        }
        while i < limit
            invariant
                i <= n,
                n == patch@.len(),
                n >= 16,
                limit == n - 12,
                tgt_size <= MAX_TARGET_SIZE,
                out@.len() <= tgt_size,
                sr <= src@.len(),
                tr <= out@.len(),
                src@ == old(rom)@,
                (spec_bps_header(patch@) matches Ok(h) && h.3 + h.2 == astart as int && h.0
                    == src@.len() && h.1 == tgt_size as nat),
                bps_oob_info(
                    patch@,
                    i as int,
                    src@.len() as int,
                    tgt_size as int,
                    out@.len() as int,
                    sr as int,
                    tr as int,
                ) == bps_oob_info(
                    patch@,
                    astart as int,
                    src@.len() as int,
                    tgt_size as int,
                    0,
                    0,
                    0,
                ),
                bps_actions(patch@, i as int, src@, tgt_size as int, out@, sr as int, tr as int)
                    == bps_actions(
                    patch@,
                    astart as int,
                    src@,
                    tgt_size as int,
                    Seq::<u8>::empty(),
                    0,
                    0,
                ),
                spec_bps_apply(old(rom)@, patch@) == bps_finish(
                    patch@,
                    bps_actions(
                        patch@,
                        astart as int,
                        src@,
                        tgt_size as int,
                        Seq::<u8>::empty(),
                        0,
                        0,
                    ),
                ),
            decreases n - i,
        {
            proof {
                assert(patch@.subrange(i as int, n as int) =~= patch@.skip(i as int));
            }
            let (control, nc) = match decode(&patch[i..n]) {
                Ok(t) => t,
                Err(e) => {
                    return Err(e);
                },
            };
            let len64 = control / 4 + 1;
            let act = control % 4;
            let i2 = i + nc;
            if out.len() as u128 + len64 as u128 > tgt_size as u128 {
                return Err(PatchError::OutOfBounds { offset: out.len(), rom_size: tgt_size });
            }
            let len = len64 as usize;
            if act == 0 {
                let tlen = out.len();
                if tlen as u128 + len as u128 > src.len() as u128 {
                    return Err(PatchError::OutOfBounds { offset: tlen, rom_size: src.len() });
                }
                append_range(&mut out, src, tlen, len);
                i = i2;
            } else if act == 1 {
                if i2 as u128 + len as u128 > limit as u128 {
                    return Err(PatchError::UnexpectedEof("TargetRead exceeds patch bounds"));
                }
                append_range(&mut out, patch, i2, len);
                i = i2 + len;
            } else if act == 2 {
                proof {
                    assert(patch@.subrange(i2 as int, n as int) =~= patch@.skip(i2 as int));
                }
                let (dv, nd) = match decode(&patch[i2..n]) {
                    Ok(t) => t,
                    Err(e) => {
                        return Err(e);
                    },
                };
                let i3 = i2 + nd;
                let mag = (dv / 2) as u64;
                let sr2: i128 = if dv % 2 == 1 {
                    sr as i128 - mag as i128
                } else {
                    sr as i128 + mag as i128
                };
                if sr2 < 0 || sr2 + len as i128 > src.len() as i128 {
                    let off_clamped: usize = if sr2 < 0 {
                        0
                    } else if sr2 > usize::MAX as i128 {
                        usize::MAX
                    } else {
                        sr2 as usize
                    };
                    return Err(PatchError::OutOfBounds {
                        offset: off_clamped,
                        rom_size: src.len(),
                    });
                }
                sr = sr2 as usize;
                append_range(&mut out, src, sr, len);
                sr = sr + len;
                i = i3;
            } else {
                proof {
                    assert(patch@.subrange(i2 as int, n as int) =~= patch@.skip(i2 as int));
                }
                let (dv, nd) = match decode(&patch[i2..n]) {
                    Ok(t) => t,
                    Err(e) => {
                        return Err(e);
                    },
                };
                let i3 = i2 + nd;
                let mag = (dv / 2) as u64;
                let tr2: i128 = if dv % 2 == 1 {
                    tr as i128 - mag as i128
                } else {
                    tr as i128 + mag as i128
                };
                if tr2 < 0 || tr2 >= out.len() as i128 {
                    let off_clamped: usize = if tr2 < 0 {
                        0
                    } else if tr2 > usize::MAX as i128 {
                        usize::MAX
                    } else {
                        tr2 as usize
                    };
                    return Err(PatchError::OutOfBounds {
                        offset: off_clamped,
                        rom_size: out.len(),
                    });
                }
                tr = tr2 as usize;
                let from = tr;
                let ghost t0 = out@;
                let mut k: usize = 0;
                while k < len
                    invariant
                        k <= len,
                        from < t0.len(),
                        t0.len() + len <= MAX_TARGET_SIZE,
                        out@.len() == t0.len() + k,
                        overlap_copy(out@, from + k, (len - k) as nat) == overlap_copy(
                            t0,
                            from as int,
                            len as nat,
                        ),
                    decreases len - k,
                {
                    let b = out[from + k];
                    out.push(b);
                    k = k + 1;
                }
                proof {
                    lemma_overlap_copy_len(t0, from as int, len as nat);
                }
                tr = from + len;
                i = i3;
            }
        }
        if out.len() != tgt_size {
            return Err(PatchError::InvalidFormat("action stream under-fills the target"));
        }
        let declared_tgt_crc = read_u32_le_at(patch, n - 8);
        let got_tgt_crc = compute(out.as_slice());
        if got_tgt_crc != declared_tgt_crc {
            return Err(PatchError::ChecksumMismatch {
                expected: u32_le_vec(declared_tgt_crc),
                actual: u32_le_vec(got_tgt_crc),
            });
        }
        *rom = out;
        Ok(())
    }

    /// Header sizes, the two declared image checksums, and the embedded
    /// metadata text, read without executing any action.
    pub fn metadata(patch: &[u8]) -> (r: Result<PatchMetadata, PatchError>)
        ensures
            match r {
                Ok(m) => {
                    &&& spec_bps_can(patch@)
                    &&& patch@.len() >= 16
                    &&& spec_bps_header(patch@) matches Ok(h)
                    &&& h.3 + h.2 <= patch@.len() - 12
                    &&& m.patch_type == PatchType::Bps
                    &&& m.source_size matches Some(s) && s as nat == h.0
                    &&& m.target_size matches Some(t) && t as nat == h.1
                    &&& m.source_checksum matches Some(sc) && sc@ == patch@.subrange(
                        patch@.len() - 12,
                        patch@.len() - 8,
                    )
                    &&& m.target_checksum matches Some(tc) && tc@ == patch@.subrange(
                        patch@.len() - 8,
                        patch@.len() - 4,
                    )
                    &&& (h.2 == 0 ==> m.extra@.len() == 0)
                    &&& (h.2 > 0 ==> m.extra@.len() == 1 && m.extra@[0].0@ == "metadata"@
                        && m.extra@[0].1@ == utf8_lossy(patch@.subrange(h.3, h.3 + h.2)))
                },
                Err(e) => {
                    ||| !spec_bps_can(patch@) && e.kind() == ErrKind::InvalidMagic
                    ||| spec_bps_can(patch@) && patch@.len() < 16 && e.kind()
                        == ErrKind::UnexpectedEof
                    ||| spec_bps_can(patch@) && patch@.len() >= 16 && (spec_bps_header(patch@)
                        matches Err(k) && k == e.kind())
                    ||| spec_bps_can(patch@) && patch@.len() >= 16 && (spec_bps_header(patch@)
                        matches Ok(h) && h.3 + h.2 > patch@.len() - 12) && e.kind()
                        == ErrKind::UnexpectedEof
                    ||| spec_bps_can(patch@) && patch@.len() >= 16 && (spec_bps_header(patch@)
                        matches Ok(h) && h.3 + h.2 <= patch@.len() - 12 && (h.0 > usize::MAX
                        || h.1 > usize::MAX)) && e.kind() == ErrKind::InvalidFormat
                },
            },
    {
        let n = patch.len();
        if !Self::can_handle(patch) {
            return Err(PatchError::InvalidMagic {
                expected: vec![0x42, 0x50, 0x53, 0x31],
                actual: prefix_vec(patch, 4),
            });
        }
        if n < 16 {
            return Err(PatchError::UnexpectedEof("patch too small for header and trailer"));
        }
        let (ss, ts, ms, mstart) = match parse_header(patch) {
            Ok(t) => t,
            Err(e) => {
                return Err(e);
            },
        };
        if mstart as u128 + ms as u128 > (n - 12) as u128 {
            return Err(PatchError::UnexpectedEof("metadata overlaps the checksum trailer"));
        }
        if ss > usize::MAX as u64 || ts > usize::MAX as u64 {
            return Err(PatchError::InvalidFormat("declared size exceeds the address space"));
        }
        let mut m = PatchMetadata::new(PatchType::Bps);
        m.source_size = Some(ss as usize);
        m.target_size = Some(ts as usize);
        m.source_checksum = Some(slice_vec(patch, n - 12, n - 8));
        m.target_checksum = Some(slice_vec(patch, n - 8, n - 4));
        if ms > 0 {
            let meta_bytes = slice_vec(patch, mstart, mstart + ms as usize);
            let meta = bytes_to_string_lossy(meta_bytes.as_slice());
            return Ok(m.with_extra(String::from_str("metadata"), meta));
        }
        proof {
            assert(m.extra@.len() == 0);
        }
        Ok(m)
    }

    /// Full structural walk: magic, patch checksum, header, and every
    /// action against the declared sizes.
    #[verifier::rlimit(60)]
    pub fn validate(patch: &[u8]) -> (r: Result<(), PatchError>)
        ensures
            match r {
                Ok(()) => spec_bps_validate(patch@) is Ok,
                Err(e) => spec_bps_validate(patch@) matches Err(k) && k == e.kind() && (e matches
                    PatchError::ChecksumMismatch { expected, actual } ==> expected@
                    == spec_u32_le_bytes(spec_bps_patch_crc(patch@) as u32) && actual@
                    == spec_u32_le_bytes(spec_crc32(patch@.subrange(0, patch@.len() - 4)))) && (e
                    matches PatchError::OutOfBounds { offset, rom_size } ==> (spec_bps_header(
                    patch@,
                ) matches Ok(h) && (offset as int, rom_size as int) == bps_oob_info(
                    patch@,
                    h.3 + h.2,
                    h.0 as int,
                    h.1 as int,
                    0,
                    0,
                    0,
                ))),
            },
    {
        let n = patch.len();
        if !Self::can_handle(patch) {
            return Err(PatchError::InvalidMagic {
                expected: vec![0x42, 0x50, 0x53, 0x31],
                actual: prefix_vec(patch, 4),
            });
        }
        if n < 16 {
            return Err(PatchError::UnexpectedEof("patch too small for header and trailer"));
        }
        let declared_patch_crc = read_u32_le_at(patch, n - 4);
        let got_patch_crc = compute(&patch[0..n - 4]);
        if got_patch_crc != declared_patch_crc {
            return Err(PatchError::ChecksumMismatch {
                expected: u32_le_vec(declared_patch_crc),
                actual: u32_le_vec(got_patch_crc),
            });
        }
        let (ss, ts, ms, mstart) = match parse_header(patch) {
            Ok(t) => t,
            Err(e) => {
                return Err(e);
            },
        };
        if mstart as u128 + ms as u128 > (n - 12) as u128 {
            return Err(PatchError::UnexpectedEof("metadata overlaps the checksum trailer"));
        }
        if ts > MAX_TARGET_SIZE as u64 {
            return Err(PatchError::ResourceLimit);
        }
        let src_len = ss;
        let tgt_size = ts;
        let astart = mstart + ms as usize;
        let mut out_len: u64 = 0;
        let mut sr: u64 = 0;
        let mut tr: u64 = 0;
        let mut i: usize = astart;
        let limit = n - 12;
        while i < limit
            invariant
                i <= n,
                n == patch@.len(),
                n >= 16,
                limit == n - 12,
                tgt_size <= MAX_TARGET_SIZE as u64,
                out_len <= tgt_size,
                sr <= src_len,
                tr <= out_len,
                (spec_bps_header(patch@) matches Ok(h) && h.3 + h.2 == astart as int && h.0
                    == src_len as nat && h.1 == tgt_size as nat),
                bps_oob_info(
                    patch@,
                    i as int,
                    src_len as int,
                    tgt_size as int,
                    out_len as int,
                    sr as int,
                    tr as int,
                ) == bps_oob_info(
                    patch@,
                    astart as int,
                    src_len as int,
                    tgt_size as int,
                    0,
                    0,
                    0,
                ),
                bps_walk(
                    patch@,
                    i as int,
                    src_len as int,
                    tgt_size as int,
                    out_len as int,
                    sr as int,
                    tr as int,
                ) == bps_walk(patch@, astart as int, src_len as int, tgt_size as int, 0, 0, 0),
                spec_bps_validate(patch@) == bps_walk(
                    patch@,
                    astart as int,
                    src_len as int,
                    tgt_size as int,
                    0,
                    0,
                    0,
                ),
            decreases n - i,
        {
            proof {
                assert(patch@.subrange(i as int, n as int) =~= patch@.skip(i as int));
            }
            let (control, nc) = match decode(&patch[i..n]) {
                Ok(t) => t,
                Err(e) => {
                    return Err(e);
                },
            };
            let len64 = control / 4 + 1;
            let act = control % 4;
            let i2 = i + nc;
            if out_len as u128 + len64 as u128 > tgt_size as u128 {
                return Err(PatchError::OutOfBounds {
                    offset: out_len as usize,
                    rom_size: tgt_size as usize,
                });
            }
            if act == 0 {
                if out_len as u128 + len64 as u128 > src_len as u128 {
                    let bound: usize = if src_len > usize::MAX as u64 {
                        usize::MAX
                    } else {
                        src_len as usize
                    };
                    return Err(PatchError::OutOfBounds {
                        offset: out_len as usize,
                        rom_size: bound,
                    });
                }
                out_len = out_len + len64;
                i = i2;
            } else if act == 1 {
                if i2 as u128 + len64 as u128 > limit as u128 {
                    return Err(PatchError::UnexpectedEof("TargetRead exceeds patch bounds"));
                }
                out_len = out_len + len64;
                i = i2 + len64 as usize;
            } else if act == 2 {
                proof {
                    assert(patch@.subrange(i2 as int, n as int) =~= patch@.skip(i2 as int));
                }
                let (dv, nd) = match decode(&patch[i2..n]) {
                    Ok(t) => t,
                    Err(e) => {
                        return Err(e);
                    },
                };
                let i3 = i2 + nd;
                let mag = dv / 2;
                let sr2: i128 = if dv % 2 == 1 {
                    sr as i128 - mag as i128
                } else {
                    sr as i128 + mag as i128
                };
                if sr2 < 0 || sr2 + len64 as i128 > src_len as i128 {
                    let off_clamped: usize = if sr2 < 0 {
                        0
                    } else if sr2 > usize::MAX as i128 {
                        usize::MAX
                    } else {
                        sr2 as usize
                    };
                    let bound: usize = if src_len > usize::MAX as u64 {
                        usize::MAX
                    } else {
                        src_len as usize
                    };
                    return Err(PatchError::OutOfBounds { offset: off_clamped, rom_size: bound });
                }
                sr = sr2 as u64 + len64;
                out_len = out_len + len64;
                i = i3;
            } else {
                proof {
                    assert(patch@.subrange(i2 as int, n as int) =~= patch@.skip(i2 as int));
                }
                let (dv, nd) = match decode(&patch[i2..n]) {
                    Ok(t) => t,
                    Err(e) => {
                        return Err(e);
                    },
                };
                let i3 = i2 + nd;
                let mag = dv / 2;
                let tr2: i128 = if dv % 2 == 1 {
                    tr as i128 - mag as i128
                } else {
                    tr as i128 + mag as i128
                };
                if tr2 < 0 || tr2 >= out_len as i128 {
                    let off_clamped: usize = if tr2 < 0 {
                        0
                    } else if tr2 > usize::MAX as i128 {
                        usize::MAX
                    } else {
                        tr2 as usize
                    };
                    return Err(PatchError::OutOfBounds {
                        offset: off_clamped,
                        rom_size: out_len as usize,
                    });
                }
                tr = tr2 as u64 + len64;
                out_len = out_len + len64;
                i = i3;
            }
        }
        if out_len != tgt_size {
            return Err(PatchError::InvalidFormat("action stream under-fills the target"));
        }
        Ok(())
    }
}

} // verus!
