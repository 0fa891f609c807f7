//! The xdelta patch format: VCDIFF (RFC 3284) decoding.
//!
//! Magic `D6 C3 C4` plus a version byte, a header indicator and optional
//! application data, then a sequence of windows.  Each window names an
//! optional source segment (from the source image or from the target
//! built so far), declares its encoded lengths, and carries three
//! sections: literal data, instructions and copy addresses.  Opcodes
//! come from the default code table; copy addresses are resolved through
//! the address cache in one of nine modes.  An optional Adler-32
//! checksum guards each window.

use crate::adler32::spec_adler32;
use crate::buf::{append_range, slice_vec, prefix_vec};
use crate::error::{ErrKind, PatchError};
use crate::types::{PatchMetadata, PatchType, MAX_TARGET_SIZE};
use crate::varint::vcdiff::{decode, spec_vcdiff_varint};
use crate::xdelta::address_cache::AddressCache;
use crate::xdelta::code_table::{
    code_entry, spec_code_entry, Instruction, VCD_ADD, VCD_COPY, VCD_NOOP, VCD_RUN,
};
use vstd::prelude::*;

pub mod address_cache;
pub mod code_table;

verus! {

/// Big-endian 32-bit value at `b[i..i+4]`.
pub open spec fn spec_u32_be_at(b: Seq<u8>, i: int) -> int {
    (b[i] as int) * 0x1000000 + (b[i + 1] as int) * 0x10000 + (b[i + 2] as int) * 0x100 + (b[i
        + 3] as int)
}

/// `b` starts with the VCDIFF magic.
pub open spec fn spec_xdelta_can(b: Seq<u8>) -> bool {
    &&& b.len() >= 3
    &&& b[0] == 0xD6u8
    &&& b[1] == 0xC3u8
    &&& b[2] == 0xC4u8
}

/// The state of one window's instruction interpreter: cursors into the
/// three sections, the window output, and the address cache (default
/// parameters: four near slots, three pages of same slots).
pub ghost struct XdState {
    pub dp: int,
    pub ip: int,
    pub ap: int,
    pub out: Seq<u8>,
    pub near: Seq<u64>,
    pub slot: int,
    pub same: Seq<u64>,
}

/// The fresh interpreter state at the start of a window.
pub open spec fn xd_init_state() -> XdState {
    XdState {
        dp: 0,
        ip: 0,
        ap: 0,
        out: Seq::<u8>::empty(),
        near: Seq::new(4, |i: int| 0u64),
        slot: 0,
        same: Seq::new(768, |i: int| 0u64),
    }
}

/// Resolve a copy address in mode `mode`: modes 0 and 1 read a varint
/// (absolute, or backward from `here`); modes 2 to 5 add a varint to a
/// near slot; modes 6 to 8 read one raw byte selecting a same slot.
pub open spec fn xd_resolve(
    addr_sec: Seq<u8>,
    ap: int,
    mode: int,
    here: int,
    near: Seq<u64>,
    same: Seq<u64>,
) -> Result<(int, int), ErrKind> {
    if mode == 0 {
        match spec_vcdiff_varint(addr_sec.skip(ap)) {
            Err(k) => Err(k),
            Ok((v, nb)) => Ok((v as int, ap + nb)),
        }
    } else if mode == 1 {
        match spec_vcdiff_varint(addr_sec.skip(ap)) {
            Err(k) => Err(k),
            Ok((v, nb)) => Ok((here - v, ap + nb)),
        }
    } else if mode <= 5 {
        match spec_vcdiff_varint(addr_sec.skip(ap)) {
            Err(k) => Err(k),
            Ok((v, nb)) => Ok((near[mode - 2] + v, ap + nb)),
        }
    } else if mode <= 8 {
        if ap < 0 || ap >= addr_sec.len() {
            Err(ErrKind::UnexpectedEof)
        } else {
            Ok((same[(mode - 6) * 256 + addr_sec[ap]] as int, ap + 1))
        }
    } else {
        Err(ErrKind::InvalidFormat)
    }
}

/// `out` extended by `len` bytes copied from position `addr` of the
/// space `srcseg + out`; reads chase writes, so self-overlapping copies
/// repeat the fresh bytes.
pub open spec fn xd_copy(srcseg: Seq<u8>, out: Seq<u8>, addr: int, len: nat) -> Seq<u8>
    decreases len,
{
    if len == 0 {
        out
    } else {
        let b = if addr < srcseg.len() {
            srcseg[addr]
        } else {
            out[addr - srcseg.len()]
        };
        xd_copy(srcseg, out.push(b), addr + 1, (len - 1) as nat)
    }
}

/// `xd_copy` grows the window by exactly the copy length.
pub proof fn lemma_xd_copy_len(srcseg: Seq<u8>, out: Seq<u8>, addr: int, len: nat)
    ensures
        xd_copy(srcseg, out, addr, len).len() == out.len() + len,
    decreases len,
{
    if len != 0 {
        let b = if addr < srcseg.len() {
            srcseg[addr]
        } else {
            out[addr - srcseg.len()]
        };
        lemma_xd_copy_len(srcseg, out.push(b), addr + 1, (len - 1) as nat);
    }
}

/// Execute one sub-instruction of an opcode.
pub open spec fn xd_half(
    ins: Instruction,
    data: Seq<u8>,
    inst: Seq<u8>,
    addr_sec: Seq<u8>,
    srcseg: Seq<u8>,
    tgt_len: int,
    st: XdState,
) -> Result<XdState, ErrKind> {
    if ins.inst_type == VCD_NOOP {
        Ok(st)
    } else {
        let szr: Result<(int, int), ErrKind> = if ins.size == 0 {
            match spec_vcdiff_varint(inst.skip(st.ip)) {
                Err(k) => Err(k),
                Ok((v, nb)) => Ok((v as int, st.ip + nb)),
            }
        } else {
            Ok((ins.size as int, st.ip))
        };
        match szr {
            Err(k) => Err(k),
            Ok((s, ip2)) => {
                if st.out.len() + s > tgt_len {
                    Err(ErrKind::OutOfBounds)
                } else if ins.inst_type == VCD_ADD {
                    if st.dp + s > data.len() {
                        Err(ErrKind::UnexpectedEof)
                    } else {
                        Ok(
                            XdState {
                                dp: st.dp + s,
                                ip: ip2,
                                ap: st.ap,
                                out: st.out + data.subrange(st.dp, st.dp + s),
                                near: st.near,
                                slot: st.slot,
                                same: st.same,
                            },
                        )
                    }
                } else if ins.inst_type == VCD_RUN {
                    if st.dp + 1 > data.len() {
                        Err(ErrKind::UnexpectedEof)
                    } else {
                        Ok(
                            XdState {
                                dp: st.dp + 1,
                                ip: ip2,
                                ap: st.ap,
                                out: st.out + Seq::new(s as nat, |j: int| data[st.dp]),
                                near: st.near,
                                slot: st.slot,
                                same: st.same,
                            },
                        )
                    }
                } else {
                    let here = srcseg.len() + st.out.len();
                    match xd_resolve(addr_sec, st.ap, ins.mode as int, here as int, st.near, st.same) {
                        Err(k) => Err(k),
                        Ok((a, ap2)) => {
                            if a < 0 || a >= here {
                                Err(ErrKind::OutOfBounds)
                            } else {
                                Ok(
                                    XdState {
                                        dp: st.dp,
                                        ip: ip2,
                                        ap: ap2,
                                        out: xd_copy(srcseg, st.out, a, s as nat),
                                        near: st.near.update(st.slot, a as u64),
                                        slot: (st.slot + 1) % 4,
                                        same: st.same.update(((a as u64) as int) % 768, a as u64),
                                    },
                                )
                            }
                        },
                    }
                }
            },
        }
    }
}

/// Execute the instruction section of one window: each opcode stands for
/// up to two sub-instructions; the finished window must have exactly the
/// declared length.
pub open spec fn xd_instrs(
    data: Seq<u8>,
    inst: Seq<u8>,
    addr_sec: Seq<u8>,
    srcseg: Seq<u8>,
    tgt_len: int,
    st: XdState,
) -> Result<Seq<u8>, ErrKind>
    decreases inst.len() - st.ip,
{
    if st.ip < 0 {
        Err(ErrKind::UnexpectedEof)
    } else if st.ip >= inst.len() {
        if st.out.len() == tgt_len {
            Ok(st.out)
        } else {
            Err(ErrKind::InvalidFormat)
        }
    } else {
        let pair = spec_code_entry(inst[st.ip] as int);
        let st1 = XdState {
            dp: st.dp,
            ip: st.ip + 1,
            ap: st.ap,
            out: st.out,
            near: st.near,
            slot: st.slot,
            same: st.same,
        };
        match xd_half(pair.0, data, inst, addr_sec, srcseg, tgt_len, st1) {
            Err(k) => Err(k),
            Ok(st2) => match xd_half(pair.1, data, inst, addr_sec, srcseg, tgt_len, st2) {
                Err(k) => Err(k),
                Ok(st3) => {
                    let ipn: int = if st3.ip < st.ip + 1 {
                        st.ip + 1
                    } else if st3.ip > inst.len() {
                        inst.len() as int
                    } else {
                        st3.ip
                    };
                    xd_instrs(
                        data,
                        inst,
                        addr_sec,
                        srcseg,
                        tgt_len,
                        XdState {
                            dp: st3.dp,
                            ip: ipn,
                            ap: st3.ap,
                            out: st3.out,
                            near: st3.near,
                            slot: st3.slot,
                            same: st3.same,
                        },
                    )
                },
            },
        }
    }
}

/// The window sequence from position `i`: each window appends its
/// decoded output to `target`.
pub open spec fn xd_windows(patch: Seq<u8>, i: int, src: Seq<u8>, target: Seq<u8>) -> Result<
    Seq<u8>,
    ErrKind,
>
    decreases patch.len() - i,
{
    if i < 0 {
        Err(ErrKind::UnexpectedEof)
    } else if i >= patch.len() {
        Ok(target)
    } else {
        let wi = patch[i];
        if wi >= 8 || wi % 4 == 3 {
            Err(ErrKind::InvalidFormat)
        } else {
            let segr: Result<(Seq<u8>, int), ErrKind> = if wi % 4 == 0 {
                Ok((Seq::<u8>::empty(), i + 1))
            } else {
                match spec_vcdiff_varint(patch.skip(i + 1)) {
                    Err(k) => Err(k),
                    Ok((slen, n1)) => match spec_vcdiff_varint(patch.skip(i + 1 + n1 as int)) {
                        Err(k) => Err(k),
                        Ok((spos, n2)) => {
                            let base = if wi % 4 == 1 {
                                src
                            } else {
                                target
                            };
                            if spos + slen > base.len() {
                                Err(ErrKind::OutOfBounds)
                            } else {
                                Ok(
                                    (
                                        base.subrange(spos as int, spos as int + slen as int),
                                        i + 1 + n1 as int + n2 as int,
                                    ),
                                )
                            }
                        },
                    },
                }
            };
            match segr {
                Err(k) => Err(k),
                Ok((srcseg, j0)) => match spec_vcdiff_varint(patch.skip(j0)) {
                    Err(k) => Err(k),
                    Ok((delta_len, ndl)) => {
                        let j1 = j0 + ndl as int;
                        match spec_vcdiff_varint(patch.skip(j1)) {
                            Err(k) => Err(k),
                            Ok((tw, ntw)) => {
                                let j2 = j1 + ntw as int;
                                if j2 >= patch.len() {
                                    Err(ErrKind::UnexpectedEof)
                                } else if patch[j2] != 0 {
                                    Err(ErrKind::NotSupported)
                                } else {
                                    let j3 = j2 + 1;
                                    match spec_vcdiff_varint(patch.skip(j3)) {
                                        Err(k) => Err(k),
                                        Ok((add_len, na)) => {
                                            let j4 = j3 + na as int;
                                            match spec_vcdiff_varint(patch.skip(j4)) {
                                                Err(k) => Err(k),
                                                Ok((inst_len, ni)) => {
                                                    let j5 = j4 + ni as int;
                                                    match spec_vcdiff_varint(patch.skip(j5)) {
                                                        Err(k) => Err(k),
                                                        Ok((addr_len, nr)) => {
                                                            let j6 = j5 + nr as int;
                                                            let j7: int = if wi >= 4 {
                                                                j6 + 4
                                                            } else {
                                                                j6
                                                            };
                                                            let d0 = j7;
                                                            let i0 = d0 + add_len as int;
                                                            let a0 = i0 + inst_len as int;
                                                            let wend = a0 + addr_len as int;
                                                            if wend > patch.len() {
                                                                Err(ErrKind::UnexpectedEof)
                                                            } else if delta_len as int != wend
                                                                - j0 {
                                                                Err(ErrKind::InvalidFormat)
                                                            } else if target.len() + tw
                                                                > MAX_TARGET_SIZE as nat {
                                                                Err(ErrKind::ResourceLimit)
                                                            } else {
                                                                match xd_instrs(
                                                                    patch.subrange(d0, i0),
                                                                    patch.subrange(i0, a0),
                                                                    patch.subrange(a0, wend),
                                                                    srcseg,
                                                                    tw as int,
                                                                    xd_init_state(),
                                                                ) {
                                                                    Err(k) => Err(k),
                                                                    Ok(out) => if wi >= 4
                                                                        && spec_adler32(out)
                                                                        != spec_u32_be_at(patch, j6) {
                                                                        Err(ErrKind::ChecksumMismatch)
                                                                    } else {
                                                                        xd_windows(
                                                                            patch,
                                                                            wend,
                                                                            src,
                                                                            target + out,
                                                                        )
                                                                    },
                                                                }
                                                            }
                                                        },
                                                    }
                                                },
                                            }
                                        },
                                    }
                                }
                            },
                        }
                    },
                },
            }
        }
    }
}

/// The tail of one window's decoding, once the header is parsed: the
/// interpreter result, the optional Adler-32 check, and the remaining
/// windows.
pub open spec fn xd_after_instrs(
    patch: Seq<u8>,
    wend: int,
    src: Seq<u8>,
    target0: Seq<u8>,
    wi: u8,
    adler_pos: int,
    rr: Result<Seq<u8>, ErrKind>,
) -> Result<Seq<u8>, ErrKind> {
    match rr {
        Err(k) => Err(k),
        Ok(out) => if wi >= 4 && spec_adler32(out) != spec_u32_be_at(patch, adler_pos) {
            Err(ErrKind::ChecksumMismatch)
        } else {
            xd_windows(patch, wend, src, target0 + out)
        },
    }
}

/// The interpreter state built from the executable cursors, window
/// buffer and address cache.
pub open spec fn st_of(dp: int, ip: int, ap: int, out: Seq<u8>, cache: AddressCache) -> XdState {
    XdState {
        dp,
        ip,
        ap,
        out,
        near: cache.spec_near(),
        slot: cache.spec_next_slot(),
        same: cache.spec_same(),
    }
}

/// Applying `patch` to `src`: magic and version, the header indicator
/// (secondary compression and custom code tables are not supported),
/// optional application data, then the windows.
pub open spec fn spec_xdelta_apply(src: Seq<u8>, patch: Seq<u8>) -> Result<Seq<u8>, ErrKind> {
    if !spec_xdelta_can(patch) {
        Err(ErrKind::InvalidMagic)
    } else if patch.len() < 5 {
        Err(ErrKind::UnexpectedEof)
    } else if patch[3] != 0 {
        Err(ErrKind::InvalidFormat)
    } else {
        let hdr = patch[4];
        if hdr % 2 == 1 || (hdr / 2) % 2 == 1 {
            Err(ErrKind::NotSupported)
        } else if hdr >= 8 {
            Err(ErrKind::InvalidFormat)
        } else if (hdr / 4) % 2 == 1 {
            match spec_vcdiff_varint(patch.skip(5)) {
                Err(k) => Err(k),
                Ok((alen, nb)) => if 5 + nb as int + alen as int > patch.len() {
                    Err(ErrKind::UnexpectedEof)
                } else {
                    xd_windows(patch, 5 + nb as int + alen as int, src, Seq::<u8>::empty())
                },
            }
        } else {
            xd_windows(patch, 5, src, Seq::<u8>::empty())
        }
    }
}

/// The structural walk of the window sequence: header shapes, section
/// lengths inside the patch, and the cumulative target ceiling, without
/// executing any instruction (segment bounds and checksums depend on the
/// images).
pub open spec fn xd_walk(patch: Seq<u8>, i: int, total: nat) -> Result<(), ErrKind>
    decreases patch.len() - i,
{
    if i < 0 {
        Err(ErrKind::UnexpectedEof)
    } else if i >= patch.len() {
        Ok(())
    } else {
        let wi = patch[i];
        if wi >= 8 || wi % 4 == 3 {
            Err(ErrKind::InvalidFormat)
        } else {
            let segr: Result<int, ErrKind> = if wi % 4 == 0 {
                Ok(i + 1)
            } else {
                match spec_vcdiff_varint(patch.skip(i + 1)) {
                    Err(k) => Err(k),
                    Ok((_slen, n1)) => match spec_vcdiff_varint(patch.skip(i + 1 + n1 as int)) {
                        Err(k) => Err(k),
                        Ok((_spos, n2)) => Ok(i + 1 + n1 as int + n2 as int),
                    },
                }
            };
            match segr {
                Err(k) => Err(k),
                Ok(j0) => match spec_vcdiff_varint(patch.skip(j0)) {
                    Err(k) => Err(k),
                    Ok((delta_len, ndl)) => {
                        let j1 = j0 + ndl as int;
                        match spec_vcdiff_varint(patch.skip(j1)) {
                            Err(k) => Err(k),
                            Ok((tw, ntw)) => {
                                let j2 = j1 + ntw as int;
                                if j2 >= patch.len() {
                                    Err(ErrKind::UnexpectedEof)
                                } else if patch[j2] != 0 {
                                    Err(ErrKind::NotSupported)
                                } else {
                                    let j3 = j2 + 1;
                                    match spec_vcdiff_varint(patch.skip(j3)) {
                                        Err(k) => Err(k),
                                        Ok((add_len, na)) => {
                                            let j4 = j3 + na as int;
                                            match spec_vcdiff_varint(patch.skip(j4)) {
                                                Err(k) => Err(k),
                                                Ok((inst_len, ni)) => {
                                                    let j5 = j4 + ni as int;
                                                    match spec_vcdiff_varint(patch.skip(j5)) {
                                                        Err(k) => Err(k),
                                                        Ok((addr_len, nr)) => {
                                                            let j6 = j5 + nr as int;
                                                            let j7: int = if wi >= 4 {
                                                                j6 + 4
                                                            } else {
                                                                j6
                                                            };
                                                            let wend = j7 + add_len as int
                                                                + inst_len as int + addr_len as int;
                                                            if wend > patch.len() {
                                                                Err(ErrKind::UnexpectedEof)
                                                            } else if delta_len as int != wend
                                                                - j0 {
                                                                Err(ErrKind::InvalidFormat)
                                                            } else if total + tw
                                                                > MAX_TARGET_SIZE as nat {
                                                                Err(ErrKind::ResourceLimit)
                                                            } else {
                                                                xd_walk(patch, wend, total + tw)
                                                            }
                                                        },
                                                    }
                                                },
                                            }
                                        },
                                    }
                                }
                            },
                        }
                    },
                },
            }
        }
    }
}

/// Validating `patch`: magic and version, the header indicator, the
/// application data, then the structural window walk.
pub open spec fn spec_xdelta_validate(patch: Seq<u8>) -> Result<(), ErrKind> {
    if !spec_xdelta_can(patch) {
        Err(ErrKind::InvalidMagic)
    } else if patch.len() < 5 {
        Err(ErrKind::UnexpectedEof)
    } else if patch[3] != 0 {
        Err(ErrKind::InvalidFormat)
    } else {
        let hdr = patch[4];
        if hdr % 2 == 1 || (hdr / 2) % 2 == 1 {
            Err(ErrKind::NotSupported)
        } else if hdr >= 8 {
            Err(ErrKind::InvalidFormat)
        } else if (hdr / 4) % 2 == 1 {
            match spec_vcdiff_varint(patch.skip(5)) {
                Err(k) => Err(k),
                Ok((alen, nb)) => if 5 + nb as int + alen as int > patch.len() {
                    Err(ErrKind::UnexpectedEof)
                } else {
                    xd_walk(patch, 5 + nb as int + alen as int, 0)
                },
            }
        } else {
            xd_walk(patch, 5, 0)
        }
    }
}

/// Execute one sub-instruction against the window state.
#[verifier::rlimit(30)]
fn xd_half_exec(
    ins: Instruction,
    patch: &[u8],
    d0: usize,
    add_len: usize,
    i0: usize,
    inst_len: usize,
    a0: usize,
    addr_len: usize,
    srcseg: &[u8],
    tw: usize,
    dp: &mut usize,
    ip: &mut usize,
    ap: &mut usize,
    out: &mut Vec<u8>,
    cache: &mut AddressCache,
) -> (r: Result<(), PatchError>)
    requires
        i0 == d0 + add_len,
        a0 == i0 + inst_len,
        a0 + addr_len <= patch@.len(),
        tw <= MAX_TARGET_SIZE,
        old(out)@.len() <= tw,
        *old(dp) <= add_len,
        *old(ip) <= inst_len,
        *old(ap) <= addr_len,
        old(cache).wf(),
        old(cache).spec_near_size() == 4,
        old(cache).spec_same_size() == 3,
    ensures
        match r {
            Ok(()) => {
                &&& xd_half(
                    ins,
                    patch@.subrange(d0 as int, i0 as int),
                    patch@.subrange(i0 as int, a0 as int),
                    patch@.subrange(a0 as int, a0 as int + addr_len as int),
                    srcseg@,
                    tw as int,
                    st_of(
                        *old(dp) as int,
                        *old(ip) as int,
                        *old(ap) as int,
                        old(out)@,
                        *old(cache),
                    ),
                ) == Ok::<XdState, ErrKind>(
                    st_of(
                        *final(dp) as int,
                        *final(ip) as int,
                        *final(ap) as int,
                        final(out)@,
                        *final(cache),
                    ),
                )
                &&& *final(dp) <= add_len
                &&& *old(ip) <= *final(ip) <= inst_len
                &&& *final(ap) <= addr_len
                &&& final(out)@.len() <= tw
                &&& final(cache).wf()
                &&& final(cache).spec_near_size() == 4
                &&& final(cache).spec_same_size() == 3
            },
            Err(e) => xd_half(
                ins,
                patch@.subrange(d0 as int, i0 as int),
                patch@.subrange(i0 as int, a0 as int),
                patch@.subrange(a0 as int, a0 as int + addr_len as int),
                srcseg@,
                tw as int,
                st_of(*old(dp) as int, *old(ip) as int, *old(ap) as int, old(out)@, *old(cache)),
            ) matches Err(k) && k == e.kind(),
        },
{
    let ghost data = patch@.subrange(d0 as int, i0 as int);
    let ghost inst = patch@.subrange(i0 as int, a0 as int);
    let ghost addr_sec = patch@.subrange(a0 as int, a0 as int + addr_len as int);
    let n = patch.len();
    proof {
        assert(a0 + addr_len <= n);
    }
    if ins.inst_type == VCD_NOOP {
        return Ok(());
    }
    let s: u64 = if ins.size == 0 {
        proof {
            assert(patch@.subrange(i0 as int + *ip as int, a0 as int) =~= inst.skip(*ip as int));
        }
        let (v, nb) = match decode(&patch[i0 + *ip..a0]) {
            Ok(t) => t,
            Err(e) => {
                return Err(e);
            },
        };
        *ip = *ip + nb;
        v
    } else {
        ins.size as u64
    };
    if out.len() as u128 + s as u128 > tw as u128 {
        return Err(PatchError::OutOfBounds { offset: out.len(), rom_size: tw });
    }
    let su = s as usize;
    if ins.inst_type == VCD_ADD {
        if *dp as u128 + su as u128 > add_len as u128 {
            return Err(PatchError::UnexpectedEof("ADD data exceeds the data section"));
        }
        proof {
            assert(data.subrange(*dp as int, *dp as int + su as int) =~= patch@.subrange(
                d0 as int + *dp as int,
                d0 as int + *dp as int + su as int,
            ));
        }
        append_range(out, patch, d0 + *dp, su);
        *dp = *dp + su;
        Ok(())
    } else if ins.inst_type == VCD_RUN {
        if *dp as u128 + 1 > add_len as u128 {
            return Err(PatchError::UnexpectedEof("RUN byte exceeds the data section"));
        }
        let v = patch[d0 + *dp];
        let ghost out0 = out@;
        let mut k: usize = 0;
        while k < su
            invariant
                k <= su,
                out@ == out0 + Seq::new(k as nat, |j: int| v),
            decreases su - k,
        {
            out.push(v);
            proof {
                assert(out@ =~= out0 + Seq::new(k as nat + 1, |j: int| v));
            }
            k = k + 1;
        }
        proof {
            assert(v == data[*dp as int]);
            assert(Seq::new(su as nat, |j: int| v) =~= Seq::new(
                su as nat,
                |j: int| data[*dp as int],
            ));
        }
        *dp = *dp + 1;
        Ok(())
    } else {
        // COPY
        let here: u128 = srcseg.len() as u128 + out.len() as u128;
        let mode = ins.mode as usize;
        let a: u128;
        if mode <= 5 {
            proof {
                assert(patch@.subrange(a0 as int + *ap as int, a0 as int + addr_len as int)
                    =~= addr_sec.skip(*ap as int));
            }
            let (v, nb) = match decode(&patch[a0 + *ap..a0 + addr_len]) {
                Ok(t) => t,
                Err(e) => {
                    return Err(e);
                },
            };
            *ap = *ap + nb;
            if mode == 0 {
                a = v as u128;
            } else if mode == 1 {
                if v as u128 > here {
                    return Err(PatchError::OutOfBounds { offset: 0, rom_size: out.len() });
                }
                a = here - v as u128;
            } else {
                let base = cache.get_near(mode - 2);
                a = base as u128 + v as u128;
            }
        } else if mode <= 8 {
            if *ap >= addr_len {
                return Err(PatchError::UnexpectedEof("address section exhausted"));
            }
            let byte = patch[a0 + *ap];
            let idx = (mode - 6) * 256 + byte as usize;
            a = cache.get_same(idx) as u128;
            *ap = *ap + 1;
        } else {
            return Err(PatchError::InvalidFormat("copy mode out of range"));
        }
        if a >= here {
            return Err(PatchError::OutOfBounds { offset: 0, rom_size: out.len() });
        }
        let a64: u64 = #[verifier::truncate] (a as u64);
        cache.update(a64);
        let ghost out0 = out@;
        let slen = srcseg.len();
        let mut k: usize = 0;
        while k < su
            invariant
                k <= su,
                su <= tw,
                tw <= MAX_TARGET_SIZE,
                slen == srcseg@.len(),
                out0.len() <= tw,
                0 <= a as int,
                (a as int) < slen + out0.len(),
                out@.len() == out0.len() + k,
                xd_copy(srcseg@, out@, a as int + k, (su - k) as nat) == xd_copy(
                    srcseg@,
                    out0,
                    a as int,
                    su as nat,
                ),
            decreases su - k,
        {
            proof {
                assert(out@.len() <= tw + tw);
                assert(a as int + k < slen + out@.len());
                assert(a as int + k < usize::MAX as int + MAX_TARGET_SIZE + MAX_TARGET_SIZE + 1);
                assert(0 <= a as int + (k as int) <= u128::MAX as int);
            }
            let idx = a + k as u128;
            let b: u8 = if idx < slen as u128 {
                srcseg[idx as usize]
            } else {
                out[(idx - slen as u128) as usize]
            };
            proof {
                assert(idx as int == a as int + k);
                assert(b == (if a as int + k < srcseg@.len() {
                    srcseg@[a as int + k]
                } else {
                    out@[a as int + k - srcseg@.len()]
                }));
            }
            out.push(b);
            k = k + 1;
        }
        proof {
            lemma_xd_copy_len(srcseg@, out0, a as int, su as nat);
        }
        Ok(())
    }
}

/// Decode one window at position `i`, appending its output to `target`;
/// returns the position just after the window.
#[verifier::rlimit(100)]
fn xd_window_exec(patch: &[u8], i: usize, src: &[u8], target: &mut Vec<u8>) -> (r: Result<
    usize,
    PatchError,
>)
    requires
        i < patch@.len(),
    ensures
        match r {
            Ok(next) => i < next <= patch@.len() && xd_windows(patch@, i as int, src@, old(target)@)
                == xd_windows(patch@, next as int, src@, final(target)@),
            Err(e) => xd_windows(patch@, i as int, src@, old(target)@) matches Err(k) && k
                == e.kind(),
        },
{
    let n = patch.len();
    let wi = patch[i];
    if wi >= 8 || wi % 4 == 3 {
        return Err(PatchError::InvalidFormat("unsupported window indicator"));
    }
    let mut j0: usize = i + 1;
    let mut srcseg: Vec<u8> = Vec::new();
    if wi % 4 != 0 {
        proof {
            assert(patch@.subrange(i as int + 1, n as int) =~= patch@.skip(i as int + 1));
        }
        let (slen, n1) = match decode(&patch[i + 1..n]) {
            Ok(t) => t,
            Err(e) => {
                return Err(e);
            },
        };
        proof {
            assert(patch@.subrange(i as int + 1 + n1 as int, n as int) =~= patch@.skip(
                i as int + 1 + n1 as int,
            ));
        }
        let (spos, n2) = match decode(&patch[i + 1 + n1..n]) {
            Ok(t) => t,
            Err(e) => {
                return Err(e);
            },
        };
        let base_len: usize = if wi % 4 == 1 {
            src.len()
        } else {
            target.len()
        };
        if spos as u128 + slen as u128 > base_len as u128 {
            return Err(PatchError::OutOfBounds { offset: 0, rom_size: base_len });
        }
        if wi % 4 == 1 {
            srcseg = slice_vec(src, spos as usize, spos as usize + slen as usize);
        } else {
            srcseg = slice_vec(target.as_slice(), spos as usize, spos as usize + slen as usize);
        }
        j0 = i + 1 + n1 + n2;
    }
    proof {
        assert(patch@.subrange(j0 as int, n as int) =~= patch@.skip(j0 as int));
    }
    let (delta_len64, ndl) = match decode(&patch[j0..n]) {
        Ok(t) => t,
        Err(e) => {
            return Err(e);
        },
    };
    let j1 = j0 + ndl;
    proof {
        assert(patch@.subrange(j1 as int, n as int) =~= patch@.skip(j1 as int));
    }
    let (tw64, ntw) = match decode(&patch[j1..n]) {
        Ok(t) => t,
        Err(e) => {
            return Err(e);
        },
    };
    let j2 = j1 + ntw;
    if j2 >= n {
        return Err(PatchError::UnexpectedEof("window truncated before its delta indicator"));
    }
    if patch[j2] != 0 {
        return Err(PatchError::NotSupported);
    }
    let j3 = j2 + 1;
    proof {
        assert(patch@.subrange(j3 as int, n as int) =~= patch@.skip(j3 as int));
    }
    let (add_len64, na) = match decode(&patch[j3..n]) {
        Ok(t) => t,
        Err(e) => {
            return Err(e);
        },
    };
    let j4 = j3 + na;
    proof {
        assert(patch@.subrange(j4 as int, n as int) =~= patch@.skip(j4 as int));
    }
    let (inst_len64, ni) = match decode(&patch[j4..n]) {
        Ok(t) => t,
        Err(e) => {
            return Err(e);
        },
    };
    let j5 = j4 + ni;
    proof {
        assert(patch@.subrange(j5 as int, n as int) =~= patch@.skip(j5 as int));
    }
    let (addr_len64, nr) = match decode(&patch[j5..n]) {
        Ok(t) => t,
        Err(e) => {
            return Err(e);
        },
    };
    let j6 = j5 + nr;
    let j7: u128 = if wi >= 4 {
        j6 as u128 + 4
    } else {
        j6 as u128
    };
    let wend128: u128 = j7 + add_len64 as u128 + inst_len64 as u128 + addr_len64 as u128;
    if wend128 > n as u128 {
        return Err(PatchError::UnexpectedEof("window sections exceed the patch"));
    }
    if delta_len64 as u128 != wend128 - j0 as u128 {
        return Err(PatchError::InvalidFormat("delta length differs from the window encoding"));
    }
    if target.len() as u128 + tw64 as u128 > MAX_TARGET_SIZE as u128 {
        return Err(PatchError::ResourceLimit);
    }
    let tw = tw64 as usize;
    let d0 = j7 as usize;
    let add_len = add_len64 as usize;
    let inst_len = inst_len64 as usize;
    let addr_len = addr_len64 as usize;
    let i0 = d0 + add_len;
    let a0 = i0 + inst_len;
    let wend = a0 + addr_len;
    let ghost data = patch@.subrange(d0 as int, i0 as int);
    let ghost instsec = patch@.subrange(i0 as int, a0 as int);
    let ghost addr_sec = patch@.subrange(a0 as int, a0 as int + addr_len as int);
    let ghost w = xd_instrs(data, instsec, addr_sec, srcseg@, tw as int, xd_init_state());
    let ghost target0 = target@;
    let mut out: Vec<u8> = Vec::new();
    let mut cache = AddressCache::new(4, 3);
    let mut dp: usize = 0;
    let mut ip: usize = 0;
    let mut ap: usize = 0;
    proof {
        assert(out@ =~= Seq::<u8>::empty());
        assert(st_of(0, 0, 0, out@, cache) == xd_init_state());
        assert(xd_windows(patch@, i as int, src@, target0) == xd_after_instrs(
            patch@,
            wend as int,
            src@,
            target0,
            wi,
            j6 as int,
            w,
        ));
    }
    while ip < inst_len
        invariant
            dp <= add_len,
            ip <= inst_len,
            ap <= addr_len,
            out@.len() <= tw,
            tw <= MAX_TARGET_SIZE,
            i0 == d0 + add_len,
            a0 == i0 + inst_len,
            a0 + addr_len <= patch@.len(),
            cache.wf(),
            cache.spec_near_size() == 4,
            cache.spec_same_size() == 3,
            data == patch@.subrange(d0 as int, i0 as int),
            instsec == patch@.subrange(i0 as int, a0 as int),
            addr_sec == patch@.subrange(a0 as int, a0 as int + addr_len as int),
            xd_instrs(
                data,
                instsec,
                addr_sec,
                srcseg@,
                tw as int,
                st_of(dp as int, ip as int, ap as int, out@, cache),
            ) == w,
            target@ == target0,
            xd_windows(patch@, i as int, src@, target0) == xd_after_instrs(
                patch@,
                wend as int,
                src@,
                target0,
                wi,
                j6 as int,
                w,
            ),
        decreases inst_len - ip,
    {
        let ghost st_loop = st_of(dp as int, ip as int, ap as int, out@, cache);
        let op = patch[i0 + ip];
        proof {
            assert(instsec[ip as int] == patch@[i0 as int + ip as int]);
        }
        let pair = code_entry(op);
        ip = ip + 1;
        let ghost st1 = st_of(dp as int, ip as int, ap as int, out@, cache);
        match xd_half_exec(
            pair.0,
            patch,
            d0,
            add_len,
            i0,
            inst_len,
            a0,
            addr_len,
            srcseg.as_slice(),
            tw,
            &mut dp,
            &mut ip,
            &mut ap,
            &mut out,
            &mut cache,
        ) {
            Ok(()) => {},
            Err(e) => {
                return Err(e);
            },
        }
        let ghost st2 = st_of(dp as int, ip as int, ap as int, out@, cache);
        match xd_half_exec(
            pair.1,
            patch,
            d0,
            add_len,
            i0,
            inst_len,
            a0,
            addr_len,
            srcseg.as_slice(),
            tw,
            &mut dp,
            &mut ip,
            &mut ap,
            &mut out,
            &mut cache,
        ) {
            Ok(()) => {},
            Err(e) => {
                return Err(e);
            },
        }
        let ghost st3 = st_of(dp as int, ip as int, ap as int, out@, cache);
        proof {
            assert(xd_half(pair.0, data, instsec, addr_sec, srcseg@, tw as int, st1)
                == Ok::<XdState, ErrKind>(st2));
            assert(xd_half(pair.1, data, instsec, addr_sec, srcseg@, tw as int, st2)
                == Ok::<XdState, ErrKind>(st3));
        }
    }
    if out.len() != tw {
        return Err(PatchError::InvalidFormat("window output differs from its declared length"));
    }
    if wi >= 4 {
        let declared = (patch[j6] as u32) * 0x1000000 + (patch[j6 + 1] as u32) * 0x10000 + (patch[j6
            + 2] as u32) * 0x100 + (patch[j6 + 3] as u32);
        let got = crate::adler32::adler32(out.as_slice());
        if got != declared {
            return Err(PatchError::ChecksumMismatch {
                expected: crate::buf::u32_le_vec(declared),
                actual: crate::buf::u32_le_vec(got),
            });
        }
    }
    let ghost target0 = target@;
    let ghost outv = out@;
    target.append(&mut out);
    proof {
        assert(target@ == target0 + outv);
    }
    Ok(wend)
}


/// A finished window has exactly its declared length.
proof fn lemma_xd_instrs_len(
    data: Seq<u8>,
    inst: Seq<u8>,
    addr_sec: Seq<u8>,
    srcseg: Seq<u8>,
    tgt_len: int,
    st: XdState,
)
    ensures
        xd_instrs(data, inst, addr_sec, srcseg, tgt_len, st) matches Ok(out) ==> out.len()
            == tgt_len,
    decreases inst.len() - st.ip,
{
    if st.ip < 0 {
    } else if st.ip >= inst.len() {
    } else {
        let pair = spec_code_entry(inst[st.ip] as int);
        let st1 = XdState {
            dp: st.dp,
            ip: st.ip + 1,
            ap: st.ap,
            out: st.out,
            near: st.near,
            slot: st.slot,
            same: st.same,
        };
        match xd_half(pair.0, data, inst, addr_sec, srcseg, tgt_len, st1) {
            Err(_) => {},
            Ok(st2) => match xd_half(pair.1, data, inst, addr_sec, srcseg, tgt_len, st2) {
                Err(_) => {},
                Ok(st3) => {
                    let ipn: int = if st3.ip < st.ip + 1 {
                        st.ip + 1
                    } else if st3.ip > inst.len() {
                        inst.len() as int
                    } else {
                        st3.ip
                    };
                    lemma_xd_instrs_len(
                        data,
                        inst,
                        addr_sec,
                        srcseg,
                        tgt_len,
                        XdState {
                            dp: st3.dp,
                            ip: ipn,
                            ap: st3.ap,
                            out: st3.out,
                            near: st3.near,
                            slot: st3.slot,
                            same: st3.same,
                        },
                    );
                },
            },
        }
    }
}

/// A window sequence that decodes in full also passes the structural
/// walk: every frame is well shaped and the size ceiling holds.
pub proof fn lemma_xd_windows_walk(patch: Seq<u8>, i: int, src: Seq<u8>, target: Seq<u8>)
    ensures
        xd_windows(patch, i, src, target) is Ok ==> xd_walk(patch, i, target.len() as nat) is Ok,
    decreases patch.len() - i,
{
    if i < 0 || i >= patch.len() {
    } else {
        let wi = patch[i];
        if wi >= 8 || wi % 4 == 3 {
        } else {
            let segr: Result<(Seq<u8>, int), ErrKind> = if wi % 4 == 0 {
                Ok((Seq::<u8>::empty(), i + 1))
            } else {
                match spec_vcdiff_varint(patch.skip(i + 1)) {
                    Err(k) => Err(k),
                    Ok((slen, n1)) => match spec_vcdiff_varint(patch.skip(i + 1 + n1 as int)) {
                        Err(k) => Err(k),
                        Ok((spos, n2)) => {
                            let base = if wi % 4 == 1 {
                                src
                            } else {
                                target
                            };
                            if spos + slen > base.len() {
                                Err(ErrKind::OutOfBounds)
                            } else {
                                Ok(
                                    (
                                        base.subrange(spos as int, spos as int + slen as int),
                                        i + 1 + n1 as int + n2 as int,
                                    ),
                                )
                            }
                        },
                    },
                }
            };
            match segr {
                Err(_) => {},
                Ok((srcseg, j0)) => match spec_vcdiff_varint(patch.skip(j0)) {
                    Err(_) => {},
                    Ok((delta_len, ndl)) => {
                        let j1 = j0 + ndl as int;
                        match spec_vcdiff_varint(patch.skip(j1)) {
                            Err(_) => {},
                            Ok((tw, ntw)) => {
                                let j2 = j1 + ntw as int;
                                if j2 < patch.len() && patch[j2] == 0 {
                                    let j3 = j2 + 1;
                                    match spec_vcdiff_varint(patch.skip(j3)) {
                                        Err(_) => {},
                                        Ok((add_len, na)) => {
                                            let j4 = j3 + na as int;
                                            match spec_vcdiff_varint(patch.skip(j4)) {
                                                Err(_) => {},
                                                Ok((inst_len, ni)) => {
                                                    let j5 = j4 + ni as int;
                                                    match spec_vcdiff_varint(patch.skip(j5)) {
                                                        Err(_) => {},
                                                        Ok((addr_len, nr)) => {
                                                            let j6 = j5 + nr as int;
                                                            let j7: int = if wi >= 4 {
                                                                j6 + 4
                                                            } else {
                                                                j6
                                                            };
                                                            let d0 = j7;
                                                            let i0 = d0 + add_len as int;
                                                            let a0 = i0 + inst_len as int;
                                                            let wend = a0 + addr_len as int;
                                                            if wend <= patch.len() && delta_len
                                                                as int == wend - j0 && target.len()
                                                                + tw <= MAX_TARGET_SIZE as nat {
                                                                match xd_instrs(
                                                                    patch.subrange(d0, i0),
                                                                    patch.subrange(i0, a0),
                                                                    patch.subrange(a0, wend),
                                                                    srcseg,
                                                                    tw as int,
                                                                    xd_init_state(),
                                                                ) {
                                                                    Err(_) => {},
                                                                    Ok(out) => {
                                                                        lemma_xd_instrs_len(
                                                                            patch.subrange(d0, i0),
                                                                            patch.subrange(i0, a0),
                                                                            patch.subrange(a0, wend),
                                                                            srcseg,
                                                                            tw as int,
                                                                            xd_init_state(),
                                                                        );
                                                                        lemma_xd_windows_walk(
                                                                            patch,
                                                                            wend,
                                                                            src,
                                                                            target + out,
                                                                        );
                                                                    },
                                                                }
                                                            }
                                                        },
                                                    }
                                                },
                                            }
                                        },
                                    }
                                }
                            },
                        }
                    },
                },
            }
        }
    }
}

/// A patch that applies in full to some source also validates: every
/// applied failure mode the walk checks is absent.
pub proof fn lemma_xdelta_apply_validates(src: Seq<u8>, patch: Seq<u8>)
    ensures
        spec_xdelta_apply(src, patch) is Ok ==> spec_xdelta_validate(patch) is Ok,
{
    if spec_xdelta_can(patch) && patch.len() >= 5 && patch[3] == 0 {
        let hdr = patch[4];
        if !(hdr % 2 == 1 || (hdr / 2) % 2 == 1) && hdr < 8 {
            if (hdr / 4) % 2 == 1 {
                match spec_vcdiff_varint(patch.skip(5)) {
                    Err(_) => {},
                    Ok((alen, nb)) => {
                        if 5 + nb as int + alen as int <= patch.len() {
                            lemma_xd_windows_walk(
                                patch,
                                5 + nb as int + alen as int,
                                src,
                                Seq::<u8>::empty(),
                            );
                        }
                    },
                }
            } else {
                lemma_xd_windows_walk(patch, 5, src, Seq::<u8>::empty());
            }
        }
    }
}

/// xdelta format decoder.
pub struct XdeltaPatcher;

impl XdeltaPatcher {
    /// The byte-prefix test for the VCDIFF magic; never fails.
    pub fn can_handle(data: &[u8]) -> (r: bool)
        ensures
            r == spec_xdelta_can(data@),
    {
        data.len() >= 3 && data[0] == 0xD6 && data[1] == 0xC3 && data[2] == 0xC4
    }

    /// Applies `patch` to `rom`, replacing it with the concatenation of
    /// all decoded windows; on error the image is left unchanged.
    pub fn apply(&self, rom: &mut Vec<u8>, patch: &[u8]) -> (r: Result<(), PatchError>)
        ensures
            match r {
                Ok(()) => spec_xdelta_apply(old(rom)@, patch@) matches Ok(t) && final(rom)@ == t,
                Err(e) => spec_xdelta_apply(old(rom)@, patch@) matches Err(k) && k == e.kind()
                    && final(rom)@ == old(rom)@,
            },
    {
        let n = patch.len();
        if !Self::can_handle(patch) {
            return Err(PatchError::InvalidMagic {
                expected: vec![0xD6, 0xC3, 0xC4],
                actual: prefix_vec(patch, 3),
            });
        }
        if n < 5 {
            return Err(PatchError::UnexpectedEof("patch truncated in its header"));
        }
        if patch[3] != 0 {
            return Err(PatchError::InvalidFormat("unsupported VCDIFF version"));
        }
        let hdr = patch[4];
        if hdr % 2 == 1 || (hdr / 2) % 2 == 1 {
            return Err(PatchError::NotSupported);
        }
        if hdr >= 8 {
            return Err(PatchError::InvalidFormat("unknown header indicator bits"));
        }
        let mut i: usize = 5;
        if (hdr / 4) % 2 == 1 {
            proof {
                assert(patch@.subrange(5, n as int) =~= patch@.skip(5));
            }
            let (alen, nb) = match decode(&patch[5..n]) {
                Ok(t) => t,
                Err(e) => {
                    return Err(e);
                },
            };
            if 5 + nb as u128 + alen as u128 > n as u128 {
                return Err(PatchError::UnexpectedEof("application data exceeds the patch"));
            }
            i = 5 + nb + alen as usize;
        }
        let src = rom.as_slice();
        let mut target: Vec<u8> = Vec::new();
        proof {
            assert(target@ =~= Seq::<u8>::empty());
        }
        let ghost r0 = xd_windows(patch@, i as int, src@, target@);
        while i < n
            invariant
                i <= n,
                n == patch@.len(),
                src@ == old(rom)@,
                xd_windows(patch@, i as int, src@, target@) == r0,
                spec_xdelta_apply(old(rom)@, patch@) == r0,
            decreases n - i,
        {
            match xd_window_exec(patch, i, src, &mut target) {
                Ok(next) => {
                    i = next;
                },
                Err(e) => {
                    return Err(e);
                },
            }
        }
        *rom = target;
        Ok(())
    }

    /// xdelta carries no whole-image metadata beyond its kind.
    pub fn metadata(patch: &[u8]) -> (r: Result<PatchMetadata, PatchError>)
        ensures
            match r {
                Ok(m) => {
                    &&& spec_xdelta_can(patch@)
                    &&& m.patch_type == PatchType::Xdelta
                    &&& m.source_size is None
                    &&& m.target_size is None
                    &&& m.extra@.len() == 0
                },
                Err(e) => !spec_xdelta_can(patch@) && e.kind() == ErrKind::InvalidMagic,
            },
    {
        if !Self::can_handle(patch) {
            return Err(PatchError::InvalidMagic {
                expected: vec![0xD6, 0xC3, 0xC4],
                actual: prefix_vec(patch, 3),
            });
        }
        Ok(PatchMetadata::new(PatchType::Xdelta))
    }

    /// Structural walk of the header and every window frame: shapes,
    /// section lengths and the cumulative size ceiling.
    pub fn validate(patch: &[u8]) -> (r: Result<(), PatchError>)
        ensures
            match r {
                Ok(()) => spec_xdelta_validate(patch@) is Ok,
                Err(e) => spec_xdelta_validate(patch@) matches Err(k) && k == e.kind(),
            },
    {
        let n = patch.len();
        if !Self::can_handle(patch) {
            return Err(PatchError::InvalidMagic {
                expected: vec![0xD6, 0xC3, 0xC4],
                actual: prefix_vec(patch, 3),
            });
        }
        if n < 5 {
            return Err(PatchError::UnexpectedEof("patch truncated in its header"));
        }
        if patch[3] != 0 {
            return Err(PatchError::InvalidFormat("unsupported VCDIFF version"));
        }
        let hdr = patch[4];
        if hdr % 2 == 1 || (hdr / 2) % 2 == 1 {
            return Err(PatchError::NotSupported);
        }
        if hdr >= 8 {
            return Err(PatchError::InvalidFormat("unknown header indicator bits"));
        }
        let mut i: usize = 5;
        if (hdr / 4) % 2 == 1 {
            proof {
                assert(patch@.subrange(5, n as int) =~= patch@.skip(5));
            }
            let (alen, nb) = match decode(&patch[5..n]) {
                Ok(t) => t,
                Err(e) => {
                    return Err(e);
                },
            };
            if 5 + nb as u128 + alen as u128 > n as u128 {
                return Err(PatchError::UnexpectedEof("application data exceeds the patch"));
            }
            i = 5 + nb + alen as usize;
        }
        let mut total: usize = 0;
        while i < n
            invariant
                i <= n,
                n == patch@.len(),
                total <= MAX_TARGET_SIZE,
                xd_walk(patch@, i as int, total as nat) == spec_xdelta_validate(patch@),
            decreases n - i,
        {
            let wi = patch[i];
            if wi >= 8 || wi % 4 == 3 {
                return Err(PatchError::InvalidFormat("unsupported window indicator"));
            }
            let mut j0: usize = i + 1;
            if wi % 4 != 0 {
                proof {
                    assert(patch@.subrange(i as int + 1, n as int) =~= patch@.skip(i as int + 1));
                }
                let (_slen, n1) = match decode(&patch[i + 1..n]) {
                    Ok(t) => t,
                    Err(e) => {
                        return Err(e);
                    },
                };
                proof {
                    assert(patch@.subrange(i as int + 1 + n1 as int, n as int) =~= patch@.skip(
                        i as int + 1 + n1 as int,
                    ));
                }
                let (_spos, n2) = match decode(&patch[i + 1 + n1..n]) {
                    Ok(t) => t,
                    Err(e) => {
                        return Err(e);
                    },
                };
                j0 = i + 1 + n1 + n2;
            }
            proof {
                assert(patch@.subrange(j0 as int, n as int) =~= patch@.skip(j0 as int));
            }
            let (delta_len64, ndl) = match decode(&patch[j0..n]) {
                Ok(t) => t,
                Err(e) => {
                    return Err(e);
                },
            };
            let j1 = j0 + ndl;
            proof {
                assert(patch@.subrange(j1 as int, n as int) =~= patch@.skip(j1 as int));
            }
            let (tw64, ntw) = match decode(&patch[j1..n]) {
                Ok(t) => t,
                Err(e) => {
                    return Err(e);
                },
            };
            let j2 = j1 + ntw;
            if j2 >= n {
                return Err(PatchError::UnexpectedEof("window truncated before its delta indicator"));
            }
            if patch[j2] != 0 {
                return Err(PatchError::NotSupported);
            }
            let j3 = j2 + 1;
            proof {
                assert(patch@.subrange(j3 as int, n as int) =~= patch@.skip(j3 as int));
            }
            let (add_len64, na) = match decode(&patch[j3..n]) {
                Ok(t) => t,
                Err(e) => {
                    return Err(e);
                },
            };
            let j4 = j3 + na;
            proof {
                assert(patch@.subrange(j4 as int, n as int) =~= patch@.skip(j4 as int));
            }
            let (inst_len64, ni) = match decode(&patch[j4..n]) {
                Ok(t) => t,
                Err(e) => {
                    return Err(e);
                },
            };
            let j5 = j4 + ni;
            proof {
                assert(patch@.subrange(j5 as int, n as int) =~= patch@.skip(j5 as int));
            }
            let (addr_len64, nr) = match decode(&patch[j5..n]) {
                Ok(t) => t,
                Err(e) => {
                    return Err(e);
                },
            };
            let j6 = j5 + nr;
            let j7: u128 = if wi >= 4 {
                j6 as u128 + 4
            } else {
                j6 as u128
            };
            let wend128: u128 = j7 + add_len64 as u128 + inst_len64 as u128 + addr_len64 as u128;
            if wend128 > n as u128 {
                return Err(PatchError::UnexpectedEof("window sections exceed the patch"));
            }
            if delta_len64 as u128 != wend128 - j0 as u128 {
                return Err(PatchError::InvalidFormat(
                    "delta length differs from the window encoding",
                ));
            }
            if total as u128 + tw64 as u128 > MAX_TARGET_SIZE as u128 {
                return Err(PatchError::ResourceLimit);
            }
            total = total + tw64 as usize;
            i = wend128 as usize;
        }
        Ok(())
    }

    /// xdelta carries no whole-image checksums (Adler-32 guards each
    /// window during `apply`); verification is not supported.
    pub fn verify(_rom: &[u8], _patch: &[u8], _target: Option<&[u8]>) -> (r: Result<
        (),
        PatchError,
    >)
        ensures
            r matches Err(e) && e.kind() == ErrKind::NotSupported,
    {
        Err(PatchError::NotSupported)
    }
}

} // verus!
