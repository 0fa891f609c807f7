//! Dispatch of a patch application to the decoder of its kind.

use crate::aps::{spec_aps_apply, ApsPatcher};
use crate::bps::{spec_bps_apply, BpsPatcher};
use crate::ebp::EbpPatcher;
use crate::error::PatchError;
use crate::ips::{spec_ips_apply, IpsPatcher};
use crate::ppf::{spec_ppf_apply, PpfPatcher};
use crate::rup::{spec_rup_apply, RupPatcher};
use crate::types::PatchType;
use crate::ups::{spec_ups_apply, UpsPatcher};
use crate::xdelta::{spec_xdelta_apply, XdeltaPatcher};
use vstd::prelude::*;

verus! {

/// Apply `patch` to `rom` with the decoder for `patch_type`; an
/// exhaustive match, so no kind can be left unhandled.
pub fn apply_patch(rom: &mut Vec<u8>, patch: &[u8], patch_type: &PatchType) -> (r: Result<
    (),
    PatchError,
>)
    ensures
        patch_type == PatchType::Ips || patch_type == PatchType::Ebp ==> (match r {
            Ok(()) => spec_ips_apply(old(rom)@, patch@) matches Ok(t) && final(rom)@ == t,
            Err(e) => spec_ips_apply(old(rom)@, patch@) matches Err(k) && k == e.kind(),
        }),
        patch_type == PatchType::Bps ==> (match r {
            Ok(()) => spec_bps_apply(old(rom)@, patch@) matches Ok(t) && final(rom)@ == t,
            Err(e) => spec_bps_apply(old(rom)@, patch@) matches Err(k) && k == e.kind(),
        }),
        patch_type == PatchType::Ups ==> (match r {
            Ok(()) => spec_ups_apply(old(rom)@, patch@) matches Ok(t) && final(rom)@ == t,
            Err(e) => spec_ups_apply(old(rom)@, patch@) matches Err(k) && k == e.kind(),
        }),
        patch_type == PatchType::Aps ==> (match r {
            Ok(()) => spec_aps_apply(old(rom)@, patch@) matches Ok(t) && final(rom)@ == t,
            Err(e) => spec_aps_apply(old(rom)@, patch@) matches Err(k) && k == e.kind(),
        }),
        patch_type == PatchType::Rup ==> (match r {
            Ok(()) => spec_rup_apply(old(rom)@, patch@) matches Ok(t) && final(rom)@ == t,
            Err(e) => spec_rup_apply(old(rom)@, patch@) matches Err(k) && k == e.kind(),
        }),
        patch_type == PatchType::Ppf ==> (match r {
            Ok(()) => spec_ppf_apply(old(rom)@, patch@) matches Ok(t) && final(rom)@ == t,
            Err(e) => spec_ppf_apply(old(rom)@, patch@) matches Err(k) && k == e.kind(),
        }),
        patch_type == PatchType::Xdelta ==> (match r {
            Ok(()) => spec_xdelta_apply(old(rom)@, patch@) matches Ok(t) && final(rom)@ == t,
            Err(e) => spec_xdelta_apply(old(rom)@, patch@) matches Err(k) && k == e.kind(),
        }),
{
    match patch_type {
        PatchType::Ips => {
            let patcher = IpsPatcher;
            patcher.apply(rom, patch)
        },
        PatchType::Bps => {
            let patcher = BpsPatcher;
            patcher.apply(rom, patch)
        },
        PatchType::Ups => {
            let patcher = UpsPatcher;
            patcher.apply(rom, patch)
        },
        PatchType::Aps => {
            let patcher = ApsPatcher;
            patcher.apply(rom, patch)
        },
        PatchType::Ebp => {
            let patcher = EbpPatcher;
            patcher.apply(rom, patch)
        },
        PatchType::Rup => {
            let patcher = RupPatcher;
            patcher.apply(rom, patch)
        },
        PatchType::Ppf => {
            let patcher = PpfPatcher;
            patcher.apply(rom, patch)
        },
        PatchType::Xdelta => {
            let patcher = XdeltaPatcher;
            patcher.apply(rom, patch)
        },
    }
}

} // verus!
