//! Format detection over magic bytes.
//!
//! Every format is recognised by an exact byte prefix; the magics are
//! pairwise disjoint except for IPS and EBP, which share `PATCH` and are
//! told apart by the presence of a JSON object after the `EOF` marker.

use crate::aps::spec_aps_magic;
use crate::bps::spec_bps_can;
use crate::ebp::{find_json, spec_ebp_json};
use crate::ips::{ips_scan, ips_walk, spec_ips_can, IpsPatcher};
use crate::ppf::spec_ppf_can;
use crate::rup::spec_rup_can;
use crate::types::PatchType;
use crate::ups::spec_ups_can;
use crate::xdelta::spec_xdelta_can;
use vstd::prelude::*;

verus! {

/// The byte-prefix test the detector uses for each kind (IPS and EBP
/// share theirs).
pub open spec fn spec_kind_magic(k: PatchType, b: Seq<u8>) -> bool {
    match k {
        PatchType::Ips => spec_ips_can(b),
        PatchType::Ebp => spec_ips_can(b),
        PatchType::Bps => spec_bps_can(b),
        PatchType::Ups => spec_ups_can(b),
        PatchType::Aps => spec_aps_magic(b),
        PatchType::Rup => spec_rup_can(b),
        PatchType::Ppf => spec_ppf_can(b),
        PatchType::Xdelta => spec_xdelta_can(b),
    }
}

/// Detector disjointness: for any byte string, at most one magic test
/// accepts, apart from the IPS/EBP pair, which the detector tie-breaks
/// on the JSON tail.
pub proof fn lemma_detector_disjoint(b: Seq<u8>, k1: PatchType, k2: PatchType)
    requires
        k1 != k2,
        !(k1 == PatchType::Ips && k2 == PatchType::Ebp),
        !(k1 == PatchType::Ebp && k2 == PatchType::Ips),
    ensures
        !(spec_kind_magic(k1, b) && spec_kind_magic(k2, b)),
{
}

/// The detected kind of a patch prefix: exact magic match, with the
/// IPS/EBP tie broken by a balanced JSON object after the record
/// stream.
pub open spec fn spec_detect(b: Seq<u8>) -> Option<PatchType> {
    if spec_ips_can(b) {
        match ips_walk(b, 5) {
            Ok(end) => if spec_ebp_json(b, end) is Some {
                Some(PatchType::Ebp)
            } else {
                Some(PatchType::Ips)
            },
            Err(_) => Some(PatchType::Ips),
        }
    } else if spec_bps_can(b) {
        Some(PatchType::Bps)
    } else if spec_ups_can(b) {
        Some(PatchType::Ups)
    } else if spec_aps_magic(b) {
        Some(PatchType::Aps)
    } else if spec_rup_can(b) {
        Some(PatchType::Rup)
    } else if spec_ppf_can(b) {
        Some(PatchType::Ppf)
    } else if spec_xdelta_can(b) {
        Some(PatchType::Xdelta)
    } else {
        None
    }
}

/// Detect the patch format from the blob's first bytes (and, for the
/// IPS/EBP tie, its record stream and tail).
pub fn detect_format(data: &[u8]) -> (r: Option<PatchType>)
    ensures
        r == spec_detect(data@),
{
    if IpsPatcher::can_handle(data) {
        match ips_scan(data) {
            Ok(end) => match find_json(data, end) {
                Some(_) => Some(PatchType::Ebp),
                None => Some(PatchType::Ips),
            },
            Err(_) => Some(PatchType::Ips),
        }
    } else if crate::bps::BpsPatcher::can_handle(data) {
        Some(PatchType::Bps)
    } else if crate::ups::UpsPatcher::can_handle(data) {
        Some(PatchType::Ups)
    } else if data.len() >= 5 && data[0] == 0x41 && data[1] == 0x50 && data[2] == 0x53 && data[3]
        == 0x31 && data[4] == 0x30 {
        Some(PatchType::Aps)
    } else if crate::rup::RupPatcher::can_handle(data) {
        Some(PatchType::Rup)
    } else if crate::ppf::PpfPatcher::can_handle(data) {
        Some(PatchType::Ppf)
    } else if crate::xdelta::XdeltaPatcher::can_handle(data) {
        Some(PatchType::Xdelta)
    } else {
        None
    }
}

} // verus!
