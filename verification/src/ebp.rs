//! The EBP patch format: an IPS patch with an optional JSON metadata
//! object after the `EOF` marker.
//!
//! Application and validation follow IPS exactly.  Metadata extraction
//! finds the first `{` after the record stream and scans to the matching
//! `}` at depth zero, skipping backslash-escaped characters; a missing
//! or unbalanced object is not an error, the metadata is merely absent.

use crate::buf::{slice_vec, prefix_vec};
use crate::error::{ErrKind, PatchError};
use crate::ips::{ips_scan, ips_walk, spec_ips_apply, spec_ips_can, spec_ips_validate, IpsPatcher};
use crate::strutil::{bytes_to_string_lossy, utf8_lossy};
use crate::types::{PatchMetadata, PatchType};
use vstd::prelude::*;
use vstd::string::StringExecFns;

verus! {

/// `b` starts with the shared `PATCH` magic (the detector, not the
/// codec, breaks the tie between IPS and EBP).
pub open spec fn spec_ebp_can(b: Seq<u8>) -> bool {
    spec_ips_can(b)
}

/// The first `{` at or after position `j`.
pub open spec fn find_brace(b: Seq<u8>, j: int) -> Option<int>
    decreases b.len() - j,
{
    if j < 0 || j >= b.len() {
        None
    } else if b[j] == 0x7Bu8 {
        Some(j)
    } else {
        find_brace(b, j + 1)
    }
}

/// Scan forward from `j` with `depth` open braces; a backslash skips the
/// next byte.  Returns the position just after the brace that closes
/// depth one.
pub open spec fn json_scan(b: Seq<u8>, j: int, depth: int) -> Option<int>
    decreases b.len() - j,
{
    if j < 0 || j >= b.len() {
        None
    } else if b[j] == 0x5Cu8 {
        if j + 2 <= b.len() {
            json_scan(b, j + 2, depth)
        } else {
            None
        }
    } else if b[j] == 0x7Bu8 {
        json_scan(b, j + 1, depth + 1)
    } else if b[j] == 0x7Du8 {
        if depth == 1 {
            Some(j + 1)
        } else {
            json_scan(b, j + 1, depth - 1)
        }
    } else {
        json_scan(b, j + 1, depth)
    }
}

/// The JSON object trailing the record stream that ends at `end`: its
/// start and one-past-end positions, when present and balanced.
pub open spec fn spec_ebp_json(b: Seq<u8>, end: int) -> Option<(int, int)> {
    match find_brace(b, end) {
        None => None,
        Some(s) => match json_scan(b, s, 0) {
            None => None,
            Some(e) => Some((s, e)),
        },
    }
}

/// Locate the JSON object trailing the record stream that ends at
/// `end`; returns its start and one-past-end positions.
pub fn find_json(patch: &[u8], end: usize) -> (r: Option<(usize, usize)>)
    requires
        end <= patch@.len(),
    ensures
        match r {
            Some(span) => spec_ebp_json(patch@, end as int) == Some(
                (span.0 as int, span.1 as int),
            ) && span.0 < span.1 <= patch@.len(),
            None => spec_ebp_json(patch@, end as int) is None,
        },
{
    let n = patch.len();
    let mut j: usize = end;
    let start: usize;
    loop
        invariant_except_break
            end <= j <= n,
            n == patch@.len(),
            find_brace(patch@, j as int) == find_brace(patch@, end as int),
        ensures
            find_brace(patch@, end as int) matches Some(s) && j == s && j < n,
        decreases n - j,
    {
        if j >= n {
            proof {
                assert(find_brace(patch@, j as int) is None);
            }
            return None;
        }
        if patch[j] == 0x7B {
            break;
        }
        j = j + 1;
    }
    start = j;
    let mut depth: i128 = 0;
    let stop: usize;
    loop
        invariant_except_break
            start <= j <= n,
            n == patch@.len(),
            find_brace(patch@, end as int) == Some(start as int),
            -(j as i128) <= depth <= j as i128,
            json_scan(patch@, j as int, depth as int) == json_scan(patch@, start as int, 0),
        ensures
            json_scan(patch@, start as int, 0) matches Some(e) && stop == e && start < stop <= n,
        decreases n - j,
    {
        if j >= n {
            proof {
                assert(json_scan(patch@, j as int, depth as int) is None);
            }
            return None;
        }
        let c = patch[j];
        if c == 0x5C {
            if n - j < 2 {
                return None;
            }
            j = j + 2;
        } else if c == 0x7B {
            j = j + 1;
            depth = depth + 1;
        } else if c == 0x7D {
            if depth == 1 {
                stop = j + 1;
                break;
            }
            j = j + 1;
            depth = depth - 1;
        } else {
            j = j + 1;
        }
    }
    Some((start, stop))
}

/// Check if a patch can be handled as EBP (the shared `PATCH` magic).
pub fn can_handle(patch: &[u8]) -> (r: bool)
    ensures
        r == spec_ebp_can(patch@),
{
    IpsPatcher::can_handle(patch)
}

/// Validate an EBP patch: EBP is IPS-compatible, so the IPS structural
/// walk decides.
pub fn validate(patch: &[u8]) -> (r: Result<(), PatchError>)
    ensures
        match r {
            Ok(()) => spec_ips_validate(patch@) is Ok,
            Err(e) => spec_ips_validate(patch@) matches Err(k) && k == e.kind(),
        },
{
    IpsPatcher::validate(patch)
}

/// EBP format decoder.
pub struct EbpPatcher;

impl EbpPatcher {
    /// The byte-prefix test for the shared `PATCH` magic; never fails.
    pub fn can_handle(data: &[u8]) -> (r: bool)
        ensures
            r == spec_ebp_can(data@),
    {
        IpsPatcher::can_handle(data)
    }

    /// Applies the IPS record stream of `patch` to `rom` in place.
    pub fn apply(&self, rom: &mut Vec<u8>, patch: &[u8]) -> (r: Result<(), PatchError>)
        ensures
            match r {
                Ok(()) => spec_ips_apply(old(rom)@, patch@) matches Ok(t) && final(rom)@ == t,
                Err(e) => spec_ips_apply(old(rom)@, patch@) matches Err(k) && k == e.kind(),
            },
    {
        let ips = IpsPatcher;
        ips.apply(rom, patch)
    }

    /// The trailing JSON object, verbatim, when one follows the record
    /// stream.
    pub fn metadata(patch: &[u8]) -> (r: Result<PatchMetadata, PatchError>)
        ensures
            match r {
                Ok(m) => {
                    &&& spec_ips_can(patch@)
                    &&& ips_walk(patch@, 5) matches Ok(end)
                    &&& m.patch_type == PatchType::Ebp
                    &&& (match spec_ebp_json(patch@, ips_walk(patch@, 5).unwrap()) {
                        Some(span) => m.extra@.len() == 1 && m.extra@[0].0@ == "json"@
                            && m.extra@[0].1@ == utf8_lossy(patch@.subrange(span.0, span.1)),
                        None => m.extra@.len() == 0,
                    })
                },
                Err(e) => {
                    ||| !spec_ips_can(patch@) && e.kind() == ErrKind::InvalidMagic
                    ||| spec_ips_can(patch@) && (ips_walk(patch@, 5) matches Err(k) && k
                        == e.kind())
                },
            },
    {
        if !Self::can_handle(patch) {
            return Err(PatchError::InvalidMagic {
                expected: vec![0x50, 0x41, 0x54, 0x43, 0x48],
                actual: prefix_vec(patch, 5),
            });
        }
        let end = match ips_scan(patch) {
            Ok(e) => e,
            Err(e) => {
                return Err(e);
            },
        };
        let m = PatchMetadata::new(PatchType::Ebp);
        let n = patch.len();
        // first `{` after the record stream
        let mut j: usize = end;
        let start: usize;
        loop
            invariant_except_break
                end <= j <= n,
                n == patch@.len(),
                spec_ips_can(patch@),
                ips_walk(patch@, 5) == Ok::<int, ErrKind>(end as int),
                m.patch_type == PatchType::Ebp,
                m.extra@.len() == 0,
                find_brace(patch@, j as int) == find_brace(patch@, end as int),
            ensures
                find_brace(patch@, end as int) matches Some(s) && j == s && j < n,
            decreases n - j,
        {
            if j >= n {
                proof {
                    assert(find_brace(patch@, j as int) is None);
                }
                return Ok(m);
            }
            if patch[j] == 0x7B {
                break;
            }
            j = j + 1;
        }
        start = j;
        // scan to the matching close brace
        let mut depth: i128 = 0;
        let stop: usize;
        loop
            invariant_except_break
                start <= j <= n,
                n == patch@.len(),
                spec_ips_can(patch@),
                ips_walk(patch@, 5) == Ok::<int, ErrKind>(end as int),
                m.patch_type == PatchType::Ebp,
                m.extra@.len() == 0,
                find_brace(patch@, end as int) == Some(start as int),
                -(j as i128) <= depth <= j as i128,
                json_scan(patch@, j as int, depth as int) == json_scan(patch@, start as int, 0),
            ensures
                json_scan(patch@, start as int, 0) matches Some(e) && stop == e && start < stop
                    <= n,
            decreases n - j,
        {
            if j >= n {
                proof {
                    assert(json_scan(patch@, j as int, depth as int) is None);
                }
                return Ok(m);
            }
            let c = patch[j];
            if c == 0x5C {
                if n - j < 2 {
                    return Ok(m);
                }
                j = j + 2;
            } else if c == 0x7B {
                j = j + 1;
                depth = depth + 1;
            } else if c == 0x7D {
                if depth == 1 {
                    stop = j + 1;
                    break;
                }
                j = j + 1;
                depth = depth - 1;
            } else {
                j = j + 1;
            }
        }
        let json_bytes = slice_vec(patch, start, stop);
        let text = bytes_to_string_lossy(json_bytes.as_slice());
        Ok(m.with_extra(String::from_str("json"), text))
    }

    /// Full structural walk of the IPS record stream.
    pub fn validate(patch: &[u8]) -> (r: Result<(), PatchError>)
        ensures
            match r {
                Ok(()) => spec_ips_validate(patch@) is Ok,
                Err(e) => spec_ips_validate(patch@) matches Err(k) && k == e.kind(),
            },
    {
        IpsPatcher::validate(patch)
    }
}

} // verus!
