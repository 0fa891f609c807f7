//! Patch kinds and the metadata record every decoder can produce.

use vstd::prelude::*;

verus! {

/// Ceiling on any declared target size: a decoder refuses to allocate a
/// larger image and reports a resource-limit error instead.
pub const MAX_TARGET_SIZE: usize = 256 * 1024 * 1024;

/// The closed set of patch formats the library understands.
#[derive(Clone, Copy, Debug, PartialEq, Eq, Structural)]
pub enum PatchType {
    Ips,
    Bps,
    Ups,
    Aps,
    Ebp,
    Rup,
    Ppf,
    Xdelta,
}

impl PatchType {
    /// Stable display name of the format.
    pub fn name(&self) -> (r: &'static str)
    {
        match self {
            PatchType::Ips => "IPS",
            PatchType::Bps => "BPS",
            PatchType::Ups => "UPS",
            PatchType::Aps => "APS",
            PatchType::Ebp => "EBP",
            PatchType::Rup => "RUP",
            PatchType::Ppf => "PPF",
            PatchType::Xdelta => "xdelta",
        }
    }

    /// Conventional file extension of the format.
    pub fn extension(&self) -> (r: &'static str)
    {
        match self {
            PatchType::Ips => "ips",
            PatchType::Bps => "bps",
            PatchType::Ups => "ups",
            PatchType::Aps => "aps",
            PatchType::Ebp => "ebp",
            PatchType::Rup => "rup",
            PatchType::Ppf => "ppf",
            PatchType::Xdelta => "xdelta",
        }
    }
}

/// Header and trailer fields a decoder can report without executing the
/// diff micro-program.
#[derive(Debug)]
pub struct PatchMetadata {
    pub patch_type: PatchType,
    pub source_size: Option<usize>,
    pub target_size: Option<usize>,
    /// Declared checksum of the source image, format-specific width.
    pub source_checksum: Option<Vec<u8>>,
    /// Declared checksum of the target image, format-specific width.
    pub target_checksum: Option<Vec<u8>>,
    /// Free-form key/value pairs, in patch order.
    pub extra: Vec<(String, String)>,
}

impl PatchMetadata {
    /// An empty metadata record for the given format.
    pub fn new(patch_type: PatchType) -> (r: PatchMetadata)
        ensures
            r.patch_type == patch_type,
            r.source_size is None,
            r.target_size is None,
            r.source_checksum is None,
            r.target_checksum is None,
            r.extra@ == Seq::<(String, String)>::empty(),
    {
        PatchMetadata {
            patch_type,
            source_size: None,
            target_size: None,
            source_checksum: None,
            target_checksum: None,
            extra: Vec::new(),
        }
    }

    /// The same record with one more key/value pair appended.
    pub fn with_extra(self, key: String, value: String) -> (r: PatchMetadata)
        ensures
            r.patch_type == self.patch_type,
            r.source_size == self.source_size,
            r.target_size == self.target_size,
            r.source_checksum == self.source_checksum,
            r.target_checksum == self.target_checksum,
            r.extra@ == self.extra@.push((key, value)),
    {
        let mut m = self;
        m.extra.push((key, value));
        m
    }
}

} // verus!
