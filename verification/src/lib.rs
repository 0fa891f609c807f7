//! Verified core of a ROM-patching library.
//!
//! The crate turns a source ROM image and a patch blob into a target ROM
//! image.  It covers format detection over magic bytes, one decoder per
//! patch format (IPS, EBP, APS-N64, UPS, BPS, RUP, PPF, xdelta/VCDIFF),
//! and the shared primitives the decoders rest on: CRC-32, MD5, Adler-32
//! and the three variable-length integer encodings.
//!
//! Every decoder is specified against a mathematical interpreter over byte
//! sequences; `apply`, `validate`, `metadata` and `verify` state their
//! results in terms of those interpreters.

use vstd::prelude::*;

pub mod adler32;
pub mod aps;
pub mod bps;
pub mod buf;
pub mod crc32;
pub mod detect;
pub mod dispatch;
pub mod ebp;
pub mod error;
pub mod ips;
pub mod md5;
pub mod ppf;
pub mod ra;
pub mod rup;
pub mod strutil;
pub mod types;
pub mod ups;
pub mod varint;
pub mod xdelta;

pub use error::PatchError;
pub use types::{PatchMetadata, PatchType};
