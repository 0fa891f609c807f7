//! Byte-to-text helpers for the metadata fields that patches carry.

use vstd::prelude::*;

verus! {

/// The text that lossy UTF-8 decoding assigns to a byte sequence.
pub uninterp spec fn utf8_lossy(b: Seq<u8>) -> Seq<char>;

/// Relies on `String::from_utf8_lossy`: the result depends on the bytes
/// alone (invalid sequences become replacement characters).
#[verifier::external_body]
pub fn bytes_to_string_lossy(b: &[u8]) -> (r: String)
    ensures
        r@ == utf8_lossy(b@),
{
    String::from_utf8_lossy(b).into_owned()
}

/// `b` with every trailing zero byte removed.
pub open spec fn trim_trailing_zeros(b: Seq<u8>) -> Seq<u8>
    decreases b.len(),
{
    if b.len() > 0 && b[b.len() - 1] == 0 {
        trim_trailing_zeros(b.drop_last())
    } else {
        b
    }
}

/// The end of `data[start..end]` once trailing zero bytes are dropped.
pub fn trim_zeros_end(data: &[u8], start: usize, end: usize) -> (e: usize)
    requires
        start <= end <= data@.len(),
    ensures
        start <= e <= end,
        data@.subrange(start as int, e as int) == trim_trailing_zeros(
            data@.subrange(start as int, end as int),
        ),
{
    let mut e: usize = end;
    while e > start && data[e - 1] == 0
        invariant
            start <= e <= end,
            end <= data@.len(),
            trim_trailing_zeros(data@.subrange(start as int, e as int)) == trim_trailing_zeros(
                data@.subrange(start as int, end as int),
            ),
        decreases e,
    {
        proof {
            assert(data@.subrange(start as int, e as int).drop_last() =~= data@.subrange(
                start as int,
                e as int - 1,
            ));
        }
        e = e - 1;
    }
    proof {
        assert(trim_trailing_zeros(data@.subrange(start as int, e as int)) == data@.subrange(
            start as int,
            e as int,
        ));
    }
    e
}

} // verus!
