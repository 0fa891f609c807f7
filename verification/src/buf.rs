//! Byte-buffer overlay primitives shared by the record-based decoders:
//! zero-fill growth, literal writes and run-length fills, each with a
//! sequence-level specification.

use vstd::prelude::*;

verus! {

/// `rom` extended with zero bytes up to length `n` (unchanged when it is
/// already at least that long).
pub open spec fn grow_to(rom: Seq<u8>, n: int) -> Seq<u8> {
    if rom.len() >= n {
        rom
    } else {
        rom + Seq::new((n - rom.len()) as nat, |i: int| 0u8)
    }
}

/// `rom` grown to hold `[off, off + data.len())`, with `data` written
/// there.
pub open spec fn write_bytes(rom: Seq<u8>, off: int, data: Seq<u8>) -> Seq<u8> {
    let g = grow_to(rom, off + data.len());
    Seq::new(g.len(), |i: int| if off <= i < off + data.len() { data[i - off] } else { g[i] })
}

/// `rom` grown to hold `[off, off + count)`, with that range filled with
/// `val`.
pub open spec fn write_run(rom: Seq<u8>, off: int, count: int, val: u8) -> Seq<u8> {
    write_bytes(rom, off, Seq::new(count as nat, |i: int| val))
}

/// Extends `rom` with zero bytes until it is at least `n` long.
pub fn grow_to_exec(rom: &mut Vec<u8>, n: usize)
    ensures
        final(rom)@ == grow_to(old(rom)@, n as int),
        final(rom)@.len() >= n,
{
    proof {
        assert(old(rom)@.len() >= n ==> grow_to(old(rom)@, n as int) == old(rom)@);
    }
    while rom.len() < n
        invariant
            rom@.len() >= old(rom)@.len(),
            rom@.len() <= vstd::math::max(old(rom)@.len() as int, n as int),
            rom@ == grow_to(old(rom)@, rom@.len() as int),
        decreases n - rom@.len(),
    {
        let ghost pre = rom@;
        rom.push(0);
        proof {
            assert(rom@ =~= grow_to(old(rom)@, rom@.len() as int));
        }
    }
    proof {
        assert(rom@ =~= grow_to(old(rom)@, n as int));
    }
}

/// Writes `data[start..start + count]` into `rom` at `off`, growing the
/// buffer first if the write ends past its current length.
pub fn write_bytes_exec(rom: &mut Vec<u8>, off: usize, data: &[u8], start: usize, count: usize)
    requires
        start + count <= data@.len(),
        off + count <= usize::MAX,
    ensures
        final(rom)@ == write_bytes(old(rom)@, off as int, data@.subrange(
            start as int,
            start as int + count as int,
        )),
{
    let ghost chunk = data@.subrange(start as int, start as int + count as int);
    let dlen: usize = data.len();
    proof {
        assert(start + count <= dlen);
    }
    let end = off + count;
    if rom.len() < end {
        grow_to_exec(rom, end);
    }
    let ghost g = rom@;
    proof {
        assert(g == grow_to(old(rom)@, off + count));
        assert(g.len() >= off + count);
    }
    let mut k: usize = 0;
    while k < count
        invariant
            k <= count,
            off + count <= usize::MAX,
            start + count <= usize::MAX,
            off + count <= rom@.len(),
            rom@.len() == g.len(),
            start + count <= data@.len(),
            chunk == data@.subrange(start as int, start as int + count as int),
            g == grow_to(old(rom)@, off + count),
            forall|j: int|
                0 <= j < rom@.len() ==> rom@[j] == (if off <= j < off + k {
                    chunk[j - off]
                } else {
                    g[j]
                }),
        decreases count - k,
    {
        rom[off + k] = data[start + k];
        k = k + 1;
    }
    proof {
        assert(rom@ =~= write_bytes(old(rom)@, off as int, chunk));
    }
}

/// Fills `rom[off..off + count]` with `val`, growing the buffer first if
/// the run ends past its current length.
pub fn write_run_exec(rom: &mut Vec<u8>, off: usize, count: usize, val: u8)
    requires
        off + count <= usize::MAX,
    ensures
        final(rom)@ == write_run(old(rom)@, off as int, count as int, val),
{
    let ghost run = Seq::new(count as nat, |i: int| val);
    let end = off + count;
    if rom.len() < end {
        grow_to_exec(rom, end);
    }
    let ghost g = rom@;
    proof {
        assert(g == grow_to(old(rom)@, off + count));
    }
    let mut k: usize = 0;
    while k < count
        invariant
            k <= count,
            off + count <= usize::MAX,
            off + count <= rom@.len(),
            rom@.len() == g.len(),
            run == Seq::new(count as nat, |i: int| val),
            g == grow_to(old(rom)@, off + count),
            forall|j: int|
                0 <= j < rom@.len() ==> rom@[j] == (if off <= j < off + k {
                    run[j - off]
                } else {
                    g[j]
                }),
        decreases count - k,
    {
        rom[off + k] = val;
        k = k + 1;
    }
    proof {
        assert(rom@ =~= write_run(old(rom)@, off as int, count as int, val));
    }
}

/// The ROM cursor after moving `d` forward, clamped to the image length:
/// every position at the clamp is out of bounds for a write, so clamping
/// does not change which records succeed.
pub open spec fn sat_add(pos: int, d: int, len: int) -> int {
    if pos + d > len {
        len
    } else {
        pos + d
    }
}

/// The next record position: `i` advanced by `nb`, clamped to the patch
/// length (a decoded length never exceeds the bytes that remain).
pub open spec fn adv(patch: Seq<u8>, i: int, nb: nat) -> int {
    if i + nb > patch.len() {
        patch.len() as int
    } else {
        i + nb
    }
}

/// The four little-endian bytes of a 32-bit value.
pub open spec fn spec_u32_le_bytes(x: u32) -> Seq<u8> {
    seq![
        (x % 256) as u8,
        ((x / 0x100) % 256) as u8,
        ((x / 0x10000) % 256) as u8,
        ((x / 0x1000000) % 256) as u8,
    ]
}

/// The four little-endian bytes of `x`, for checksum error payloads.
pub fn u32_le_vec(x: u32) -> (r: Vec<u8>)
    ensures
        r@ == spec_u32_le_bytes(x),
{
    let mut v: Vec<u8> = Vec::new();
    v.push((x % 256) as u8);
    v.push(((x / 256) % 256) as u8);
    v.push(((x / 65536) % 256) as u8);
    v.push(((x / 16777216) % 256) as u8);
    proof {
        assert(v@ =~= spec_u32_le_bytes(x));
    }
    v
}

/// Little-endian 32-bit value at `b[i..i+4]`.
pub open spec fn spec_u32_le_at(b: Seq<u8>, i: int) -> int {
    (b[i] as int) + (b[i + 1] as int) * 0x100 + (b[i + 2] as int) * 0x10000 + (b[i + 3] as int)
        * 0x1000000
}

/// Little-endian 64-bit value at `b[i..i+8]`.
pub open spec fn spec_u64_le_at(b: Seq<u8>, i: int) -> int {
    spec_u32_le_at(b, i) + spec_u32_le_at(b, i + 4) * 0x100000000
}

/// Read a 32-bit little-endian unsigned integer at `data[i..i+4]`.
pub fn read_u32_le_at(data: &[u8], i: usize) -> (r: u32)
    requires
        i + 4 <= data@.len(),
    ensures
        r as int == spec_u32_le_at(data@, i as int),
{
    (data[i] as u32) + (data[i + 1] as u32) * 0x100 + (data[i + 2] as u32) * 0x10000 + (data[i
        + 3] as u32) * 0x1000000
}

/// Read a 64-bit little-endian unsigned integer at `data[i..i+8]`.
pub fn read_u64_le_at(data: &[u8], i: usize) -> (r: u64)
    requires
        i + 8 <= data@.len(),
    ensures
        r as int == spec_u64_le_at(data@, i as int),
{
    let n = data.len();
    proof {
        assert(i + 8 <= n);
    }
    let lo = read_u32_le_at(data, i);
    let hi = read_u32_le_at(data, i + 4);
    (lo as u64) + (hi as u64) * 0x100000000
}

/// `src` resized to exactly `n` bytes: truncated, or zero-padded at the
/// end.
pub open spec fn resize_seq(src: Seq<u8>, n: int) -> Seq<u8> {
    Seq::new(n as nat, |i: int| if i < src.len() { src[i] } else { 0u8 })
}

/// A fresh vector holding `src` resized to exactly `n` bytes.
pub fn resize_to(src: &[u8], n: usize) -> (r: Vec<u8>)
    ensures
        r@ == resize_seq(src@, n as int),
{
    let mut out: Vec<u8> = Vec::new();
    let mut k: usize = 0;
    while k < n
        invariant
            k <= n,
            out@.len() == k,
            forall|j: int| 0 <= j < k ==> out@[j] == resize_seq(src@, n as int)[j],
        decreases n - k,
    {
        if k < src.len() {
            out.push(src[k]);
        } else {
            out.push(0);
        }
        k = k + 1;
    }
    proof {
        assert(out@ =~= resize_seq(src@, n as int));
    }
    out
}

/// Appends `data[start..start + count]` to `out`.
pub fn append_range(out: &mut Vec<u8>, data: &[u8], start: usize, count: usize)
    requires
        start + count <= data@.len(),
    ensures
        final(out)@ == old(out)@ + data@.subrange(start as int, start as int + count as int),
{
    let dlen: usize = data.len();
    proof {
        assert(start + count <= dlen);
    }
    let mut k: usize = 0;
    while k < count
        invariant
            k <= count,
            start + count <= dlen,
            dlen == data@.len(),
            out@ == old(out)@ + data@.subrange(start as int, start as int + k as int),
        decreases count - k,
    {
        out.push(data[start + k]);
        proof {
            assert(out@ =~= old(out)@ + data@.subrange(start as int, start as int + k as int + 1));
        }
        k = k + 1;
    }
}

/// The bytes `data[start..end]` as a fresh vector.
pub fn slice_vec(data: &[u8], start: usize, end: usize) -> (r: Vec<u8>)
    requires
        start <= end <= data@.len(),
    ensures
        r@ == data@.subrange(start as int, end as int),
{
    let mut out: Vec<u8> = Vec::new();
    let mut k: usize = start;
    while k < end
        invariant
            start <= k <= end,
            end <= data@.len(),
            out@ == data@.subrange(start as int, k as int),
        decreases end - k,
    {
        out.push(data[k]);
        proof {
            assert(out@ =~= data@.subrange(start as int, k as int + 1));
        }
        k = k + 1;
    }
    out
}

/// The first `n` bytes of `data` as a fresh vector (fewer when `data` is
/// shorter).
pub fn prefix_vec(data: &[u8], n: usize) -> (r: Vec<u8>)
    ensures
        r@ == data@.take(vstd::math::min(n as int, data@.len() as int)),
{
    let m = if n <= data.len() {
        n
    } else {
        data.len()
    };
    let mut out: Vec<u8> = Vec::new();
    let mut k: usize = 0;
    while k < m
        invariant
            k <= m,
            m <= data@.len(),
            out@ == data@.take(k as int),
        decreases m - k,
    {
        out.push(data[k]);
        proof {
            assert(out@ =~= data@.take(k as int + 1));
        }
        k = k + 1;
    }
    proof {
        assert(out@ =~= data@.take(vstd::math::min(n as int, data@.len() as int)));
    }
    out
}

} // verus!
