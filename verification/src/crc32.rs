//! Table-driven CRC-32 over polynomial `0xEDB88320`, specified at the bit
//! level: initial state `0xFFFFFFFF`, final XOR `0xFFFFFFFF`.

use vstd::prelude::*;

verus! {

/// One step of the CRC-32 shift register: shift right, fold the dropped
/// bit back in through the polynomial.
pub open spec fn crc32_bit_step(c: u32) -> u32 {
    if c & 1 == 1 {
        (c >> 1) ^ 0xEDB88320u32
    } else {
        c >> 1
    }
}

/// `n` consecutive bit steps.
pub open spec fn crc32_bit_steps(c: u32, n: nat) -> u32
    decreases n,
{
    if n == 0 {
        c
    } else {
        crc32_bit_step(crc32_bit_steps(c, (n - 1) as nat))
    }
}

/// The lookup-table entry for byte `i`: eight bit steps applied to `i`.
pub open spec fn crc32_table_entry(i: u8) -> u32 {
    crc32_bit_steps(i as u32, 8)
}

/// Folding one data byte into the running state.
pub open spec fn crc32_update_state(state: u32, b: u8) -> u32 {
    (state >> 8) ^ crc32_table_entry(((state ^ (b as u32)) & 0xFF) as u8)
}

/// Folding a whole byte sequence into the running state.
pub open spec fn crc32_fold(state: u32, data: Seq<u8>) -> u32
    decreases data.len(),
{
    if data.len() == 0 {
        state
    } else {
        crc32_fold(crc32_update_state(state, data[0]), data.skip(1))
    }
}

/// The CRC-32 checksum of a byte sequence.
pub open spec fn spec_crc32(data: Seq<u8>) -> u32 {
    crc32_fold(0xFFFFFFFFu32, data) ^ 0xFFFFFFFFu32
}

proof fn lemma_and_ff_bound(x: u32)
    ensures
        (x & 0xFF) < 256,
{
    assert((x & 0xFF) < 256) by (bit_vector);
}

/// The CRC-32 of the empty sequence is zero.
pub proof fn lemma_crc32_empty()
    ensures
        spec_crc32(Seq::<u8>::empty()) == 0,
{
    assert(crc32_fold(0xFFFFFFFFu32, Seq::<u8>::empty()) == 0xFFFFFFFFu32);
    assert(0xFFFFFFFFu32 ^ 0xFFFFFFFFu32 == 0) by (bit_vector);
}

/// Incremental CRC-32 hasher with a precomputed 256-entry table.
pub struct Crc32Hasher {
    state: u32,
    table: Vec<u32>,
}

impl Crc32Hasher {
    /// The table holds exactly the 256 precomputed entries.
    pub closed spec fn wf(&self) -> bool {
        &&& self.table@.len() == 256
        &&& forall|j: int| 0 <= j < 256 ==> self.table@[j] == crc32_table_entry(j as u8)
    }

    /// The running shift-register state.
    pub closed spec fn spec_state(&self) -> u32 {
        self.state
    }

    /// A fresh hasher: precomputes the table, state `0xFFFFFFFF`.
    pub fn new() -> (r: Crc32Hasher)
        ensures
            r.wf(),
            r.spec_state() == 0xFFFFFFFFu32,
    {
        let mut table: Vec<u32> = Vec::new();
        let mut i: usize = 0;
        while i < 256
            invariant
                i <= 256,
                table@.len() == i,
                forall|j: int| 0 <= j < i ==> table@[j] == crc32_table_entry(j as u8),
            decreases 256 - i,
        {
            let mut crc: u32 = i as u32;
            let mut k: usize = 0;
            while k < 8
                invariant
                    k <= 8,
                    i < 256,
                    crc == crc32_bit_steps(i as u32, k as nat),
                decreases 8 - k,
            {
                crc = if crc & 1 == 1 {
                    (crc >> 1) ^ 0xEDB88320u32
                } else {
                    crc >> 1
                };
                k = k + 1;
            }
            table.push(crc);
            i = i + 1;
        }
        Crc32Hasher { state: 0xFFFFFFFF, table }
    }

    /// Folds `data` into the running state.
    pub fn update(&mut self, data: &[u8])
        requires
            old(self).wf(),
        ensures
            final(self).wf(),
            final(self).spec_state() == crc32_fold(old(self).spec_state(), data@),
    {
        let ghost start_state: u32 = self.state;
        proof {
            assert(data@.skip(0) =~= data@);
        }
        let mut idx: usize = 0;
        while idx < data.len()
            invariant
                idx <= data@.len(),
                self.wf(),
                crc32_fold(self.state, data@.skip(idx as int)) == crc32_fold(
                    start_state,
                    data@,
                ),
            decreases data@.len() - idx,
        {
            let b = data[idx];
            proof {
                lemma_and_ff_bound(self.state ^ (b as u32));
                assert(data@.skip(idx as int)[0] == data@[idx as int]);
                assert(data@.skip(idx as int).skip(1) =~= data@.skip(idx as int + 1));
            }
            let index = ((self.state ^ (b as u32)) & 0xFF) as usize;
            self.state = (self.state >> 8) ^ self.table[index];
            idx = idx + 1;
        }
    }

    /// Final XOR; consumes the hasher and returns the checksum.
    pub fn finalize(self) -> (r: u32)
        ensures
            r == self.spec_state() ^ 0xFFFFFFFFu32,
    {
        self.state ^ 0xFFFFFFFF
    }
}

impl Default for Crc32Hasher {
    fn default() -> (r: Crc32Hasher)
        ensures
            r.wf(),
            r.spec_state() == 0xFFFFFFFFu32,
    {
        Crc32Hasher::new()
    }
}

/// The CRC-32 checksum of `data`.
pub fn compute(data: &[u8]) -> (r: u32)
    ensures
        r == spec_crc32(data@),
{
    let mut hasher = Crc32Hasher::new();
    hasher.update(data);
    hasher.finalize()
}

} // verus!
