//! The VCDIFF default code table: 256 opcodes, each standing for up to
//! two sub-instructions with embedded sizes and copy modes.

use vstd::prelude::*;

verus! {

/// Sub-instruction type: no-op.
pub const VCD_NOOP: u8 = 0;

/// Sub-instruction type: append bytes from the data section.
pub const VCD_ADD: u8 = 1;

/// Sub-instruction type: repeat one data byte.
pub const VCD_RUN: u8 = 2;

/// Sub-instruction type: copy from the source segment or the window
/// being built.
pub const VCD_COPY: u8 = 3;

/// One sub-instruction of a code-table entry.  A size of zero means the
/// size follows as a varint in the instruction stream.
#[derive(Clone, Copy, Debug, PartialEq, Eq, Structural)]
pub struct Instruction {
    pub inst_type: u8,
    pub size: u8,
    pub mode: u8,
}

/// The default code-table entry for `op`, by the fixed ranges of the
/// VCDIFF specification.
pub open spec fn spec_code_entry(op: int) -> (Instruction, Instruction) {
    let empty = Instruction { inst_type: VCD_NOOP, size: 0, mode: 0 };
    if op == 0 {
        (Instruction { inst_type: VCD_RUN, size: 0, mode: 0 }, empty)
    } else if op <= 18 {
        (Instruction { inst_type: VCD_ADD, size: (op - 1) as u8, mode: 0 }, empty)
    } else if op <= 162 {
        let j = op - 19;
        let m = j / 16;
        let s = j % 16;
        if s == 0 {
            (Instruction { inst_type: VCD_COPY, size: 0, mode: m as u8 }, empty)
        } else {
            (Instruction { inst_type: VCD_COPY, size: (s + 3) as u8, mode: m as u8 }, empty)
        }
    } else if op <= 234 {
        let j = op - 163;
        let m = j / 12;
        let a = (j % 12) / 3 + 1;
        let c = (j % 12) % 3 + 4;
        (
            Instruction { inst_type: VCD_ADD, size: a as u8, mode: 0 },
            Instruction { inst_type: VCD_COPY, size: c as u8, mode: m as u8 },
        )
    } else if op <= 246 {
        let j = op - 235;
        let m = j / 4 + 6;
        let a = j % 4 + 1;
        (
            Instruction { inst_type: VCD_ADD, size: a as u8, mode: 0 },
            Instruction { inst_type: VCD_COPY, size: 4, mode: m as u8 },
        )
    } else {
        let m = op - 247;
        (
            Instruction { inst_type: VCD_COPY, size: 4, mode: m as u8 },
            Instruction { inst_type: VCD_ADD, size: 1, mode: 0 },
        )
    }
}

/// The default code-table entry for opcode `op`.
pub fn code_entry(op: u8) -> (r: (Instruction, Instruction))
    ensures
        r == spec_code_entry(op as int),
{
    let empty = Instruction { inst_type: VCD_NOOP, size: 0, mode: 0 };
    let o = op as usize;
    if o == 0 {
        (Instruction { inst_type: VCD_RUN, size: 0, mode: 0 }, empty)
    } else if o <= 18 {
        (Instruction { inst_type: VCD_ADD, size: (o - 1) as u8, mode: 0 }, empty)
    } else if o <= 162 {
        let j = o - 19;
        let m = j / 16;
        let s = j % 16;
        if s == 0 {
            (Instruction { inst_type: VCD_COPY, size: 0, mode: m as u8 }, empty)
        } else {
            (Instruction { inst_type: VCD_COPY, size: (s + 3) as u8, mode: m as u8 }, empty)
        }
    } else if o <= 234 {
        let j = o - 163;
        let m = j / 12;
        let a = (j % 12) / 3 + 1;
        let c = (j % 12) % 3 + 4;
        (
            Instruction { inst_type: VCD_ADD, size: a as u8, mode: 0 },
            Instruction { inst_type: VCD_COPY, size: c as u8, mode: m as u8 },
        )
    } else if o <= 246 {
        let j = o - 235;
        let m = j / 4 + 6;
        let a = j % 4 + 1;
        (
            Instruction { inst_type: VCD_ADD, size: a as u8, mode: 0 },
            Instruction { inst_type: VCD_COPY, size: 4, mode: m as u8 },
        )
    } else {
        let m = o - 247;
        (
            Instruction { inst_type: VCD_COPY, size: 4, mode: m as u8 },
            Instruction { inst_type: VCD_ADD, size: 1, mode: 0 },
        )
    }
}

/// The full default code table, entry `i` for opcode `i`.
pub fn get_default_code_table() -> (r: Vec<(Instruction, Instruction)>)
    ensures
        r@.len() == 256,
        forall|i: int| 0 <= i < 256 ==> r@[i] == spec_code_entry(i),
{
    let mut table: Vec<(Instruction, Instruction)> = Vec::new();
    let mut i: usize = 0;
    while i < 256
        invariant
            i <= 256,
            table@.len() == i,
            forall|j: int| 0 <= j < i ==> table@[j] == spec_code_entry(j),
        decreases 256 - i,
    {
        table.push(code_entry(i as u8));
        i = i + 1;
    }
    table
}

} // verus!
