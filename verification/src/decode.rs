//! Fetching and decoding of 16-bit instruction words.
//!
//! An instruction word `W` is formed from two consecutive memory bytes,
//! big-endian: `(mem[pc] << 8) | mem[pc + 1]`. Its operand fields are fixed
//! bit ranges of `W`:
//!
//! * `x = (W & 0x0F00) >> 8` — 4-bit register index,
//! * `y = (W & 0x00F0) >> 4` — 4-bit register index,
//! * `kk = W & 0x00FF` — 8-bit immediate,
//! * `n = W & 0x000F` — 4-bit sub-opcode selector,
//! * `addr = W & 0x0FFF` — 12-bit address.

use vstd::prelude::*;

verus! {

/// A decoded instruction.
///
/// Register indices come from 4-bit fields, immediates from 8-bit fields and
/// addresses from 12-bit fields; [`Instruction::wf`] records those ranges.
#[derive(Clone, Copy, PartialEq, Eq, Structural, Debug)]
pub enum Instruction {
    /// `0x0000`: stop the run loop (an interpreter-specific sentinel).
    Halt,
    /// `0x00E0`: clear screen; no display is modeled, so no effect.
    Cls,
    /// `0x00EE`: pop a return address from the call stack into the program counter.
    Ret,
    /// `0x1nnn`: program counter := `addr`.
    Jmp(u16),
    /// `0x2nnn`: push the program counter onto the call stack, then jump to `addr`.
    Call(u16),
    /// `0x3xkk`: skip the next instruction if `registers[x] == kk`.
    SeImm(u8, u8),
    /// `0x4xkk`: skip the next instruction if `registers[x] != kk`.
    SneImm(u8, u8),
    /// `0x5xy0`: skip the next instruction if `registers[x] == registers[y]`.
    SeReg(u8, u8),
    /// `0x6xkk`: `registers[x] := kk`.
    LdImm(u8, u8),
    /// `0x7xkk`: `registers[x] := registers[x] + kk`, wrapping modulo 256.
    AddImm(u8, u8),
    /// `0x8xy0`: `registers[x] := registers[y]`.
    LdReg(u8, u8),
    /// `0x8xy1`: `registers[x] := registers[x] | registers[y]`.
    Or(u8, u8),
    /// `0x8xy2`: `registers[x] := registers[x] & registers[y]`.
    And(u8, u8),
    /// `0x8xy3`: `registers[x] := registers[x] ^ registers[y]`.
    Xor(u8, u8),
    /// `0x8xy4`: `registers[x] := registers[x] + registers[y]`, wrapping modulo 256.
    AddReg(u8, u8),
}

impl Instruction {
    /// Every operand of a decoded instruction lies within its field's range.
    pub open spec fn wf(self) -> bool {
        match self {
            Instruction::Halt => true,
            Instruction::Cls => true,
            Instruction::Ret => true,
            Instruction::Jmp(a) => a <= 0xFFF,
            Instruction::Call(a) => a <= 0xFFF,
            Instruction::SeImm(x, _) => x < 16,
            Instruction::SneImm(x, _) => x < 16,
            Instruction::SeReg(x, y) => x < 16 && y < 16,
            Instruction::LdImm(x, _) => x < 16,
            Instruction::AddImm(x, _) => x < 16,
            Instruction::LdReg(x, y) => x < 16 && y < 16,
            Instruction::Or(x, y) => x < 16 && y < 16,
            Instruction::And(x, y) => x < 16 && y < 16,
            Instruction::Xor(x, y) => x < 16 && y < 16,
            Instruction::AddReg(x, y) => x < 16 && y < 16,
        }
    }
}

/// The `x` field of an instruction word: bits 8..12.
pub open spec fn op_x(w: u16) -> u8 {
    (((w & 0x0F00) >> 8) as u8)
}

/// The `y` field of an instruction word: bits 4..8.
pub open spec fn op_y(w: u16) -> u8 {
    (((w & 0x00F0) >> 4) as u8)
}

/// The `kk` immediate of an instruction word: bits 0..8.
pub open spec fn op_kk(w: u16) -> u8 {
    ((w & 0x00FF) as u8)
}

/// The `n` sub-opcode selector of an instruction word: bits 0..4.
pub open spec fn op_n(w: u16) -> u8 {
    ((w & 0x000F) as u8)
}

/// The `addr` field of an instruction word: bits 0..12.
pub open spec fn op_addr(w: u16) -> u16 {
    w & 0x0FFF
}

/// Each operand field fits in its bit width.
pub proof fn lemma_field_ranges(w: u16)
    by (bit_vector)
    ensures
        op_x(w) < 16,
        op_y(w) < 16,
        op_n(w) < 16,
        op_addr(w) <= 0xFFF,
{
}

/// The big-endian instruction word at offset `pc` of a memory image.
pub open spec fn word_at(mem: Seq<u8>, pc: int) -> u16
    recommends
        0 <= pc,
        pc + 1 < mem.len(),
{
    ((mem[pc] as u16) << 8) | (mem[pc + 1] as u16)
}

/// What a word decodes to: an instruction of the dispatch table, or `None`
/// for any word outside the table.
pub open spec fn spec_decode(w: u16) -> Option<Instruction> {
    if w == 0x0000 {
        Some(Instruction::Halt)
    } else if w == 0x00E0 {
        Some(Instruction::Cls)
    } else if w == 0x00EE {
        Some(Instruction::Ret)
    } else {
        let hi = w >> 12;
        if hi == 0x1 {
            Some(Instruction::Jmp(op_addr(w)))
        } else if hi == 0x2 {
            Some(Instruction::Call(op_addr(w)))
        } else if hi == 0x3 {
            Some(Instruction::SeImm(op_x(w), op_kk(w)))
        } else if hi == 0x4 {
            Some(Instruction::SneImm(op_x(w), op_kk(w)))
        } else if hi == 0x5 {
            if op_n(w) == 0 {
                Some(Instruction::SeReg(op_x(w), op_y(w)))
            } else {
                None
            }
        } else if hi == 0x6 {
            Some(Instruction::LdImm(op_x(w), op_kk(w)))
        } else if hi == 0x7 {
            Some(Instruction::AddImm(op_x(w), op_kk(w)))
        } else if hi == 0x8 {
            if op_n(w) == 0 {
                Some(Instruction::LdReg(op_x(w), op_y(w)))
            } else if op_n(w) == 1 {
                Some(Instruction::Or(op_x(w), op_y(w)))
            } else if op_n(w) == 2 {
                Some(Instruction::And(op_x(w), op_y(w)))
            } else if op_n(w) == 3 {
                Some(Instruction::Xor(op_x(w), op_y(w)))
            } else if op_n(w) == 4 {
                Some(Instruction::AddReg(op_x(w), op_y(w)))
            } else {
                None
            }
        } else {
            None
        }
    }
}

/// Extract the five operand fields of an instruction word, exactly by the
/// documented bit masks: `x`, `y`, `kk`, `n`, `addr` in that order.
pub fn fields(w: u16) -> (r: (u8, u8, u8, u8, u16))
    ensures
        r.0 == ((w & 0x0F00) >> 8) as u8,
        r.1 == ((w & 0x00F0) >> 4) as u8,
        r.2 == (w & 0x00FF) as u8,
        r.3 == (w & 0x000F) as u8,
        r.4 == w & 0x0FFF,
{
    (
        ((w & 0x0F00) >> 8) as u8,
        ((w & 0x00F0) >> 4) as u8,
        (w & 0x00FF) as u8,
        (w & 0x000F) as u8,
        w & 0x0FFF,
    )
}

/// Decode an instruction word against the dispatch table.
///
/// Returns `None` exactly on the words [`spec_decode`] leaves out; a decoded
/// instruction always carries in-range operands.
pub fn decode(w: u16) -> (r: Option<Instruction>)
    ensures
        r == spec_decode(w),
        (r matches Some(i) ==> i.wf()),
{
    proof {
        lemma_field_ranges(w);
    }
    let (x, y, kk, n, addr) = fields(w);
    if w == 0x0000 {
        Some(Instruction::Halt)
    } else if w == 0x00E0 {
        Some(Instruction::Cls)
    } else if w == 0x00EE {
        Some(Instruction::Ret)
    } else {
        let hi = w >> 12;
        if hi == 0x1 {
            Some(Instruction::Jmp(addr))
        } else if hi == 0x2 {
            Some(Instruction::Call(addr))
        } else if hi == 0x3 {
            Some(Instruction::SeImm(x, kk))
        } else if hi == 0x4 {
            Some(Instruction::SneImm(x, kk))
        } else if hi == 0x5 {
            if n == 0 {
                Some(Instruction::SeReg(x, y))
            } else {
                None
            }
        } else if hi == 0x6 {
            Some(Instruction::LdImm(x, kk))
        } else if hi == 0x7 {
            Some(Instruction::AddImm(x, kk))
        } else if hi == 0x8 {
            if n == 0 {
                Some(Instruction::LdReg(x, y))
            } else if n == 1 {
                Some(Instruction::Or(x, y))
            } else if n == 2 {
                Some(Instruction::And(x, y))
            } else if n == 3 {
                Some(Instruction::Xor(x, y))
            } else if n == 4 {
                Some(Instruction::AddReg(x, y))
            } else {
                None
            }
        } else {
            None
        }
    }
}

} // verus!
