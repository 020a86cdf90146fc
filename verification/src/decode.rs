//! The decoder: splitting a 16-bit instruction word into its fields.
//!
//! Decoding never fails; classifying the fields into a known operation is the
//! execution engine's job (see [`crate::semantics`]).

use vstd::prelude::*;

verus! {

/// The opcode family: bits 15-12 of the instruction word.
pub open spec fn family(op: u16) -> int {
    op as int / 0x1000
}

/// The register-X index: bits 11-8.
pub open spec fn xreg(op: u16) -> int {
    (op as int / 0x100) % 16
}

/// The register-Y index: bits 7-4.
pub open spec fn yreg(op: u16) -> int {
    (op as int / 0x10) % 16
}

/// The sub-opcode nibble (also the sprite row count of `DRW`): bits 3-0.
pub open spec fn subop(op: u16) -> int {
    op as int % 16
}

/// The 8-bit immediate: the low byte of the word.
pub open spec fn imm(op: u16) -> u8 {
    (op as int % 0x100) as u8
}

/// The 12-bit address: the low 12 bits of the word.
pub open spec fn addr(op: u16) -> u16 {
    (op as int % 0x1000) as u16
}

/// The instruction word formed by a big-endian pair of bytes.
pub open spec fn word(hi: u8, lo: u8) -> u16 {
    (hi as int * 0x100 + lo as int) as u16
}

/// The fields of one instruction word.
pub struct Fields {
    /// Opcode family nibble.
    pub family: u16,
    /// Register-X index.
    pub x: usize,
    /// Register-Y index.
    pub y: usize,
    /// Sub-opcode nibble / 4-bit count.
    pub n: usize,
    /// 8-bit immediate.
    pub kk: u8,
    /// 12-bit address.
    pub nnn: u16,
}

/// Extracts every field of an instruction word.
pub fn decode(op: u16) -> (f: Fields)
    ensures
        f.family == family(op),
        f.x == xreg(op),
        f.y == yreg(op),
        f.n == subop(op),
        f.kk == imm(op),
        f.nnn == addr(op),
        f.family < 16,
        f.x < 16,
        f.y < 16,
        f.n < 16,
        f.nnn < 0x1000,
{
    proof {
        assert((op >> 12) == op / 0x1000 && (op >> 12) < 16) by (bit_vector);
        assert(((op >> 8) & 0xF) == (op / 0x100) % 16) by (bit_vector);
        assert(((op >> 4) & 0xF) == (op / 0x10) % 16) by (bit_vector);
        assert((op & 0xF) == op % 16) by (bit_vector);
        assert((op & 0xFF) == op % 0x100 && (op & 0xFF) < 0x100) by (bit_vector);
        assert((op & 0xFFF) == op % 0x1000 && (op & 0xFFF) < 0x1000) by (bit_vector);
    }
    Fields {
        family: op >> 12,
        x: ((op >> 8) & 0xF) as usize,
        y: ((op >> 4) & 0xF) as usize,
        n: (op & 0xF) as usize,
        kk: (op & 0xFF) as u8,
        nnn: op & 0xFFF,
    }
}

/// Combines a big-endian pair of bytes into one instruction word.
pub fn combine(hi: u8, lo: u8) -> (op: u16)
    ensures
        op == word(hi, lo),
{
    proof {
        assert(((hi as u16) << 8) | (lo as u16) == hi as int * 0x100 + lo as int) by (bit_vector);
    }
    ((hi as u16) << 8) | (lo as u16)
}

} // verus!
