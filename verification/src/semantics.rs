//! The mathematical model of the machine and the meaning of every
//! instruction.
//!
//! [`exec_spec`] maps a pre-state, an instruction word and the byte drawn for
//! `RND` to the post-state, or to the [`Fault`] the word raises.  A faulting
//! word leaves the state unchanged.  [`step_spec`] adds the fetch: it reads
//! the word at the program counter and applies [`exec_spec`].

use crate::decode::{addr, family, imm, subop, word, xreg, yreg};
use crate::fault::Fault;
use vstd::prelude::*;

verus! {

/// The model of the whole machine state: the register file, both timers, the
/// call stack, the 4096-byte memory and the 64 x 32 framebuffer (row-major,
/// one boolean per cell), plus the 16-entry keypad that an external input
/// collaborator writes.
#[verifier::ext_equal]
pub ghost struct State {
    /// Program counter.
    pub pc: u16,
    /// The 16 general registers; the last one doubles as the flag register.
    pub reg: Seq<u8>,
    /// Index register.
    pub vi: u16,
    /// Delay timer.
    pub dt: u8,
    /// Sound timer.
    pub st: u8,
    /// Call stack of return addresses, last-in-first-out.
    pub stack: Seq<u16>,
    /// Flat byte store, addresses 0x000 to 0xFFF.
    pub mem: Seq<u8>,
    /// Framebuffer cells, row-major: cell (row, col) is at `row * 64 + col`.
    pub vram: Seq<bool>,
    /// Keypad state, one boolean per key.
    pub key: Seq<bool>,
}

impl State {
    /// Every buffer has its fixed size.
    pub open spec fn wf(self) -> bool {
        &&& self.reg.len() == 16
        &&& self.mem.len() == 4096
        &&& self.vram.len() == 2048
        &&& self.key.len() == 16
    }
}

/// The state after the program counter advances over one instruction word
/// (by two, modulo 2^16).
pub open spec fn advanced(s: State) -> State {
    State { pc: (((s.pc + 2) % 0x10000) as u16), ..s }
}

/// A framebuffer with every cell off.
pub open spec fn all_off() -> Seq<bool> {
    Seq::new(2048, |i: int| false)
}

/// Bit `dx` of a sprite row byte, counted with the most significant bit
/// leftmost: column offset 0 is bit 7.
pub open spec fn sprite_bit(b: u8, dx: int) -> bool {
    (b >> ((7 - dx) as u8)) & 1 == 1
}

/// The framebuffer after drawing an `n`-row sprite read from memory at the
/// index register, with top-left corner at column `x`, row `y`.  Coordinates
/// wrap modulo the grid size.  Each covered cell is overwritten with its
/// sprite bit; no cell is combined with its prior value.
pub open spec fn drawn_vram(s: State, x: u8, y: u8, n: int) -> Seq<bool> {
    Seq::new(2048, |i: int| {
        let r = i / 64;
        let c = i % 64;
        let dy = (r - (y as int % 32)) % 32;
        let dx = (c - (x as int % 64)) % 64;
        if dy < n && dx < 8 {
            sprite_bit(s.mem[s.vi + dy], dx)
        } else {
            s.vram[i]
        }
    })
}

/// Memory after the block store `LD [I],Vx`: registers 0 through `x` placed
/// at consecutive addresses from the index register on.
pub open spec fn block_stored(mem: Seq<u8>, reg: Seq<u8>, vi: int, x: int) -> Seq<u8> {
    Seq::new(4096, |i: int| if vi <= i <= vi + x { reg[i - vi] } else { mem[i] })
}

/// Registers after the block load `LD Vx,[I]`: registers 0 through `x` read
/// from consecutive addresses from the index register on, the rest unchanged.
pub open spec fn block_loaded(reg: Seq<u8>, mem: Seq<u8>, vi: int, x: int) -> Seq<u8> {
    Seq::new(16, |i: int| if i <= x { mem[vi + i] } else { reg[i] })
}

/// Memory after the BCD store `LD B,Vx`: the hundreds, tens and ones decimal
/// digits of `v` at the index register and the two following addresses.
pub open spec fn bcd_stored(mem: Seq<u8>, vi: int, v: u8) -> Seq<u8> {
    mem.update(vi, v / 100).update(vi + 1, (v / 10) % 10).update(vi + 2, v % 10)
}

/// The arithmetic/logic family (`8xyn`), dispatched on the sub-opcode.
/// Where an operation writes both a result register and the flag register,
/// the writes land in the order the machine performs them, so an operand
/// naming register 15 sees the earlier write.
pub open spec fn alu_spec(s: State, x: int, y: int, n: int) -> Result<State, Fault> {
    if n == 0x0 {
        Ok(State { reg: s.reg.update(x, s.reg[y]), ..s })
    } else if n == 0x1 {
        Ok(State { reg: s.reg.update(x, s.reg[x] | s.reg[y]), ..s })
    } else if n == 0x2 {
        Ok(State { reg: s.reg.update(x, s.reg[x] & s.reg[y]), ..s })
    } else if n == 0x3 {
        Ok(State { reg: s.reg.update(x, s.reg[x] ^ s.reg[y]), ..s })
    } else if n == 0x4 {
        let sum = s.reg[x] + s.reg[y];
        let flag: u8 = if sum > 255 { 1 } else { 0 };
        Ok(State { reg: s.reg.update(x, ((sum % 256) as u8)).update(15, flag), ..s })
    } else if n == 0x5 {
        let diff = s.reg[x] - s.reg[y];
        let flag: u8 = if diff >= 0 { 1 } else { 0 };
        let val = if diff >= 0 { diff } else { diff + 256 };
        Ok(State { reg: s.reg.update(x, (val as u8)).update(15, flag), ..s })
    } else if n == 0x6 {
        let r1 = s.reg.update(15, s.reg[y] % 2);
        Ok(State { reg: r1.update(x, r1[y] / 2), ..s })
    } else if n == 0x7 {
        let diff = s.reg[y] - s.reg[x];
        let flag: u8 = if diff >= 0 { 1 } else { 0 };
        let val = if diff >= 0 { diff } else { diff + 256 };
        Ok(State { reg: s.reg.update(x, (val as u8)).update(15, flag), ..s })
    } else if n == 0xE {
        let r1 = s.reg.update(15, s.reg[y] / 128);
        Ok(State { reg: r1.update(x, (((r1[y] * 2) % 256) as u8)), ..s })
    } else {
        Err(Fault::UnrecognizedInstruction)
    }
}

/// The `Fxkk` family (timers, index arithmetic, BCD and block transfers),
/// dispatched on the immediate byte.
pub open spec fn fx_spec(s: State, x: int, kk: u8) -> Result<State, Fault> {
    if kk == 0x07 {
        Ok(State { reg: s.reg.update(x, s.dt), ..s })
    } else if kk == 0x15 {
        Ok(State { dt: s.reg[x], ..s })
    } else if kk == 0x18 {
        Ok(State { st: s.reg[x], ..s })
    } else if kk == 0x1E {
        Ok(State { vi: (((s.vi + s.reg[x]) % 0x10000) as u16), ..s })
    } else if kk == 0x33 {
        if s.vi + 3 > 4096 {
            Err(Fault::OutOfBoundsAccess { addr: s.vi })
        } else {
            Ok(State { mem: bcd_stored(s.mem, s.vi as int, s.reg[x]), ..s })
        }
    } else if kk == 0x55 {
        if s.vi + x + 1 > 4096 {
            Err(Fault::OutOfBoundsAccess { addr: s.vi })
        } else {
            Ok(State { mem: block_stored(s.mem, s.reg, s.vi as int, x), ..s })
        }
    } else if kk == 0x65 {
        if s.vi + x + 1 > 4096 {
            Err(Fault::OutOfBoundsAccess { addr: s.vi })
        } else {
            Ok(State { reg: block_loaded(s.reg, s.mem, s.vi as int, x), ..s })
        }
    } else {
        Err(Fault::UnrecognizedInstruction)
    }
}

/// Whether an instruction word matches some known encoding pattern.
pub open spec fn recognized(op: u16) -> bool {
    ||| op == 0x00E0
    ||| op == 0x00EE
    ||| family(op) == 0x1
    ||| family(op) == 0x2
    ||| family(op) == 0x3
    ||| family(op) == 0x4
    ||| (family(op) == 0x5 && subop(op) == 0)
    ||| family(op) == 0x6
    ||| family(op) == 0x7
    ||| (family(op) == 0x8 && (subop(op) <= 0x7 || subop(op) == 0xE))
    ||| family(op) == 0xA
    ||| family(op) == 0xC
    ||| family(op) == 0xD
    ||| (family(op) == 0xF && (imm(op) == 0x07 || imm(op) == 0x15 || imm(op) == 0x18
            || imm(op) == 0x1E || imm(op) == 0x33 || imm(op) == 0x55 || imm(op) == 0x65))
}

/// Executing one decoded instruction word against a pre-state.  The program
/// counter has already advanced past the word when the operation applies, so
/// `CALL` records, and skips start from, the address of the next sequential
/// instruction.  `rnd` is the byte the machine draws for `RND`; every other
/// operation ignores it.
pub open spec fn exec_spec(pre: State, op: u16, rnd: u8) -> Result<State, Fault> {
    let s = advanced(pre);
    let x = xreg(op);
    let y = yreg(op);
    let n = subop(op);
    let kk = imm(op);
    let nnn = addr(op);
    if op == 0x00E0 {
        Ok(State { vram: all_off(), ..s })
    } else if op == 0x00EE {
        if s.stack.len() == 0 {
            Err(Fault::StackUnderflow)
        } else {
            Ok(State { pc: s.stack.last(), stack: s.stack.drop_last(), ..s })
        }
    } else if family(op) == 0x1 {
        Ok(State { pc: nnn, ..s })
    } else if family(op) == 0x2 {
        Ok(State { pc: nnn, stack: s.stack.push(s.pc), ..s })
    } else if family(op) == 0x3 {
        Ok(if s.reg[x] == kk { advanced(s) } else { s })
    } else if family(op) == 0x4 {
        Ok(if s.reg[x] != kk { advanced(s) } else { s })
    } else if family(op) == 0x5 && n == 0 {
        Ok(if s.reg[x] == s.reg[y] { advanced(s) } else { s })
    } else if family(op) == 0x6 {
        Ok(State { reg: s.reg.update(x, kk), ..s })
    } else if family(op) == 0x7 {
        Ok(State { reg: s.reg.update(x, (((s.reg[x] + kk) % 256) as u8)), ..s })
    } else if family(op) == 0x8 {
        alu_spec(s, x, y, n)
    } else if family(op) == 0xA {
        Ok(State { vi: nnn, ..s })
    } else if family(op) == 0xC {
        Ok(State { reg: s.reg.update(x, rnd & kk), ..s })
    } else if family(op) == 0xD {
        if s.vi + n > 4096 {
            Err(Fault::OutOfBoundsAccess { addr: s.vi })
        } else {
            Ok(State { vram: drawn_vram(s, s.reg[x], s.reg[y], n), reg: s.reg.update(15, 0), ..s })
        }
    } else if family(op) == 0xF {
        fx_spec(s, x, kk)
    } else {
        Err(Fault::UnrecognizedInstruction)
    }
}

/// One full fetch-decode-execute cycle: read the big-endian word at the
/// program counter (a fault if the pair would cross the memory ceiling) and
/// execute it.
pub open spec fn step_spec(pre: State, rnd: u8) -> Result<State, Fault> {
    if pre.pc + 2 > 4096 {
        Err(Fault::OutOfBoundsAccess { addr: pre.pc })
    } else {
        exec_spec(pre, word(pre.mem[pre.pc as int], pre.mem[pre.pc as int + 1]), rnd)
    }
}

/// Memory after a program image is copied in, byte by byte, from offset
/// 0x200 on.
pub open spec fn loaded_mem(mem: Seq<u8>, rom: Seq<u8>) -> Seq<u8> {
    Seq::new(4096, |i: int| if 0x200 <= i < 0x200 + rom.len() {
        rom[i - 0x200]
    } else {
        mem[i]
    })
}

/// The textual rendering of a framebuffer: 32 lines, each of 64 cells (a
/// shaded block for an on cell, a space for an off one) closed by a newline.
pub open spec fn render(vram: Seq<bool>) -> Seq<char> {
    Seq::new(32 * 65, |i: int| {
        let c = i % 65;
        if c == 64 {
            '\n'
        } else if vram[(i / 65) * 64 + c] {
            '▓'
        } else {
            ' '
        }
    })
}

} // verus!
