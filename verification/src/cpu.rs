//! The machine itself: state, construction, program loading, the
//! fetch-decode-execute step and the textual framebuffer rendering.

use crate::decode;
use crate::decode::{subop, xreg, yreg};
use crate::fault::Fault;
use crate::font::{font_byte, glyph};
use crate::semantics::{
    advanced, bcd_stored, block_loaded, block_stored, drawn_vram, exec_spec, loaded_mem, render,
    step_spec, State,
};
use rand::Rng;
use vstd::prelude::*;

verus! {

/// Reduction modulo 2^16 of a sum of two 16-bit values, written as the
/// conditional subtraction that the wrapping operations use.
proof fn lemma_wrap_u16(a: int)
    requires
        0 <= a < 0x20000,
    ensures
        a % 0x10000 == if a < 0x10000 {
            a
        } else {
            a - 0x10000
        },
{
    if a < 0x10000 {
        vstd::arithmetic::div_mod::lemma_small_mod(a as nat, 0x10000);
    } else {
        vstd::arithmetic::div_mod::lemma_fundamental_div_mod_converse_mod(
            a,
            0x10000,
            1,
            a - 0x10000,
        );
    }
}

/// Reduction modulo 256 of a sum of two bytes, written as the conditional
/// subtraction that the wrapping operations use.
proof fn lemma_wrap_u8(a: int)
    requires
        0 <= a < 0x200,
    ensures
        a % 0x100 == if a < 0x100 {
            a
        } else {
            a - 0x100
        },
{
    if a < 0x100 {
        vstd::arithmetic::div_mod::lemma_small_mod(a as nat, 0x100);
    } else {
        vstd::arithmetic::div_mod::lemma_fundamental_div_mod_converse_mod(a, 0x100, 1, a - 0x100);
    }
}

/// Framebuffer height in cells.
pub const ROWS: usize = 32;

/// Framebuffer width in cells.
pub const COLS: usize = 64;

/// The virtual machine.  Timers and the keypad are plain fields so that an
/// external periodic driver can read and write them; the core itself never
/// decrements a timer and never reads a key.
///
/// Every contract assumes and preserves [`Cpu::wf`]: each buffer keeps its
/// fixed length.
pub struct Cpu {
    /// Program counter.
    pub pc: u16,
    /// The 16 general registers; `reg[15]` doubles as the flag register.
    pub reg: Vec<u8>,
    /// Index register.
    pub vi: u16,
    /// Delay timer.
    pub dt: u8,
    /// Sound timer.
    pub st: u8,
    /// Call stack of return addresses.
    pub stack: Vec<u16>,
    /// Flat byte store of 4096 bytes.
    pub mem: Vec<u8>,
    /// Framebuffer cells, row-major: cell (row, col) is at `row * COLS + col`.
    pub vram: Vec<bool>,
    /// Keypad state, one boolean per key.
    pub key: Vec<bool>,
}

impl View for Cpu {
    type V = State;

    open spec fn view(&self) -> State {
        State {
            pc: self.pc,
            reg: self.reg@,
            vi: self.vi,
            dt: self.dt,
            st: self.st,
            stack: self.stack@,
            mem: self.mem@,
            vram: self.vram@,
            key: self.key@,
        }
    }
}

/// Relies on `rand::thread_rng` and `rand::Rng::gen` for the byte the `RND`
/// instruction draws; the value is random, so nothing is stated of it.
#[verifier::external_body]
fn random_byte() -> u8 {
    rand::thread_rng().gen()
}

/// A vector of `n` copies of `v`.
fn filled<T: Copy>(n: usize, v: T) -> (r: Vec<T>)
    ensures
        r@ == Seq::new(n as nat, |i: int| v),
{
    let mut r: Vec<T> = Vec::new();
    while r.len() < n
        invariant
            r@.len() <= n,
            forall|i: int| 0 <= i < r@.len() ==> r@[i] == v,
        decreases n - r@.len(),
    {
        r.push(v);
    }
    proof {
        assert(r@ =~= Seq::new(n as nat, |i: int| v));
    }
    r
}

impl Cpu {
    /// Each buffer has its fixed length.
    pub open spec fn wf(&self) -> bool {
        self@.wf()
    }

    /// A fresh machine: font at the base of memory, the rest of memory, all
    /// registers, the framebuffer and the keypad zeroed, the program counter
    /// at 0x200 and the call stack empty.
    pub fn new() -> (cpu: Cpu)
        ensures
            cpu.wf(),
            cpu@.pc == 0x200,
            cpu@.vi == 0,
            cpu@.dt == 0,
            cpu@.st == 0,
            cpu@.stack == Seq::<u16>::empty(),
            forall|i: int| 0 <= i < 16 ==> cpu@.reg[i] == 0,
            forall|i: int| 0 <= i < 2048 ==> !cpu@.vram[i],
            forall|i: int| 0 <= i < 16 ==> !cpu@.key[i],
            forall|i: int| 0 <= i < 80 ==> cpu@.mem[i] == font_byte(i / 5, i % 5),
            forall|i: int| 80 <= i < 4096 ==> cpu@.mem[i] == 0,
    {
        let mut mem: Vec<u8> = Vec::new();
        let mut d: usize = 0;
        while d < 16
            invariant
                d <= 16,
                mem@.len() == 5 * d,
                forall|j: int| 0 <= j < mem@.len() ==> mem@[j] == font_byte(j / 5, j % 5),
            decreases 16 - d,
        {
            let rows = glyph(d);
            proof {
                let dd = d as int;
                vstd::arithmetic::div_mod::lemma_fundamental_div_mod_converse(5 * dd, 5, dd, 0);
                vstd::arithmetic::div_mod::lemma_fundamental_div_mod_converse(5 * dd + 1, 5, dd, 1);
                vstd::arithmetic::div_mod::lemma_fundamental_div_mod_converse(5 * dd + 2, 5, dd, 2);
                vstd::arithmetic::div_mod::lemma_fundamental_div_mod_converse(5 * dd + 3, 5, dd, 3);
                vstd::arithmetic::div_mod::lemma_fundamental_div_mod_converse(5 * dd + 4, 5, dd, 4);
            }
            mem.push(rows.0);
            mem.push(rows.1);
            mem.push(rows.2);
            mem.push(rows.3);
            mem.push(rows.4);
            d += 1;
        }
        while mem.len() < 4096
            invariant
                80 <= mem@.len() <= 4096,
                forall|j: int| 0 <= j < 80 ==> mem@[j] == font_byte(j / 5, j % 5),
                forall|j: int| 80 <= j < mem@.len() ==> mem@[j] == 0,
            decreases 4096 - mem@.len(),
        {
            mem.push(0);
        }
        Cpu {
            pc: 0x200,
            vi: 0,
            dt: 0,
            st: 0,
            reg: filled(16, 0),
            mem,
            vram: filled(2048, false),
            key: filled(16, false),
            stack: Vec::new(),
        }
    }

    /// Copies a program image into memory from offset 0x200 on.  An image
    /// that would run past the 4096-byte ceiling is refused whole, leaving
    /// the machine unchanged.
    pub fn load(&mut self, rom: &[u8]) -> (res: Result<(), Fault>)
        requires
            old(self).wf(),
        ensures
            final(self).wf(),
            rom@.len() <= 4096 - 0x200 ==> res == Ok::<(), Fault>(()) && final(self)@ == (State {
                mem: loaded_mem(old(self)@.mem, rom@),
                ..old(self)@
            }),
            rom@.len() > 4096 - 0x200 ==> res == Err::<(), Fault>(
                Fault::OutOfBoundsAccess { addr: 0x200 },
            ) && final(self)@ == old(self)@,
    {
        let ghost pre = self@;
        if rom.len() > 4096 - 0x200 {
            return Err(Fault::OutOfBoundsAccess { addr: 0x200 });
        }
        let mut k: usize = 0;
        while k < rom.len()
            invariant
                pre.wf(),
                k <= rom@.len(),
                rom@.len() <= 4096 - 0x200,
                self@ == (State { mem: self.mem@, ..pre }),
                self.mem@.len() == 4096,
                forall|i: int|
                    0 <= i < 4096 && !(0x200 <= i < 0x200 + k) ==> self.mem@[i] == pre.mem[i],
                forall|i: int| 0x200 <= i < 0x200 + k ==> self.mem@[i] == rom@[i - 0x200],
            decreases rom@.len() - k,
        {
            self.mem.set(0x200 + k, rom[k]);
            k += 1;
        }
        proof {
            assert(self.mem@ =~= loaded_mem(pre.mem, rom@));
            assert(self@ =~= (State { mem: loaded_mem(pre.mem, rom@), ..pre }));
        }
        Ok(())
    }

    /// Executes one already-fetched instruction word: the program counter
    /// advances over the word (by two, modulo 2^16) and the operation
    /// applies, exactly as [`exec_spec`] states.  A faulting word leaves the
    /// machine unchanged, whatever byte the `RND` draw would have produced.
    pub fn exec(&mut self, op: u16) -> (res: Result<(), Fault>)
        requires
            old(self).wf(),
        ensures
            final(self).wf(),
            (match res {
                Ok(()) => exists|r: u8|
                    exec_spec(old(self)@, op, r) == Ok::<State, Fault>(final(self)@),
                Err(e) => final(self)@ == old(self)@ && (forall|r: u8|
                    exec_spec(old(self)@, op, r) == Err::<State, Fault>(e)),
            }),
    {
        let ghost pre = self@;
        let d = decode::decode(op);
        let pc2 = self.pc.wrapping_add(2);
        proof {
            lemma_wrap_u16(pre.pc + 2);
            assert(pc2 == advanced(pre).pc);
        }
        if op == 0x00E0 {
            // CLS
            self.pc = pc2;
            self.vram = filled(2048, false);
            proof {
                assert(exec_spec(pre, op, 0u8)->Ok_0 =~= self@);
                assert(exec_spec(pre, op, 0u8) == Ok::<State, Fault>(self@));
            }
            Ok(())
        } else if op == 0x00EE {
            // RET
            if self.stack.len() == 0 {
                proof {
                    assert(forall|r: u8|
                        exec_spec(pre, op, r) == Err::<State, Fault>(Fault::StackUnderflow));
                }
                return Err(Fault::StackUnderflow);
            }
            let a = self.stack.pop().unwrap();
            self.pc = a;
            proof {
                assert(exec_spec(pre, op, 0u8)->Ok_0 =~= self@);
                assert(exec_spec(pre, op, 0u8) == Ok::<State, Fault>(self@));
            }
            Ok(())
        } else if d.family == 0x1 {
            // JP nnn
            self.pc = d.nnn;
            proof {
                assert(exec_spec(pre, op, 0u8)->Ok_0 =~= self@);
                assert(exec_spec(pre, op, 0u8) == Ok::<State, Fault>(self@));
            }
            Ok(())
        } else if d.family == 0x2 {
            // CALL nnn
            self.stack.push(pc2);
            self.pc = d.nnn;
            proof {
                assert(exec_spec(pre, op, 0u8)->Ok_0 =~= self@);
                assert(exec_spec(pre, op, 0u8) == Ok::<State, Fault>(self@));
            }
            Ok(())
        } else if d.family == 0x3 {
            // SE Vx, kk
            let pc4 = pc2.wrapping_add(2);
            proof {
                lemma_wrap_u16(pc2 + 2);
            }
            self.pc = if self.reg[d.x] == d.kk {
                pc4
            } else {
                pc2
            };
            proof {
                assert(exec_spec(pre, op, 0u8)->Ok_0 =~= self@);
                assert(exec_spec(pre, op, 0u8) == Ok::<State, Fault>(self@));
            }
            Ok(())
        } else if d.family == 0x4 {
            // SNE Vx, kk
            let pc4 = pc2.wrapping_add(2);
            proof {
                lemma_wrap_u16(pc2 + 2);
            }
            self.pc = if self.reg[d.x] != d.kk {
                pc4
            } else {
                pc2
            };
            proof {
                assert(exec_spec(pre, op, 0u8)->Ok_0 =~= self@);
                assert(exec_spec(pre, op, 0u8) == Ok::<State, Fault>(self@));
            }
            Ok(())
        } else if d.family == 0x5 && d.n == 0x0 {
            // SE Vx, Vy
            let pc4 = pc2.wrapping_add(2);
            proof {
                lemma_wrap_u16(pc2 + 2);
            }
            self.pc = if self.reg[d.x] == self.reg[d.y] {
                pc4
            } else {
                pc2
            };
            proof {
                assert(exec_spec(pre, op, 0u8)->Ok_0 =~= self@);
                assert(exec_spec(pre, op, 0u8) == Ok::<State, Fault>(self@));
            }
            Ok(())
        } else if d.family == 0x6 {
            // LD Vx, kk
            self.pc = pc2;
            self.reg.set(d.x, d.kk);
            proof {
                assert(exec_spec(pre, op, 0u8)->Ok_0 =~= self@);
                assert(exec_spec(pre, op, 0u8) == Ok::<State, Fault>(self@));
            }
            Ok(())
        } else if d.family == 0x7 {
            // ADD Vx, kk
            let a = self.reg[d.x];
            let v = a.wrapping_add(d.kk);
            proof {
                lemma_wrap_u8(a + d.kk);
            }
            self.pc = pc2;
            self.reg.set(d.x, v);
            proof {
                assert(exec_spec(pre, op, 0u8)->Ok_0 =~= self@);
                assert(exec_spec(pre, op, 0u8) == Ok::<State, Fault>(self@));
            }
            Ok(())
        } else if d.family == 0x8 {
            self.exec_alu(op, d, pc2)
        } else if d.family == 0xA {
            // LD I, nnn
            self.pc = pc2;
            self.vi = d.nnn;
            proof {
                assert(exec_spec(pre, op, 0u8)->Ok_0 =~= self@);
                assert(exec_spec(pre, op, 0u8) == Ok::<State, Fault>(self@));
            }
            Ok(())
        } else if d.family == 0xC {
            // RND Vx, kk
            let rnd = random_byte();
            self.pc = pc2;
            self.reg.set(d.x, rnd & d.kk);
            proof {
                assert(exec_spec(pre, op, rnd)->Ok_0 =~= self@);
                assert(exec_spec(pre, op, rnd) == Ok::<State, Fault>(self@));
            }
            Ok(())
        } else if d.family == 0xD {
            self.exec_draw(op, d, pc2)
        } else if d.family == 0xF {
            self.exec_fx(op, d, pc2)
        } else {
            proof {
                assert(forall|r: u8|
                    exec_spec(pre, op, r) == Err::<State, Fault>(Fault::UnrecognizedInstruction));
            }
            Err(Fault::UnrecognizedInstruction)
        }
    }

    /// The arithmetic/logic family `8xyn`, dispatched on the sub-opcode.
    fn exec_alu(&mut self, op: u16, d: decode::Fields, pc2: u16) -> (res: Result<(), Fault>)
        requires
            old(self).wf(),
            decode::family(op) == 0x8,
            d.x == xreg(op),
            d.y == yreg(op),
            d.n == subop(op),
            d.x < 16,
            d.y < 16,
            pc2 == advanced(old(self)@).pc,
        ensures
            final(self).wf(),
            (match res {
                Ok(()) => exists|r: u8|
                    exec_spec(old(self)@, op, r) == Ok::<State, Fault>(final(self)@),
                Err(e) => final(self)@ == old(self)@ && (forall|r: u8|
                    exec_spec(old(self)@, op, r) == Err::<State, Fault>(e)),
            }),
    {
        let ghost pre = self@;
        if d.n == 0x0 {
            // LD Vx, Vy
            let b = self.reg[d.y];
            self.pc = pc2;
            self.reg.set(d.x, b);
            proof {
                assert(exec_spec(pre, op, 0u8)->Ok_0 =~= self@);
                assert(exec_spec(pre, op, 0u8) == Ok::<State, Fault>(self@));
            }
            Ok(())
        } else if d.n == 0x1 {
            // OR Vx, Vy
            let v = self.reg[d.x] | self.reg[d.y];
            self.pc = pc2;
            self.reg.set(d.x, v);
            proof {
                assert(exec_spec(pre, op, 0u8)->Ok_0 =~= self@);
                assert(exec_spec(pre, op, 0u8) == Ok::<State, Fault>(self@));
            }
            Ok(())
        } else if d.n == 0x2 {
            // AND Vx, Vy
            let v = self.reg[d.x] & self.reg[d.y];
            self.pc = pc2;
            self.reg.set(d.x, v);
            proof {
                assert(exec_spec(pre, op, 0u8)->Ok_0 =~= self@);
                assert(exec_spec(pre, op, 0u8) == Ok::<State, Fault>(self@));
            }
            Ok(())
        } else if d.n == 0x3 {
            // XOR Vx, Vy
            let v = self.reg[d.x] ^ self.reg[d.y];
            self.pc = pc2;
            self.reg.set(d.x, v);
            proof {
                assert(exec_spec(pre, op, 0u8)->Ok_0 =~= self@);
                assert(exec_spec(pre, op, 0u8) == Ok::<State, Fault>(self@));
            }
            Ok(())
        } else if d.n == 0x4 {
            // ADD Vx, Vy with carry flag
            let a = self.reg[d.x];
            let b = self.reg[d.y];
            let v = a.wrapping_add(b);
            let flag: u8 = if (a as u16) + (b as u16) > 255 {
                1
            } else {
                0
            };
            proof {
                lemma_wrap_u8(a + b);
            }
            self.pc = pc2;
            self.reg.set(d.x, v);
            self.reg.set(15, flag);
            proof {
                assert(exec_spec(pre, op, 0u8)->Ok_0 =~= self@);
                assert(exec_spec(pre, op, 0u8) == Ok::<State, Fault>(self@));
            }
            Ok(())
        } else if d.n == 0x5 {
            // SUB Vx, Vy with no-borrow flag
            let a = self.reg[d.x];
            let b = self.reg[d.y];
            let v = a.wrapping_sub(b);
            let flag: u8 = if a >= b {
                1
            } else {
                0
            };
            self.pc = pc2;
            self.reg.set(d.x, v);
            self.reg.set(15, flag);
            proof {
                assert(exec_spec(pre, op, 0u8)->Ok_0 =~= self@);
                assert(exec_spec(pre, op, 0u8) == Ok::<State, Fault>(self@));
            }
            Ok(())
        } else if d.n == 0x6 {
            // SHR Vx, Vy
            let b = self.reg[d.y];
            let flag = b & 1;
            self.pc = pc2;
            self.reg.set(15, flag);
            let b2 = self.reg[d.y];
            let v = b2 >> 1u8;
            self.reg.set(d.x, v);
            proof {
                assert(b & 1 == b % 2) by (bit_vector);
                assert(b2 >> 1u8 == b2 / 2) by (bit_vector);
                assert(exec_spec(pre, op, 0u8)->Ok_0 =~= self@);
                assert(exec_spec(pre, op, 0u8) == Ok::<State, Fault>(self@));
            }
            Ok(())
        } else if d.n == 0x7 {
            // SUBN Vx, Vy with no-borrow flag
            let a = self.reg[d.x];
            let b = self.reg[d.y];
            let v = b.wrapping_sub(a);
            let flag: u8 = if b >= a {
                1
            } else {
                0
            };
            self.pc = pc2;
            self.reg.set(d.x, v);
            self.reg.set(15, flag);
            proof {
                assert(exec_spec(pre, op, 0u8)->Ok_0 =~= self@);
                assert(exec_spec(pre, op, 0u8) == Ok::<State, Fault>(self@));
            }
            Ok(())
        } else if d.n == 0xE {
            // SHL Vx, Vy
            let b = self.reg[d.y];
            let flag = b >> 7u8;
            self.pc = pc2;
            self.reg.set(15, flag);
            let b2 = self.reg[d.y];
            let v = b2 << 1u8;
            self.reg.set(d.x, v);
            proof {
                assert(b >> 7u8 == b / 128) by (bit_vector);
                assert(b2 << 1u8 == ((b2 * 2) % 256)) by (bit_vector);
                assert(exec_spec(pre, op, 0u8)->Ok_0 =~= self@);
                assert(exec_spec(pre, op, 0u8) == Ok::<State, Fault>(self@));
            }
            Ok(())
        } else {
            proof {
                assert(forall|r: u8|
                    exec_spec(pre, op, r) == Err::<State, Fault>(Fault::UnrecognizedInstruction));
            }
            Err(Fault::UnrecognizedInstruction)
        }
    }

    /// The `Fxkk` family: timers, index arithmetic, BCD and block transfers.
    fn exec_fx(&mut self, op: u16, d: decode::Fields, pc2: u16) -> (res: Result<(), Fault>)
        requires
            old(self).wf(),
            decode::family(op) == 0xF,
            d.x == xreg(op),
            d.kk == decode::imm(op),
            d.x < 16,
            pc2 == advanced(old(self)@).pc,
        ensures
            final(self).wf(),
            (match res {
                Ok(()) => exists|r: u8|
                    exec_spec(old(self)@, op, r) == Ok::<State, Fault>(final(self)@),
                Err(e) => final(self)@ == old(self)@ && (forall|r: u8|
                    exec_spec(old(self)@, op, r) == Err::<State, Fault>(e)),
            }),
    {
        let ghost pre = self@;
        if d.kk == 0x07 {
            // LD Vx, DT
            let v = self.dt;
            self.pc = pc2;
            self.reg.set(d.x, v);
            proof {
                assert(exec_spec(pre, op, 0u8)->Ok_0 =~= self@);
                assert(exec_spec(pre, op, 0u8) == Ok::<State, Fault>(self@));
            }
            Ok(())
        } else if d.kk == 0x15 {
            // LD DT, Vx
            self.dt = self.reg[d.x];
            self.pc = pc2;
            proof {
                assert(exec_spec(pre, op, 0u8)->Ok_0 =~= self@);
                assert(exec_spec(pre, op, 0u8) == Ok::<State, Fault>(self@));
            }
            Ok(())
        } else if d.kk == 0x18 {
            // LD ST, Vx
            self.st = self.reg[d.x];
            self.pc = pc2;
            proof {
                assert(exec_spec(pre, op, 0u8)->Ok_0 =~= self@);
                assert(exec_spec(pre, op, 0u8) == Ok::<State, Fault>(self@));
            }
            Ok(())
        } else if d.kk == 0x1E {
            // ADD I, Vx
            let v = self.vi.wrapping_add(self.reg[d.x] as u16);
            proof {
                lemma_wrap_u16(pre.vi + pre.reg[xreg(op)]);
            }
            self.pc = pc2;
            self.vi = v;
            proof {
                assert(exec_spec(pre, op, 0u8)->Ok_0 =~= self@);
                assert(exec_spec(pre, op, 0u8) == Ok::<State, Fault>(self@));
            }
            Ok(())
        } else if d.kk == 0x33 {
            // LD B, Vx: binary-coded decimal store
            let vi = self.vi as usize;
            if vi + 3 > 4096 {
                proof {
                    let e = Fault::OutOfBoundsAccess { addr: pre.vi };
                    assert(forall|r: u8| exec_spec(pre, op, r) == Err::<State, Fault>(e));
                }
                return Err(Fault::OutOfBoundsAccess { addr: self.vi });
            }
            let v = self.reg[d.x];
            self.pc = pc2;
            self.mem.set(vi, v / 100);
            self.mem.set(vi + 1, (v / 10) % 10);
            self.mem.set(vi + 2, v % 10);
            proof {
                assert(self.mem@ =~= bcd_stored(pre.mem, pre.vi as int, v));
                assert(exec_spec(pre, op, 0u8)->Ok_0 =~= self@);
                assert(exec_spec(pre, op, 0u8) == Ok::<State, Fault>(self@));
            }
            Ok(())
        } else if d.kk == 0x55 {
            // LD [I], Vx: block store of registers 0..=x
            let vi = self.vi as usize;
            if vi + d.x + 1 > 4096 {
                proof {
                    let e = Fault::OutOfBoundsAccess { addr: pre.vi };
                    assert(forall|r: u8| exec_spec(pre, op, r) == Err::<State, Fault>(e));
                }
                return Err(Fault::OutOfBoundsAccess { addr: self.vi });
            }
            let mut k: usize = 0;
            while k < d.x + 1
                invariant
                    pre.wf(),
                    k <= d.x + 1,
                    d.x < 16,
                    vi == pre.vi,
                    vi + d.x + 1 <= 4096,
                    self@ == (State { mem: self.mem@, ..pre }),
                    self.mem@.len() == 4096,
                    forall|i: int|
                        0 <= i < 4096 && !(vi <= i < vi + k) ==> self.mem@[i] == pre.mem[i],
                    forall|i: int| vi <= i < vi + k ==> self.mem@[i] == pre.reg[i - vi],
                decreases d.x + 1 - k,
            {
                let v = self.reg[k];
                self.mem.set(vi + k, v);
                k += 1;
            }
            self.pc = pc2;
            proof {
                assert(self.mem@ =~= block_stored(pre.mem, pre.reg, pre.vi as int, xreg(op)));
                assert(exec_spec(pre, op, 0u8)->Ok_0 =~= self@);
                assert(exec_spec(pre, op, 0u8) == Ok::<State, Fault>(self@));
            }
            Ok(())
        } else if d.kk == 0x65 {
            // LD Vx, [I]: block load of registers 0..=x
            let vi = self.vi as usize;
            if vi + d.x + 1 > 4096 {
                proof {
                    let e = Fault::OutOfBoundsAccess { addr: pre.vi };
                    assert(forall|r: u8| exec_spec(pre, op, r) == Err::<State, Fault>(e));
                }
                return Err(Fault::OutOfBoundsAccess { addr: self.vi });
            }
            let mut k: usize = 0;
            while k < d.x + 1
                invariant
                    pre.wf(),
                    k <= d.x + 1,
                    d.x < 16,
                    vi == pre.vi,
                    vi + d.x + 1 <= 4096,
                    self@ == (State { reg: self.reg@, ..pre }),
                    self.reg@.len() == 16,
                    forall|i: int| 0 <= i < k ==> self.reg@[i] == pre.mem[vi + i],
                    forall|i: int| k <= i < 16 ==> self.reg@[i] == pre.reg[i],
                decreases d.x + 1 - k,
            {
                let v = self.mem[vi + k];
                self.reg.set(k, v);
                k += 1;
            }
            self.pc = pc2;
            proof {
                assert(self.reg@ =~= block_loaded(pre.reg, pre.mem, pre.vi as int, xreg(op)));
                assert(exec_spec(pre, op, 0u8)->Ok_0 =~= self@);
                assert(exec_spec(pre, op, 0u8) == Ok::<State, Fault>(self@));
            }
            Ok(())
        } else {
            proof {
                assert(forall|r: u8|
                    exec_spec(pre, op, r) == Err::<State, Fault>(Fault::UnrecognizedInstruction));
            }
            Err(Fault::UnrecognizedInstruction)
        }
    }

    /// The draw instruction `Dxyn`.  Each cell the sprite covers is
    /// overwritten with its sprite bit, and the flag register is cleared:
    /// the collision indicator is accumulated by a conjunction seeded at
    /// "false", so it never reports a collision.
    fn exec_draw(&mut self, op: u16, d: decode::Fields, pc2: u16) -> (res: Result<(), Fault>)
        requires
            old(self).wf(),
            decode::family(op) == 0xD,
            d.x == xreg(op),
            d.y == yreg(op),
            d.n == subop(op),
            d.x < 16,
            d.y < 16,
            d.n < 16,
            pc2 == advanced(old(self)@).pc,
        ensures
            final(self).wf(),
            (match res {
                Ok(()) => exists|r: u8|
                    exec_spec(old(self)@, op, r) == Ok::<State, Fault>(final(self)@),
                Err(e) => final(self)@ == old(self)@ && (forall|r: u8|
                    exec_spec(old(self)@, op, r) == Err::<State, Fault>(e)),
            }),
    {
        let ghost pre = self@;
        let n = d.n;
        let vi = self.vi as usize;
        if vi + n > 4096 {
            proof {
                let e = Fault::OutOfBoundsAccess { addr: pre.vi };
                assert(forall|r: u8| exec_spec(pre, op, r) == Err::<State, Fault>(e));
            }
            return Err(Fault::OutOfBoundsAccess { addr: self.vi });
        }
        let x = self.reg[d.x];
        let y = self.reg[d.y];
        let ghost target = drawn_vram(advanced(pre), x, y, n as int);
        let mut nv: Vec<bool> = Vec::new();
        let mut r: usize = 0;
        while r < 32
            invariant
                pre.wf(),
                self@ == pre,
                n == subop(op),
                n < 16,
                vi == pre.vi,
                vi + n <= 4096,
                x == pre.reg[xreg(op)],
                y == pre.reg[yreg(op)],
                target == drawn_vram(advanced(pre), x, y, n as int),
                r <= 32,
                nv@.len() == 64 * r,
                forall|j: int| 0 <= j < nv@.len() ==> nv@[j] == target[j],
            decreases 32 - r,
        {
            let mut c: usize = 0;
            while c < 64
                invariant
                    pre.wf(),
                    self@ == pre,
                    n == subop(op),
                    n < 16,
                    vi == pre.vi,
                    vi + n <= 4096,
                    x == pre.reg[xreg(op)],
                    y == pre.reg[yreg(op)],
                    target == drawn_vram(advanced(pre), x, y, n as int),
                    r < 32,
                    c <= 64,
                    nv@.len() == 64 * r + c,
                    forall|j: int| 0 <= j < nv@.len() ==> nv@[j] == target[j],
                decreases 64 - c,
            {
                let dy = (r + 32 - (y as usize % 32)) % 32;
                let dx = (c + 64 - (x as usize % 64)) % 64;
                let v: bool = if dy < n && dx < 8 {
                    let b = self.mem[vi + dy];
                    (b & (0x80u8 >> (dx as u8))) > 0
                } else {
                    self.vram[64 * r + c]
                };
                proof {
                    let j = 64 * (r as int) + (c as int);
                    vstd::arithmetic::div_mod::lemma_fundamental_div_mod_converse(
                        j,
                        64,
                        r as int,
                        c as int,
                    );
                    vstd::arithmetic::div_mod::lemma_mod_add_multiples_vanish(
                        r - (y as int % 32),
                        32,
                    );
                    vstd::arithmetic::div_mod::lemma_mod_add_multiples_vanish(
                        c - (x as int % 64),
                        64,
                    );
                    if dy < n && dx < 8 {
                        let b = pre.mem[vi + dy];
                        let k = dx as u8;
                        assert(((b & (0x80u8 >> k)) > 0) == ((b >> ((7 - k) as u8)) & 1
                            == 1)) by (bit_vector)
                            requires
                                k < 8,
                        ;
                    }
                    assert(v == target[j]);
                }
                nv.push(v);
                c += 1;
            }
            r += 1;
        }
        self.pc = pc2;
        self.vram = nv;
        self.reg.set(15, 0);
        proof {
            assert(exec_spec(pre, op, 0u8)->Ok_0 =~= self@);
            assert(exec_spec(pre, op, 0u8) == Ok::<State, Fault>(self@));
        }
        Ok(())
    }

    /// Appends the textual rendering of the framebuffer to `buffer`: 32
    /// rows of 64 cells, a shaded block for an on cell and a space for an
    /// off one, each row closed by a newline.
    pub fn draw(&self, buffer: &mut String)
        requires
            self.wf(),
        ensures
            final(buffer)@ == old(buffer)@ + render(self@.vram),
    {
        let ghost start = buffer@;
        let mut r: usize = 0;
        while r < 32
            invariant
                self.wf(),
                r <= 32,
                buffer@ == start + render(self@.vram).take(65 * r),
            decreases 32 - r,
        {
            let mut c: usize = 0;
            while c < 64
                invariant
                    self.wf(),
                    r < 32,
                    c <= 64,
                    buffer@ == start + render(self@.vram).take(65 * r + c),
                decreases 64 - c,
            {
                if self.vram[64 * r + c] {
                    buffer.append("▓");
                } else {
                    buffer.append(" ");
                }
                proof {
                    reveal_strlit("▓");
                    reveal_strlit(" ");
                    let j = 65 * (r as int) + (c as int);
                    vstd::arithmetic::div_mod::lemma_fundamental_div_mod_converse(
                        j,
                        65,
                        r as int,
                        c as int,
                    );
                    assert(buffer@ =~= start + render(self@.vram).take(j + 1));
                }
                c += 1;
            }
            buffer.append("\n");
            proof {
                reveal_strlit("\n");
                let j = 65 * (r as int) + 64;
                vstd::arithmetic::div_mod::lemma_fundamental_div_mod_converse(j, 65, r as int, 64);
                assert(buffer@ =~= start + render(self@.vram).take(j + 1));
                assert(65 * (r as int) + 65 == 65 * (r as int + 1));
            }
            r += 1;
        }
        proof {
            assert(buffer@ =~= start + render(self@.vram));
        }
    }

    /// One full fetch-decode-execute cycle: reads the big-endian word at the
    /// program counter (a fault, leaving the machine unchanged, if the pair
    /// would cross the memory ceiling) and executes it as [`step_spec`]
    /// states.
    pub fn step(&mut self) -> (res: Result<(), Fault>)
        requires
            old(self).wf(),
        ensures
            final(self).wf(),
            (match res {
                Ok(()) => exists|r: u8| step_spec(old(self)@, r) == Ok::<State, Fault>(
                    final(self)@,
                ),
                Err(e) => final(self)@ == old(self)@ && (forall|r: u8|
                    step_spec(old(self)@, r) == Err::<State, Fault>(e)),
            }),
    {
        let ghost pre = self@;
        if self.pc as usize + 2 > 4096 {
            return Err(Fault::OutOfBoundsAccess { addr: self.pc });
        }
        let hi = self.mem[self.pc as usize];
        let lo = self.mem[self.pc as usize + 1];
        let op = decode::combine(hi, lo);
        let res = self.exec(op);
        proof {
            match res {
                Ok(()) => {
                    let r = choose|r: u8|
                        exec_spec(pre, op, r) == Ok::<State, Fault>(self@);
                    assert(step_spec(pre, r) == Ok::<State, Fault>(self@));
                },
                Err(e) => {},
            }
        }
        res
    }
}

} // verus!
