//! Machine-checked laws of the instruction semantics: properties that hold
//! of every machine state, not just of chosen inputs.

use crate::decode::{addr, family};
use crate::fault::Fault;
use crate::semantics::{exec_spec, recognized, State};
use vstd::prelude::*;

verus! {

/// Clearing the screen (`CLS`) turns every framebuffer cell off, whatever
/// the grid held before.
pub proof fn lemma_cls_clears_all(pre: State, rnd: u8)
    requires
        pre.wf(),
    ensures
        exec_spec(pre, 0x00E0, rnd) is Ok,
        forall|i: int| 0 <= i < 2048 ==> !exec_spec(pre, 0x00E0, rnd)->Ok_0.vram[i],
{
}

/// A jump (`1nnn`) sets the program counter to exactly its target address,
/// whatever the prior value.
pub proof fn lemma_jp_sets_pc(pre: State, op: u16, rnd: u8)
    requires
        pre.wf(),
        family(op) == 0x1,
    ensures
        exec_spec(pre, op, rnd) is Ok,
        exec_spec(pre, op, rnd)->Ok_0.pc == addr(op),
{
}

/// A subroutine call (`2nnn`) followed by a return (`00EE`) restores the
/// program counter to the address immediately following the call, and
/// leaves the call stack as it was.
pub proof fn lemma_call_then_ret(pre: State, op: u16, r1: u8, r2: u8)
    requires
        pre.wf(),
        family(op) == 0x2,
    ensures
        ({
            let mid = exec_spec(pre, op, r1);
            &&& mid is Ok
            &&& exec_spec(mid->Ok_0, 0x00EE, r2) is Ok
            &&& exec_spec(mid->Ok_0, 0x00EE, r2)->Ok_0.pc == ((pre.pc + 2) % 0x10000) as u16
            &&& exec_spec(mid->Ok_0, 0x00EE, r2)->Ok_0.stack == pre.stack
        }),
{
    let p2 = (((pre.pc + 2) % 0x10000) as u16);
    assert(pre.stack.push(p2).drop_last() =~= pre.stack);
}

/// A block store (`Fx55`) followed by a block load (`Fx65`) of the same
/// register count returns every register to its original value.
pub proof fn lemma_block_store_load_round_trip(pre: State, x: u16, r1: u8, r2: u8)
    requires
        pre.wf(),
        x < 16,
        pre.vi + x + 1 <= 4096,
    ensures
        ({
            let store = ((0xF055 + 0x100 * x) as u16);
            let load = ((0xF065 + 0x100 * x) as u16);
            let mid = exec_spec(pre, store, r1);
            &&& mid is Ok
            &&& mid->Ok_0.vi == pre.vi
            &&& exec_spec(mid->Ok_0, load, r2) is Ok
            &&& exec_spec(mid->Ok_0, load, r2)->Ok_0.reg == pre.reg
            &&& exec_spec(mid->Ok_0, load, r2)->Ok_0.vi == pre.vi
        }),
{
    let store = ((0xF055 + 0x100 * x) as u16);
    let load = ((0xF065 + 0x100 * x) as u16);
    vstd::arithmetic::div_mod::lemma_fundamental_div_mod_converse(
        store as int,
        0x1000,
        0xF,
        0x55 + 0x100 * x,
    );
    vstd::arithmetic::div_mod::lemma_fundamental_div_mod_converse(
        load as int,
        0x1000,
        0xF,
        0x65 + 0x100 * x,
    );
    vstd::arithmetic::div_mod::lemma_fundamental_div_mod_converse(
        store as int,
        0x100,
        0xF0 + x,
        0x55,
    );
    vstd::arithmetic::div_mod::lemma_fundamental_div_mod_converse(
        load as int,
        0x100,
        0xF0 + x,
        0x65,
    );
    vstd::arithmetic::div_mod::lemma_fundamental_div_mod_converse(0xF0 + x, 0x10, 0xF, x as int);
    let mid = exec_spec(pre, store, r1);
    assert(mid is Ok);
    let out = exec_spec(mid->Ok_0, load, r2);
    assert(out is Ok);
    assert(out->Ok_0.reg =~= pre.reg);
}

/// A draw (`Dxyn`) that succeeds always clears the flag register: the
/// collision indicator is accumulated by a conjunction seeded at "false",
/// so it never reports a collision, whatever the sprite overlaps.
pub proof fn lemma_draw_never_reports_collision(pre: State, op: u16, rnd: u8)
    requires
        pre.wf(),
        family(op) == 0xD,
        exec_spec(pre, op, rnd) is Ok,
    ensures
        exec_spec(pre, op, rnd)->Ok_0.reg[15] == 0,
{
}

/// Executing a word that matches no encoding pattern reports the
/// unrecognized-instruction fault; it is never a silent no-op.
pub proof fn lemma_unrecognized_faults(pre: State, op: u16, rnd: u8)
    requires
        pre.wf(),
        !recognized(op),
    ensures
        exec_spec(pre, op, rnd) == Err::<State, Fault>(Fault::UnrecognizedInstruction),
{
}

/// Conversely, a word that matches some pattern never reports the
/// unrecognized-instruction fault.
pub proof fn lemma_recognized_never_unrecognized(pre: State, op: u16, rnd: u8)
    requires
        pre.wf(),
        recognized(op),
    ensures
        exec_spec(pre, op, rnd) != Err::<State, Fault>(Fault::UnrecognizedInstruction),
{
}

} // verus!
