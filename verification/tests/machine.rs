//! Behavioural tests of the machine: construction, loading, one test per
//! instruction group, and every fault.

use chip8::Cpu;
use chip8::Fault;

#[test]
fn it_works() {
    assert_eq!(2 + 2, 4);
}

#[test]
fn new_machine_is_blank() {
    let cpu = Cpu::new();
    assert_eq!(cpu.pc, 0x200);
    assert_eq!(cpu.vi, 0);
    assert_eq!(cpu.dt, 0);
    assert_eq!(cpu.st, 0);
    assert!(cpu.stack.is_empty());
    assert_eq!(cpu.reg, vec![0u8; 16]);
    assert_eq!(cpu.vram, vec![false; 2048]);
    assert_eq!(cpu.key, vec![false; 16]);
}

#[test]
fn font_sits_at_base_of_memory() {
    let cpu = Cpu::new();
    // Digit 0, rows 0 and 4.
    assert_eq!(cpu.mem[0], 0xF0);
    assert_eq!(cpu.mem[4], 0xF0);
    // Digit 1 starts at 5 * 1.
    assert_eq!(cpu.mem[5], 0x20);
    // Digit A starts at 5 * 10.
    assert_eq!(cpu.mem[50], 0xF0);
    assert_eq!(cpu.mem[51], 0x90);
    // Last font byte: digit F, row 4.
    assert_eq!(cpu.mem[79], 0x80);
    // Everything past the font is zero.
    assert!(cpu.mem[80..].iter().all(|&b| b == 0));
    assert_eq!(cpu.mem.len(), 4096);
}

#[test]
fn load_places_image_at_0x200() {
    let mut cpu = Cpu::new();
    let rom = [0xDE, 0xAD, 0xBE, 0xEF];
    assert_eq!(cpu.load(&rom), Ok(()));
    assert_eq!(&cpu.mem[0x200..0x204], &rom);
    assert_eq!(cpu.mem[0x204], 0);
    assert_eq!(cpu.pc, 0x200);
}

#[test]
fn load_refuses_oversized_image() {
    let mut cpu = Cpu::new();
    let rom = vec![0xAA; 4096 - 0x200 + 1];
    assert_eq!(cpu.load(&rom), Err(Fault::OutOfBoundsAccess { addr: 0x200 }));
    // The machine is untouched.
    assert!(cpu.mem[0x200..].iter().all(|&b| b == 0));
    let exact = vec![0xBB; 4096 - 0x200];
    assert_eq!(cpu.load(&exact), Ok(()));
    assert_eq!(cpu.mem[4095], 0xBB);
}

#[test]
fn empty_image_loads_nothing() {
    let mut cpu = Cpu::new();
    assert_eq!(cpu.load(&[]), Ok(()));
    assert!(cpu.mem[0x200..].iter().all(|&b| b == 0));
}

#[test]
fn fetch_at_last_valid_address_reads_a_word() {
    let mut cpu = Cpu::new();
    cpu.pc = 4094;
    // The two bytes at 4094 and 4095 are in range; they hold zeros, which
    // decode to no known pattern, so the fault is the unrecognized one, not
    // an out-of-bounds access.
    assert_eq!(cpu.step(), Err(Fault::UnrecognizedInstruction));
}

#[test]
fn cls_turns_every_cell_off() {
    let mut cpu = Cpu::new();
    cpu.vram[0] = true;
    cpu.vram[31 * 64 + 63] = true;
    cpu.vram[1000] = true;
    assert_eq!(cpu.exec(0x00E0), Ok(()));
    assert!(cpu.vram.iter().all(|&px| !px));
    assert_eq!(cpu.pc, 0x202);
}

#[test]
fn jp_sets_pc_exactly() {
    let mut cpu = Cpu::new();
    cpu.pc = 0xABC;
    assert_eq!(cpu.exec(0x1123), Ok(()));
    assert_eq!(cpu.pc, 0x123);
}

#[test]
fn call_then_ret_returns_past_the_call() {
    let mut cpu = Cpu::new();
    assert_eq!(cpu.pc, 0x200);
    assert_eq!(cpu.exec(0x2300), Ok(()));
    assert_eq!(cpu.pc, 0x300);
    assert_eq!(cpu.stack, vec![0x202]);
    assert_eq!(cpu.exec(0x00EE), Ok(()));
    assert_eq!(cpu.pc, 0x202);
    assert!(cpu.stack.is_empty());
}

#[test]
fn ret_on_empty_stack_underflows() {
    let mut cpu = Cpu::new();
    assert_eq!(cpu.exec(0x00EE), Err(Fault::StackUnderflow));
    // The fault leaves the machine unchanged, program counter included.
    assert_eq!(cpu.pc, 0x200);
}

#[test]
fn skips_advance_pc_by_four() {
    let mut cpu = Cpu::new();
    cpu.reg[3] = 0x42;
    // SE V3, 0x42: equal, so skip.
    assert_eq!(cpu.exec(0x3342), Ok(()));
    assert_eq!(cpu.pc, 0x204);
    // SE V3, 0x00: not equal, no skip.
    assert_eq!(cpu.exec(0x3300), Ok(()));
    assert_eq!(cpu.pc, 0x206);
    // SNE V3, 0x00: not equal, skip.
    assert_eq!(cpu.exec(0x4300), Ok(()));
    assert_eq!(cpu.pc, 0x20A);
    // SNE V3, 0x42: equal, no skip.
    assert_eq!(cpu.exec(0x4342), Ok(()));
    assert_eq!(cpu.pc, 0x20C);
    // SE V3, V4: 0x42 vs 0, no skip.
    assert_eq!(cpu.exec(0x5340), Ok(()));
    assert_eq!(cpu.pc, 0x20E);
    cpu.reg[4] = 0x42;
    // SE V3, V4: equal now, skip.
    assert_eq!(cpu.exec(0x5340), Ok(()));
    assert_eq!(cpu.pc, 0x212);
}

#[test]
fn ld_and_add_immediate_wrap() {
    let mut cpu = Cpu::new();
    // LD V0, 0xFF.
    assert_eq!(cpu.exec(0x60FF), Ok(()));
    assert_eq!(cpu.reg[0], 0xFF);
    // ADD V0, 0x01 wraps to 0x00 and sets no flag.
    assert_eq!(cpu.exec(0x7001), Ok(()));
    assert_eq!(cpu.reg[0], 0x00);
    assert_eq!(cpu.reg[15], 0);
}

#[test]
fn alu_moves_and_bitwise_ops() {
    let mut cpu = Cpu::new();
    cpu.reg[1] = 0b1100;
    cpu.reg[2] = 0b1010;
    // LD V0, V1.
    assert_eq!(cpu.exec(0x8010), Ok(()));
    assert_eq!(cpu.reg[0], 0b1100);
    // OR V0, V2.
    assert_eq!(cpu.exec(0x8021), Ok(()));
    assert_eq!(cpu.reg[0], 0b1110);
    // AND V0, V1.
    assert_eq!(cpu.exec(0x8012), Ok(()));
    assert_eq!(cpu.reg[0], 0b1100);
    // XOR V0, V2.
    assert_eq!(cpu.exec(0x8023), Ok(()));
    assert_eq!(cpu.reg[0], 0b0110);
}

#[test]
fn add_with_carry_flag() {
    let mut cpu = Cpu::new();
    cpu.reg[0] = 200;
    cpu.reg[1] = 100;
    assert_eq!(cpu.exec(0x8014), Ok(()));
    assert_eq!(cpu.reg[0], 44);
    assert_eq!(cpu.reg[15], 1);
    cpu.reg[0] = 10;
    cpu.reg[1] = 20;
    assert_eq!(cpu.exec(0x8014), Ok(()));
    assert_eq!(cpu.reg[0], 30);
    assert_eq!(cpu.reg[15], 0);
}

#[test]
fn sub_with_borrow_flag() {
    let mut cpu = Cpu::new();
    cpu.reg[0] = 10;
    cpu.reg[1] = 3;
    assert_eq!(cpu.exec(0x8015), Ok(()));
    assert_eq!(cpu.reg[0], 7);
    assert_eq!(cpu.reg[15], 1);
    cpu.reg[0] = 3;
    cpu.reg[1] = 10;
    assert_eq!(cpu.exec(0x8015), Ok(()));
    assert_eq!(cpu.reg[0], 249);
    assert_eq!(cpu.reg[15], 0);
}

#[test]
fn subn_with_borrow_flag() {
    let mut cpu = Cpu::new();
    cpu.reg[0] = 3;
    cpu.reg[1] = 10;
    // SUBN V0, V1: V0 <- V1 - V0, no borrow.
    assert_eq!(cpu.exec(0x8017), Ok(()));
    assert_eq!(cpu.reg[0], 7);
    assert_eq!(cpu.reg[15], 1);
    cpu.reg[0] = 10;
    cpu.reg[1] = 3;
    assert_eq!(cpu.exec(0x8017), Ok(()));
    assert_eq!(cpu.reg[0], 249);
    assert_eq!(cpu.reg[15], 0);
}

#[test]
fn shifts_read_vy_and_set_flag() {
    let mut cpu = Cpu::new();
    cpu.reg[1] = 0b1000_0101;
    // SHR V0, V1: flag is the low bit of V1, V0 is V1 >> 1.
    assert_eq!(cpu.exec(0x8016), Ok(()));
    assert_eq!(cpu.reg[0], 0b0100_0010);
    assert_eq!(cpu.reg[15], 1);
    // SHL V0, V1: flag is the high bit of V1, V0 is V1 << 1 truncated.
    assert_eq!(cpu.exec(0x801E), Ok(()));
    assert_eq!(cpu.reg[0], 0b0000_1010);
    assert_eq!(cpu.reg[15], 1);
}

#[test]
fn ld_index_and_add_index() {
    let mut cpu = Cpu::new();
    assert_eq!(cpu.exec(0xA123), Ok(()));
    assert_eq!(cpu.vi, 0x123);
    cpu.reg[7] = 0x10;
    assert_eq!(cpu.exec(0xF71E), Ok(()));
    assert_eq!(cpu.vi, 0x133);
}

#[test]
fn rnd_masks_with_immediate() {
    let mut cpu = Cpu::new();
    // RND V0, 0x0F: whatever byte was drawn, the high nibble is masked off.
    assert_eq!(cpu.exec(0xC00F), Ok(()));
    assert_eq!(cpu.reg[0] & 0xF0, 0);
    // RND V0, 0x00 masks everything.
    assert_eq!(cpu.exec(0xC000), Ok(()));
    assert_eq!(cpu.reg[0], 0);
}

#[test]
fn timers_read_and_write() {
    let mut cpu = Cpu::new();
    cpu.dt = 42;
    // LD V5, DT.
    assert_eq!(cpu.exec(0xF507), Ok(()));
    assert_eq!(cpu.reg[5], 42);
    cpu.reg[6] = 7;
    // LD DT, V6 and LD ST, V6.
    assert_eq!(cpu.exec(0xF615), Ok(()));
    assert_eq!(cpu.dt, 7);
    assert_eq!(cpu.exec(0xF618), Ok(()));
    assert_eq!(cpu.st, 7);
}

#[test]
fn bcd_stores_decimal_digits() {
    let mut cpu = Cpu::new();
    cpu.reg[0] = 234;
    cpu.vi = 0x300;
    assert_eq!(cpu.exec(0xF033), Ok(()));
    assert_eq!(cpu.mem[0x300], 2);
    assert_eq!(cpu.mem[0x301], 3);
    assert_eq!(cpu.mem[0x302], 4);
}

#[test]
fn bcd_out_of_bounds_faults() {
    let mut cpu = Cpu::new();
    cpu.vi = 4094;
    assert_eq!(
        cpu.exec(0xF033),
        Err(Fault::OutOfBoundsAccess { addr: 4094 })
    );
    assert_eq!(cpu.pc, 0x200);
}

#[test]
fn block_store_then_load_round_trips() {
    let mut cpu = Cpu::new();
    for i in 0..4 {
        cpu.reg[i] = 10 + i as u8;
    }
    cpu.vi = 0x400;
    // LD [I], V3.
    assert_eq!(cpu.exec(0xF355), Ok(()));
    assert_eq!(&cpu.mem[0x400..0x404], &[10, 11, 12, 13]);
    assert_eq!(cpu.vi, 0x400);
    for i in 0..4 {
        cpu.reg[i] = 0xEE;
    }
    // LD V3, [I].
    assert_eq!(cpu.exec(0xF365), Ok(()));
    assert_eq!(&cpu.reg[0..4], &[10, 11, 12, 13]);
    assert_eq!(cpu.reg[4], 0);
    assert_eq!(cpu.vi, 0x400);
}

#[test]
fn block_transfer_out_of_bounds_faults() {
    let mut cpu = Cpu::new();
    cpu.vi = 4090;
    // LD [I], V6 needs seven bytes from 4090 on: the last is out of range.
    assert_eq!(
        cpu.exec(0xF655),
        Err(Fault::OutOfBoundsAccess { addr: 4090 })
    );
    // LD [I], V5 needs six: exactly in range.
    assert_eq!(cpu.exec(0xF555), Ok(()));
}

#[test]
fn draw_wraps_around_the_grid() {
    let mut cpu = Cpu::new();
    // One 8x1 sprite row, all bits on, at the bottom-right corner.
    cpu.mem[0x600] = 0xFF;
    cpu.vi = 0x600;
    cpu.reg[0] = 63;
    cpu.reg[1] = 31;
    assert_eq!(cpu.exec(0xD011), Ok(()));
    // Column 63 of row 31, then wrapping into columns 0..=6.
    assert!(cpu.vram[31 * 64 + 63]);
    for c in 0..7 {
        assert!(cpu.vram[31 * 64 + c]);
    }
    assert!(!cpu.vram[31 * 64 + 7]);
    // No other row is touched.
    assert!(cpu.vram[..31 * 64].iter().all(|&px| !px));
    // The collision indicator is invariantly zero.
    assert_eq!(cpu.reg[15], 0);
}

#[test]
fn draw_overwrites_cells_and_never_reports_collision() {
    let mut cpu = Cpu::new();
    cpu.mem[0x600] = 0b1010_0000;
    cpu.vi = 0x600;
    cpu.vram[0] = true;
    cpu.vram[1] = true;
    cpu.reg[15] = 1;
    // DRW V0, V0, 1 at (0, 0): cells are overwritten, not combined.
    assert_eq!(cpu.exec(0xD001), Ok(()));
    assert!(cpu.vram[0]);
    assert!(!cpu.vram[1]);
    assert!(cpu.vram[2]);
    assert!(!cpu.vram[3]);
    assert_eq!(cpu.reg[15], 0);
}

#[test]
fn draw_out_of_bounds_faults() {
    let mut cpu = Cpu::new();
    cpu.vi = 4090;
    assert_eq!(
        cpu.exec(0xD007),
        Err(Fault::OutOfBoundsAccess { addr: 4090 })
    );
}

#[test]
fn draw_of_zero_rows_reads_nothing() {
    let mut cpu = Cpu::new();
    cpu.vi = 4096;
    // Zero sprite rows starting exactly at the ceiling: nothing is read, so
    // nothing faults and no cell changes, but the flag is still cleared.
    cpu.reg[15] = 1;
    assert_eq!(cpu.exec(0xD000), Ok(()));
    assert!(cpu.vram.iter().all(|&px| !px));
    assert_eq!(cpu.reg[15], 0);
    // One row from there is out of range.
    assert_eq!(
        cpu.exec(0xD001),
        Err(Fault::OutOfBoundsAccess { addr: 4096 })
    );
}

#[test]
fn unrecognized_word_is_a_fault_not_a_no_op() {
    let mut cpu = Cpu::new();
    assert_eq!(cpu.exec(0x9000), Err(Fault::UnrecognizedInstruction));
    assert_eq!(cpu.pc, 0x200);
    // The same through a fetch.
    let mut cpu = Cpu::new();
    assert_eq!(cpu.load(&[0x90, 0x00]), Ok(()));
    assert_eq!(cpu.step(), Err(Fault::UnrecognizedInstruction));
    assert_eq!(cpu.pc, 0x200);
    // Other unrecognized patterns.
    let mut cpu = Cpu::new();
    assert_eq!(cpu.exec(0x0123), Err(Fault::UnrecognizedInstruction));
    assert_eq!(cpu.exec(0x5341), Err(Fault::UnrecognizedInstruction));
    assert_eq!(cpu.exec(0x8008), Err(Fault::UnrecognizedInstruction));
    assert_eq!(cpu.exec(0xB123), Err(Fault::UnrecognizedInstruction));
    assert_eq!(cpu.exec(0xE09E), Err(Fault::UnrecognizedInstruction));
    assert_eq!(cpu.exec(0xF00A), Err(Fault::UnrecognizedInstruction));
}

#[test]
fn fetch_past_memory_ceiling_faults() {
    let mut cpu = Cpu::new();
    cpu.pc = 4095;
    assert_eq!(cpu.step(), Err(Fault::OutOfBoundsAccess { addr: 4095 }));
    cpu.pc = 4096;
    assert_eq!(cpu.step(), Err(Fault::OutOfBoundsAccess { addr: 4096 }));
}

#[test]
fn three_steps_of_a_small_program() {
    let mut cpu = Cpu::new();
    // LD V0, 5; LD V1, 3; ADD V0, V1.
    assert_eq!(cpu.load(&[0x60, 0x05, 0x61, 0x03, 0x80, 0x14]), Ok(()));
    assert_eq!(cpu.step(), Ok(()));
    assert_eq!(cpu.step(), Ok(()));
    assert_eq!(cpu.step(), Ok(()));
    assert_eq!(cpu.reg[0], 8);
    assert_eq!(cpu.reg[15], 0);
    assert_eq!(cpu.pc, 0x206);
}

#[test]
fn draw_renders_rows_of_text() {
    let mut cpu = Cpu::new();
    cpu.vram[0] = true;
    cpu.vram[64 + 1] = true;
    let mut buffer = String::new();
    cpu.draw(&mut buffer);
    let lines: Vec<&str> = buffer.lines().collect();
    assert_eq!(lines.len(), 32);
    assert!(lines.iter().all(|l| l.chars().count() == 64));
    assert_eq!(lines[0].chars().next(), Some('▓'));
    assert_eq!(lines[1].chars().nth(1), Some('▓'));
    assert_eq!(lines[1].chars().next(), Some(' '));
    assert!(lines[2].chars().all(|ch| ch == ' '));
    // A second rendering appends rather than overwrites.
    cpu.draw(&mut buffer);
    assert_eq!(buffer.chars().count(), 2 * 32 * 65);
}
